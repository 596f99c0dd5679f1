//! JSON values, as the language-model requests and replies need them.

use crate::chars::str_eq;
use vstd::prelude::*;
use vstd::string::*;

verus! {

/// A JSON value. A number that is not a whole one is held by the bit pattern of
/// its single- or double-precision value.
#[derive(Debug)]
pub enum Json {
    Null,
    Bool(bool),
    Int(i64),
    Single(u32),
    Double(u64),
    Text(String),
    List(Vec<Json>),
    Object(Vec<(String, Json)>),
}

/// What a JSON value says.
pub enum Tree {
    Null,
    Bool(bool),
    Int(int),
    Single(u32),
    Double(u64),
    Text(Seq<char>),
    List(Seq<Tree>),
    Object(Seq<(Seq<char>, Tree)>),
}

impl Json {
    pub open spec fn tree(self) -> Tree
        decreases self,
    {
        match self {
            Json::Null => Tree::Null,
            Json::Bool(b) => Tree::Bool(b),
            Json::Int(n) => Tree::Int(n as int),
            Json::Single(b) => Tree::Single(b),
            Json::Double(b) => Tree::Double(b),
            Json::Text(s) => Tree::Text(s@),
            Json::List(v) => Tree::List(
                Seq::new(
                    v@.len(),
                    |i: int|
                        if 0 <= i < v@.len() {
                            v@[i].tree()
                        } else {
                            Tree::Null
                        },
                ),
            ),
            Json::Object(v) => Tree::Object(
                Seq::new(
                    v@.len(),
                    |i: int|
                        if 0 <= i < v@.len() {
                            (v@[i].0@, v@[i].1.tree())
                        } else {
                            (Seq::empty(), Tree::Null)
                        },
                ),
            ),
        }
    }
}

impl Tree {
    /// The value under a name; null where there is none.
    pub open spec fn field(self, name: Seq<char>) -> Tree {
        match self {
            Tree::Object(v) => field_from(v, name, 0),
            _ => Tree::Null,
        }
    }

    /// The value at a place; null where there is none.
    pub open spec fn item(self, i: int) -> Tree {
        match self {
            Tree::List(v) => if 0 <= i < v.len() {
                v[i]
            } else {
                Tree::Null
            },
            _ => Tree::Null,
        }
    }

    /// The text of a string.
    pub open spec fn text(self) -> Option<Seq<char>> {
        match self {
            Tree::Text(s) => Some(s),
            _ => None,
        }
    }
}

/// The first value from `i` on that has the name.
pub open spec fn field_from(v: Seq<(Seq<char>, Tree)>, name: Seq<char>, i: int) -> Tree
    decreases v.len() - i,
{
    if i < 0 || i >= v.len() {
        Tree::Null
    } else if v[i].0 == name {
        v[i].1
    } else {
        field_from(v, name, i + 1)
    }
}

impl Json {
    /// The value under a name of an object.
    pub fn field(&self, name: &str) -> (r: Option<&Json>)
        ensures
            match r {
                Some(v) => v.tree() == self.tree().field(name@),
                None => self.tree().field(name@) == Tree::Null,
            },
    {
        match self {
            Json::Object(v) => {
                let ghost all = self.tree()->Object_0;
                assert(all.len() == v@.len());
                let mut i: usize = 0;
                while i < v.len()
                    invariant
                        i <= v.len(),
                        *self == Json::Object(*v),
                        self.tree() == Tree::Object(all),
                        all.len() == v@.len(),
                        self.tree().field(name@) == field_from(all, name@, i as int),
                    decreases v.len() - i,
                {
                    assert(all[i as int] == (v@[i as int].0@, v@[i as int].1.tree()));
                    if str_eq(v[i].0.as_str(), name) {
                        return Some(&v[i].1);
                    }
                    i += 1;
                }
                None
            },
            _ => None,
        }
    }

    /// The value at a place of a list.
    pub fn item(&self, i: usize) -> (r: Option<&Json>)
        ensures
            match r {
                Some(v) => v.tree() == self.tree().item(i as int),
                None => self.tree().item(i as int) == Tree::Null,
            },
    {
        match self {
            Json::List(v) => if i < v.len() {
                Some(&v[i])
            } else {
                None
            },
            _ => None,
        }
    }

    /// The text of a string.
    pub fn text(&self) -> (r: Option<&str>)
        ensures
            (match r {
                Some(s) => Some(s@),
                None => None,
            }) == self.tree().text(),
    {
        match self {
            Json::Text(s) => Some(s.as_str()),
            _ => None,
        }
    }
}

/// A JSON string.
pub fn text_value(s: &str) -> (r: Json)
    ensures
        r.tree() == Tree::Text(s@),
{
    Json::Text(s.to_owned())
}

/// An object with one name, followed by further ones.
pub fn with_field(fields: Vec<(String, Json)>, name: &str, value: Json) -> (r: Vec<(String, Json)>)
    ensures
        Json::Object(r).tree() == Tree::Object(
            (Json::Object(fields).tree()->Object_0).push((name@, value.tree())),
        ),
{
    let ghost before = Json::Object(fields).tree()->Object_0;
    let ghost old_fields = fields@;
    let mut out = fields;
    out.push((name.to_owned(), value));
    proof {
        let after = Json::Object(out).tree()->Object_0;
        assert(after =~= before.push((name@, value.tree())));
    }
    out
}

} // verus!
