//! Characters, and strings as sequences of characters.
//!
//! Every text pass of the library works on `Seq<char>` in its contracts and on
//! `Vec<char>` while it runs.

use vstd::prelude::*;
use vstd::string::*;
use vstd::utf8::*;

verus! {

/// `String::push` of std appends the given character to the end of the string.
pub assume_specification[ String::push ](s: &mut String, c: char)
    ensures
        final(s)@ == old(s)@.push(c),
;

/// The result of `char::is_alphanumeric` of std.
pub uninterp spec fn char_is_alphanumeric(c: char) -> bool;

/// `char::is_alphanumeric` of std depends on the character alone. Inside ASCII
/// it holds of letters and digits and of nothing else.
pub assume_specification[ char::is_alphanumeric ](c: char) -> (r: bool)
    ensures
        r == char_is_alphanumeric(c),
        (c as u32) < 128 ==> r == (is_ascii_letter(c) || is_digit(c)),
;

/// The Unicode `White_Space` property.
pub open spec fn is_white(c: char) -> bool {
    let u = c as u32;
    ||| 0x09 <= u <= 0x0D
    ||| u == 0x20
    ||| u == 0x85
    ||| u == 0xA0
    ||| u == 0x1680
    ||| 0x2000 <= u <= 0x200A
    ||| u == 0x2028
    ||| u == 0x2029
    ||| u == 0x202F
    ||| u == 0x205F
    ||| u == 0x3000
}

pub open spec fn is_ascii_letter(c: char) -> bool {
    'a' <= c <= 'z' || 'A' <= c <= 'Z'
}

pub open spec fn is_digit(c: char) -> bool {
    '0' <= c <= '9'
}

/// Printable ASCII that is neither a letter, a digit nor the space.
pub open spec fn is_punct(c: char) -> bool {
    '!' <= c <= '/' || ':' <= c <= '@' || '[' <= c <= '`' || '{' <= c <= '~'
}

/// The lower-case letter of an ASCII capital; any other character itself.
pub open spec fn lower_char(c: char) -> char {
    if 'A' <= c <= 'Z' {
        ((c as u32) + 32) as char
    } else {
        c
    }
}

/// The capital of an ASCII lower-case letter; any other character itself.
pub open spec fn upper_char(c: char) -> char {
    if 'a' <= c <= 'z' {
        ((c as u32) - 32) as char
    } else {
        c
    }
}

/// ASCII lower-casing of a text.
pub open spec fn lower(s: Seq<char>) -> Seq<char> {
    Seq::new(s.len(), |i: int| lower_char(s[i]))
}

/// Equality up to ASCII case.
pub open spec fn same_ignoring_case(a: Seq<char>, b: Seq<char>) -> bool {
    lower(a) == lower(b)
}

/// The texts of a sequence of strings.
pub open spec fn texts(v: Seq<String>) -> Seq<Seq<char>> {
    Seq::new(v.len(), |i: int| v[i]@)
}

pub fn white(c: char) -> (r: bool)
    ensures
        r == is_white(c),
{
    let u: u32 = c as u32;
    (0x09 <= u && u <= 0x0D) || u == 0x20 || u == 0x85 || u == 0xA0 || u == 0x1680 || (0x2000 <= u
        && u <= 0x200A) || u == 0x2028 || u == 0x2029 || u == 0x202F || u == 0x205F || u == 0x3000
}

pub fn ascii_letter(c: char) -> (r: bool)
    ensures
        r == is_ascii_letter(c),
{
    ('a' <= c && c <= 'z') || ('A' <= c && c <= 'Z')
}

pub fn digit(c: char) -> (r: bool)
    ensures
        r == is_digit(c),
{
    '0' <= c && c <= '9'
}

pub fn punct(c: char) -> (r: bool)
    ensures
        r == is_punct(c),
{
    ('!' <= c && c <= '/') || (':' <= c && c <= '@') || ('[' <= c && c <= '`') || ('{' <= c && c
        <= '~')
}

pub fn lower_one(c: char) -> (r: char)
    ensures
        r == lower_char(c),
{
    if 'A' <= c && c <= 'Z' {
        ((c as u8) + 32) as char
    } else {
        c
    }
}

pub fn upper_one(c: char) -> (r: char)
    ensures
        r == upper_char(c),
{
    if 'a' <= c && c <= 'z' {
        ((c as u8) - 32) as char
    } else {
        c
    }
}

/// The characters of a string, in order.
pub fn to_chars(s: &str) -> (r: Vec<char>)
    ensures
        r@ == s@,
{
    let mut out: Vec<char> = Vec::new();
    for c in it: s.chars()
        invariant
            it.seq() == s@,
            out@ == it.seq().take(it.index()),
    {
        out.push(c);
    }
    out
}

/// The string made of `cs`.
pub fn from_chars(cs: &Vec<char>) -> (r: String)
    ensures
        r@ == cs@,
{
    from_range(cs, 0, cs.len())
}

/// The string made of the characters of `cs` from `from` up to `to`.
pub fn from_range(cs: &Vec<char>, from: usize, to: usize) -> (r: String)
    requires
        from <= to <= cs.len(),
    ensures
        r@ == cs@.subrange(from as int, to as int),
{
    let mut out = String::new();
    let mut i: usize = from;
    while i < to
        invariant
            from <= i <= to <= cs.len(),
            out@ == cs@.subrange(from as int, i as int),
        decreases to - i,
    {
        out.push(cs[i]);
        i += 1;
    }
    out
}

pub fn chars_eq(x: &Vec<char>, y: &Vec<char>) -> (r: bool)
    ensures
        r == (x@ == y@),
{
    if x.len() != y.len() {
        return false;
    }
    let mut i: usize = 0;
    while i < x.len()
        invariant
            i <= x.len(),
            x.len() == y.len(),
            forall|k: int| 0 <= k < i ==> x@[k] == y@[k],
        decreases x.len() - i,
    {
        if x[i] != y[i] {
            return false;
        }
        i += 1;
    }
    assert(x@ =~= y@);
    true
}

/// Whether two strings hold the same characters.
pub fn str_eq(a: &str, b: &str) -> (r: bool)
    ensures
        r == (a@ == b@),
{
    let x = to_chars(a);
    let y = to_chars(b);
    chars_eq(&x, &y)
}

/// ASCII lower-casing.
pub fn lowered(s: &str) -> (r: String)
    ensures
        r@ == lower(s@),
{
    let cs = to_chars(s);
    let mut out = String::new();
    let mut i: usize = 0;
    while i < cs.len()
        invariant
            i <= cs.len(),
            cs@ == s@,
            out@ == lower(s@).take(i as int),
        decreases cs.len() - i,
    {
        out.push(lower_one(cs[i]));
        i += 1;
    }
    assert(lower(s@).take(i as int) == lower(s@));
    out
}

/// Equality up to ASCII case.
pub fn eq_ignore_case(a: &str, b: &str) -> (r: bool)
    ensures
        r == same_ignoring_case(a@, b@),
{
    let x = lowered(a);
    let y = lowered(b);
    str_eq(x.as_str(), y.as_str())
}

/// Two texts, one behind the other.
pub fn cat(a: &str, b: &str) -> (r: String)
    ensures
        r@ == a@ + b@,
{
    let mut out = a.to_owned();
    out.append(b);
    out
}

/// Three texts, one behind the other.
pub fn cat3(a: &str, b: &str, c: &str) -> (r: String)
    ensures
        r@ == a@ + b@ + c@,
{
    let mut out = a.to_owned();
    out.append(b);
    out.append(c);
    out
}

/// How many bytes UTF-8 takes for `c`.
pub open spec fn width(c: char) -> nat {
    let u = c as u32;
    if u < 0x80 {
        1
    } else if u < 0x800 {
        2
    } else if u < 0x10000 {
        3
    } else {
        4
    }
}

/// The length of a text in UTF-8 bytes.
pub open spec fn byte_len(s: Seq<char>) -> nat
    decreases s.len(),
{
    if s.len() == 0 {
        0
    } else {
        width(s[0]) + byte_len(s.drop_first())
    }
}

/// How many characters stand before byte `b`.
pub open spec fn chars_before(s: Seq<char>, b: int) -> int
    decreases s.len(),
{
    if b <= 0 || s.len() == 0 {
        0
    } else {
        1 + chars_before(s.drop_first(), b - width(s[0]))
    }
}

/// Whether byte `b` starts a character of `s`, or ends the text.
pub open spec fn at_boundary(s: Seq<char>, b: int) -> bool
    decreases s.len(),
{
    if b == 0 {
        true
    } else if b < 0 || s.len() == 0 {
        false
    } else {
        at_boundary(s.drop_first(), b - width(s[0]))
    }
}

pub fn char_width(c: char) -> (r: usize)
    ensures
        r == width(c),
{
    let u: u32 = c as u32;
    if u < 0x80 {
        1
    } else if u < 0x800 {
        2
    } else if u < 0x10000 {
        3
    } else {
        4
    }
}

pub proof fn lemma_byte_len_is_encoded_len(s: Seq<char>)
    ensures
        byte_len(s) == encode_utf8(s).len(),
    decreases s.len(),
{
    if s.len() > 0 {
        lemma_byte_len_is_encoded_len(s.drop_first());
        char_is_scalar(s[0]);
    }
}

/// A boundary lies inside the text, right behind the characters before it.
pub proof fn lemma_boundary(s: Seq<char>, b: int)
    requires
        at_boundary(s, b),
    ensures
        0 <= b <= byte_len(s),
        0 <= chars_before(s, b) <= s.len(),
        byte_len(s.take(chars_before(s, b))) == b,
    decreases s.len(),
{
    if b == 0 {
        assert(s.take(0).len() == 0);
    } else {
        let d = b - width(s[0]);
        lemma_boundary(s.drop_first(), d);
        let k = chars_before(s, b);
        assert(s.take(k).drop_first() =~= s.drop_first().take(k - 1));
    }
}

/// Later boundaries stand behind at least as many characters.
pub proof fn lemma_chars_before_monotone(s: Seq<char>, a: int, b: int)
    requires
        a <= b,
    ensures
        0 <= chars_before(s, a) <= chars_before(s, b) <= s.len(),
    decreases s.len(),
{
    if s.len() > 0 {
        lemma_chars_before_monotone(s.drop_first(), a - width(s[0]), b - width(s[0]));
        lemma_chars_before_monotone(s.drop_first(), b - width(s[0]), b - width(s[0]));
    }
}

/// The number of UTF-8 bytes of a string.
pub fn byte_length(s: &str) -> (r: usize)
    ensures
        r == byte_len(s@),
{
    proof {
        lemma_byte_len_is_encoded_len(s@);
    }
    s.as_bytes().len()
}

/// How many characters of `cs` stand before byte `b`.
pub fn char_index(cs: &Vec<char>, b: usize) -> (r: usize)
    ensures
        r == chars_before(cs@, b as int),
        r <= cs.len(),
{
    let mut rest: usize = b;
    let mut i: usize = 0;
    assert(cs@.skip(0) == cs@);
    while i < cs.len() && rest > 0
        invariant
            i <= cs.len(),
            chars_before(cs@, b as int) == i + chars_before(cs@.skip(i as int), rest as int),
        decreases cs.len() - i,
    {
        let w = char_width(cs[i]);
        assert(cs@.skip(i as int).drop_first() == cs@.skip(i + 1));
        proof {
            lemma_chars_before_zero(cs@.skip(i + 1), rest - w);
        }
        if rest > w {
            rest -= w;
        } else {
            rest = 0;
        }
        i += 1;
    }
    i
}

proof fn lemma_chars_before_zero(s: Seq<char>, b: int)
    ensures
        b <= 0 ==> chars_before(s, b) == 0,
{
}

/// Whether byte `b` is a character boundary of `s`.
pub fn is_boundary(s: &str, b: usize) -> (r: bool)
    ensures
        r == at_boundary(s@, b as int),
{
    let cs = to_chars(s);
    let mut rest: usize = b;
    let mut i: usize = 0;
    assert(cs@.skip(0) == cs@);
    while i < cs.len() && rest > 0
        invariant
            i <= cs.len(),
            cs@ == s@,
            at_boundary(cs@, b as int) == at_boundary(cs@.skip(i as int), rest as int),
        decreases cs.len() - i,
    {
        let w = char_width(cs[i]);
        assert(cs@.skip(i as int).drop_first() == cs@.skip(i + 1));
        if rest < w {
            assert(!at_boundary(cs@.skip(i + 1), rest - w));
            return false;
        }
        rest -= w;
        i += 1;
    }
    rest == 0
}

} // verus!
