//! Spoken commands.

use crate::chars;
use crate::laws::texts;
use crate::pattern;
use crate::words;
use crate::words::Class;
use vstd::prelude::*;
use vstd::string::*;

verus! {

/// A phrase as it is looked up: its words in lower case, a space between each two.
pub open spec fn said(phrase: Seq<char>) -> Seq<char> {
    chars::lower(words::join(words::words(phrase), " "@))
}

/// The length, the first and the third character of a phrase in lower case.
spec fn tag(s: Seq<char>) -> int {
    s.len() * 1_000_000 + (chars::lower_char(s[0]) as int) * 1000 + chars::lower_char(s[2]) as int
}

/// Which command has a tag.
spec fn place(t: int) -> int {
    if t == 13110119 {
        0
    } else if t == 14110120 {
        1
    } else if t == 8110119 {
        2
    } else if t == 9110120 {
        3
    } else if t == 7110119 {
        4
    } else if t == 10108110 {
        5
    } else if t == 13113101 {
        6
    } else if t == 16101099 {
        7
    } else if t == 17101099 {
        8
    } else if t == 9102108 {
        9
    } else if t == 10115109 {
        10
    } else if t == 9115109 {
        11
    } else if t == 5099108 {
        12
    } else if t == 5099109 {
        13
    } else if t == 8101108 {
        14
    } else if t == 11100116 {
        15
    } else if t == 7101032 {
        16
    } else if t == 16111101 {
        17
    } else if t == 17099111 {
        18
    } else if t == 12111101 {
        19
    } else if t == 13099111 {
        20
    } else if t == 10111101 {
        21
    } else if t == 11099111 {
        22
    } else if t == 5113111 {
        23
    } else if t == 7117113 {
        24
    } else if t == 15100103 {
        25
    } else if t == 18100103 {
        26
    } else if t == 11100103 {
        27
    } else if t == 7100103 {
        28
    } else if t == 12112114 {
        29
    } else if t == 11100108 {
        30
    } else if t == 7097032 {
        31
    } else if t == 9097112 {
        32
    } else if t == 8097116 {
        33
    } else if t == 7104115 {
        34
    } else if t == 10112117 {
        35
    } else if t == 10117100 {
        36
    } else if t == 9098099 {
        37
    } else if t == 13102114 {
        38
    } else if t == 6112114 {
        39
    } else if t == 5115097 {
        40
    } else if t == 6104112 {
        41
    } else if t == 4100115 {
        42
    } else if t == 7112114 {
        43
    } else {
        -1
    }
}

/// The phrases are in lower case, and no two have the same tag.
proof fn lemma_row(i: int)
    requires
        0 <= i < crate::format::commands().len(),
    ensures
        chars::lower(crate::format::commands()[i].0@) == crate::format::commands()[i].0@,
        crate::format::commands()[i].0@.len() >= 4,
        place(tag(crate::format::commands()[i].0@)) == i,
{
    let p = crate::format::commands()[i].0@;
    if i == 0 {
        reveal_strlit("new paragraph");
        assert(p == "new paragraph"@ && chars::lower(p) =~= p && tag(p) == 13110119);
    } else if i == 1 {
        reveal_strlit("next paragraph");
        assert(p == "next paragraph"@ && chars::lower(p) =~= p && tag(p) == 14110120);
    } else if i == 2 {
        reveal_strlit("new line");
        assert(p == "new line"@ && chars::lower(p) =~= p && tag(p) == 8110119);
    } else if i == 3 {
        reveal_strlit("next line");
        assert(p == "next line"@ && chars::lower(p) =~= p && tag(p) == 9110120);
    } else if i == 4 {
        reveal_strlit("newline");
        assert(p == "newline"@ && chars::lower(p) =~= p && tag(p) == 7110119);
    } else if i == 5 {
        reveal_strlit("line break");
        assert(p == "line break"@ && chars::lower(p) =~= p && tag(p) == 10108110);
    } else if i == 6 {
        reveal_strlit("question mark");
        assert(p == "question mark"@ && chars::lower(p) =~= p && tag(p) == 13113101);
    } else if i == 7 {
        reveal_strlit("exclamation mark");
        assert(p == "exclamation mark"@ && chars::lower(p) =~= p && tag(p) == 16101099);
    } else if i == 8 {
        reveal_strlit("exclamation point");
        assert(p == "exclamation point"@ && chars::lower(p) =~= p && tag(p) == 17101099);
    } else if i == 9 {
        reveal_strlit("full stop");
        assert(p == "full stop"@ && chars::lower(p) =~= p && tag(p) == 9102108);
    } else if i == 10 {
        reveal_strlit("semi colon");
        assert(p == "semi colon"@ && chars::lower(p) =~= p && tag(p) == 10115109);
    } else if i == 11 {
        reveal_strlit("semicolon");
        assert(p == "semicolon"@ && chars::lower(p) =~= p && tag(p) == 9115109);
    } else if i == 12 {
        reveal_strlit("colon");
        assert(p == "colon"@ && chars::lower(p) =~= p && tag(p) == 5099108);
    } else if i == 13 {
        reveal_strlit("comma");
        assert(p == "comma"@ && chars::lower(p) =~= p && tag(p) == 5099109);
    } else if i == 14 {
        reveal_strlit("ellipsis");
        assert(p == "ellipsis"@ && chars::lower(p) =~= p && tag(p) == 8101108);
    } else if i == 15 {
        reveal_strlit("dot dot dot");
        assert(p == "dot dot dot"@ && chars::lower(p) =~= p && tag(p) == 11100116);
    } else if i == 16 {
        reveal_strlit("em dash");
        assert(p == "em dash"@ && chars::lower(p) =~= p && tag(p) == 7101032);
    } else if i == 17 {
        reveal_strlit("open parenthesis");
        assert(p == "open parenthesis"@ && chars::lower(p) =~= p && tag(p) == 16111101);
    } else if i == 18 {
        reveal_strlit("close parenthesis");
        assert(p == "close parenthesis"@ && chars::lower(p) =~= p && tag(p) == 17099111);
    } else if i == 19 {
        reveal_strlit("open bracket");
        assert(p == "open bracket"@ && chars::lower(p) =~= p && tag(p) == 12111101);
    } else if i == 20 {
        reveal_strlit("close bracket");
        assert(p == "close bracket"@ && chars::lower(p) =~= p && tag(p) == 13099111);
    } else if i == 21 {
        reveal_strlit("open quote");
        assert(p == "open quote"@ && chars::lower(p) =~= p && tag(p) == 10111101);
    } else if i == 22 {
        reveal_strlit("close quote");
        assert(p == "close quote"@ && chars::lower(p) =~= p && tag(p) == 11099111);
    } else if i == 23 {
        reveal_strlit("quote");
        assert(p == "quote"@ && chars::lower(p) =~= p && tag(p) == 5113111);
    } else if i == 24 {
        reveal_strlit("unquote");
        assert(p == "unquote"@ && chars::lower(p) =~= p && tag(p) == 7117113);
    } else if i == 25 {
        reveal_strlit("degrees celsius");
        assert(p == "degrees celsius"@ && chars::lower(p) =~= p && tag(p) == 15100103);
    } else if i == 26 {
        reveal_strlit("degrees fahrenheit");
        assert(p == "degrees fahrenheit"@ && chars::lower(p) =~= p && tag(p) == 18100103);
    } else if i == 27 {
        reveal_strlit("degree sign");
        assert(p == "degree sign"@ && chars::lower(p) =~= p && tag(p) == 11100103);
    } else if i == 28 {
        reveal_strlit("degrees");
        assert(p == "degrees"@ && chars::lower(p) =~= p && tag(p) == 7100103);
    } else if i == 29 {
        reveal_strlit("percent sign");
        assert(p == "percent sign"@ && chars::lower(p) =~= p && tag(p) == 12112114);
    } else if i == 30 {
        reveal_strlit("dollar sign");
        assert(p == "dollar sign"@ && chars::lower(p) =~= p && tag(p) == 11100108);
    } else if i == 31 {
        reveal_strlit("at sign");
        assert(p == "at sign"@ && chars::lower(p) =~= p && tag(p) == 7097032);
    } else if i == 32 {
        reveal_strlit("ampersand");
        assert(p == "ampersand"@ && chars::lower(p) =~= p && tag(p) == 9097112);
    } else if i == 33 {
        reveal_strlit("asterisk");
        assert(p == "asterisk"@ && chars::lower(p) =~= p && tag(p) == 8097116);
    } else if i == 34 {
        reveal_strlit("hashtag");
        assert(p == "hashtag"@ && chars::lower(p) =~= p && tag(p) == 7104115);
    } else if i == 35 {
        reveal_strlit("pound sign");
        assert(p == "pound sign"@ && chars::lower(p) =~= p && tag(p) == 10112117);
    } else if i == 36 {
        reveal_strlit("underscore");
        assert(p == "underscore"@ && chars::lower(p) =~= p && tag(p) == 10117100);
    } else if i == 37 {
        reveal_strlit("backslash");
        assert(p == "backslash"@ && chars::lower(p) =~= p && tag(p) == 9098099);
    } else if i == 38 {
        reveal_strlit("forward slash");
        assert(p == "forward slash"@ && chars::lower(p) =~= p && tag(p) == 13102114);
    } else if i == 39 {
        reveal_strlit("period");
        assert(p == "period"@ && chars::lower(p) =~= p && tag(p) == 6112114);
    } else if i == 40 {
        reveal_strlit("slash");
        assert(p == "slash"@ && chars::lower(p) =~= p && tag(p) == 5115097);
    } else if i == 41 {
        reveal_strlit("hyphen");
        assert(p == "hyphen"@ && chars::lower(p) =~= p && tag(p) == 6104112);
    } else if i == 42 {
        reveal_strlit("dash");
        assert(p == "dash"@ && chars::lower(p) =~= p && tag(p) == 4100115);
    } else if i == 43 {
        reveal_strlit("percent");
        assert(p == "percent"@ && chars::lower(p) =~= p && tag(p) == 7112114);
    }
}

proof fn lemma_same_tag(a: Seq<char>, b: Seq<char>)
    requires
        chars::same_ignoring_case(a, b),
        a.len() >= 3,
    ensures
        tag(a) == tag(b),
{
    assert(chars::lower(a).len() == chars::lower(b).len());
    assert(chars::lower(a)[0] == chars::lower(b)[0]);
    assert(chars::lower(a)[2] == chars::lower(b)[2]);
}

/// A phrase of the table is found at its own place.
proof fn lemma_lookup(key: Seq<char>, j: int, i: int, otherwise: Seq<char>)
    requires
        0 <= j <= i < crate::format::commands().len(),
        chars::lower(key) == crate::format::commands()[i].0@,
    ensures
        crate::format::command_output(key, j, otherwise) == crate::format::commands()[i].1@,
    decreases i - j,
{
    lemma_row(i);
    lemma_row(j);
    assert(chars::same_ignoring_case(crate::format::commands()[i].0@, key));
    lemma_same_tag(crate::format::commands()[i].0@, key);
    if j < i {
        if chars::same_ignoring_case(crate::format::commands()[j].0@, key) {
            lemma_same_tag(crate::format::commands()[j].0@, key);
        }
        lemma_lookup(key, j + 1, i, otherwise);
    }
}

/// What each spoken phrase writes, in any case and with any white space between
/// its words.
pub proof fn lemma_spoken(phrase: Seq<char>)
    ensures
        said(phrase) == "new paragraph"@ ==> crate::format::spoken_output(phrase) == "\n\n"@,
        said(phrase) == "next paragraph"@ ==> crate::format::spoken_output(phrase) == "\n\n"@,
        said(phrase) == "new line"@ ==> crate::format::spoken_output(phrase) == "\n"@,
        said(phrase) == "next line"@ ==> crate::format::spoken_output(phrase) == "\n"@,
        said(phrase) == "newline"@ ==> crate::format::spoken_output(phrase) == "\n"@,
        said(phrase) == "line break"@ ==> crate::format::spoken_output(phrase) == "\n"@,
        said(phrase) == "question mark"@ ==> crate::format::spoken_output(phrase) == "?"@,
        said(phrase) == "exclamation mark"@ ==> crate::format::spoken_output(phrase) == "!"@,
        said(phrase) == "exclamation point"@ ==> crate::format::spoken_output(phrase) == "!"@,
        said(phrase) == "full stop"@ ==> crate::format::spoken_output(phrase) == "."@,
        said(phrase) == "semi colon"@ ==> crate::format::spoken_output(phrase) == ";"@,
        said(phrase) == "semicolon"@ ==> crate::format::spoken_output(phrase) == ";"@,
        said(phrase) == "colon"@ ==> crate::format::spoken_output(phrase) == ":"@,
        said(phrase) == "comma"@ ==> crate::format::spoken_output(phrase) == ","@,
        said(phrase) == "ellipsis"@ ==> crate::format::spoken_output(phrase) == "…"@,
        said(phrase) == "dot dot dot"@ ==> crate::format::spoken_output(phrase) == "…"@,
        said(phrase) == "em dash"@ ==> crate::format::spoken_output(phrase) == "—"@,
        said(phrase) == "open parenthesis"@ ==> crate::format::spoken_output(phrase) == "("@,
        said(phrase) == "close parenthesis"@ ==> crate::format::spoken_output(phrase) == ")"@,
        said(phrase) == "open bracket"@ ==> crate::format::spoken_output(phrase) == "["@,
        said(phrase) == "close bracket"@ ==> crate::format::spoken_output(phrase) == "]"@,
        said(phrase) == "open quote"@ ==> crate::format::spoken_output(phrase) == "\""@,
        said(phrase) == "close quote"@ ==> crate::format::spoken_output(phrase) == "\""@,
        said(phrase) == "quote"@ ==> crate::format::spoken_output(phrase) == "\""@,
        said(phrase) == "unquote"@ ==> crate::format::spoken_output(phrase) == "\""@,
        said(phrase) == "degrees celsius"@ ==> crate::format::spoken_output(phrase) == "°C"@,
        said(phrase) == "degrees fahrenheit"@ ==> crate::format::spoken_output(phrase) == "°F"@,
        said(phrase) == "degree sign"@ ==> crate::format::spoken_output(phrase) == "°"@,
        said(phrase) == "degrees"@ ==> crate::format::spoken_output(phrase) == "°"@,
        said(phrase) == "percent sign"@ ==> crate::format::spoken_output(phrase) == "%"@,
        said(phrase) == "dollar sign"@ ==> crate::format::spoken_output(phrase) == "$"@,
        said(phrase) == "at sign"@ ==> crate::format::spoken_output(phrase) == "@"@,
        said(phrase) == "ampersand"@ ==> crate::format::spoken_output(phrase) == "&"@,
        said(phrase) == "asterisk"@ ==> crate::format::spoken_output(phrase) == "*"@,
        said(phrase) == "hashtag"@ ==> crate::format::spoken_output(phrase) == "#"@,
        said(phrase) == "pound sign"@ ==> crate::format::spoken_output(phrase) == "#"@,
        said(phrase) == "underscore"@ ==> crate::format::spoken_output(phrase) == "_"@,
        said(phrase) == "backslash"@ ==> crate::format::spoken_output(phrase) == "\\"@,
        said(phrase) == "forward slash"@ ==> crate::format::spoken_output(phrase) == "/"@,
        said(phrase) == "period"@ ==> crate::format::spoken_output(phrase) == "."@,
        said(phrase) == "slash"@ ==> crate::format::spoken_output(phrase) == "/"@,
        said(phrase) == "hyphen"@ ==> crate::format::spoken_output(phrase) == "-"@,
        said(phrase) == "dash"@ ==> crate::format::spoken_output(phrase) == "-"@,
        said(phrase) == "percent"@ ==> crate::format::spoken_output(phrase) == "%"@,
{
    let key = words::join(words::words(phrase), " "@);
    let l = said(phrase);
    if l == "new paragraph"@ {
        lemma_lookup(key, 0, 0, phrase);
    }
    if l == "next paragraph"@ {
        lemma_lookup(key, 0, 1, phrase);
    }
    if l == "new line"@ {
        lemma_lookup(key, 0, 2, phrase);
    }
    if l == "next line"@ {
        lemma_lookup(key, 0, 3, phrase);
    }
    if l == "newline"@ {
        lemma_lookup(key, 0, 4, phrase);
    }
    if l == "line break"@ {
        lemma_lookup(key, 0, 5, phrase);
    }
    if l == "question mark"@ {
        lemma_lookup(key, 0, 6, phrase);
    }
    if l == "exclamation mark"@ {
        lemma_lookup(key, 0, 7, phrase);
    }
    if l == "exclamation point"@ {
        lemma_lookup(key, 0, 8, phrase);
    }
    if l == "full stop"@ {
        lemma_lookup(key, 0, 9, phrase);
    }
    if l == "semi colon"@ {
        lemma_lookup(key, 0, 10, phrase);
    }
    if l == "semicolon"@ {
        lemma_lookup(key, 0, 11, phrase);
    }
    if l == "colon"@ {
        lemma_lookup(key, 0, 12, phrase);
    }
    if l == "comma"@ {
        lemma_lookup(key, 0, 13, phrase);
    }
    if l == "ellipsis"@ {
        lemma_lookup(key, 0, 14, phrase);
    }
    if l == "dot dot dot"@ {
        lemma_lookup(key, 0, 15, phrase);
    }
    if l == "em dash"@ {
        lemma_lookup(key, 0, 16, phrase);
    }
    if l == "open parenthesis"@ {
        lemma_lookup(key, 0, 17, phrase);
    }
    if l == "close parenthesis"@ {
        lemma_lookup(key, 0, 18, phrase);
    }
    if l == "open bracket"@ {
        lemma_lookup(key, 0, 19, phrase);
    }
    if l == "close bracket"@ {
        lemma_lookup(key, 0, 20, phrase);
    }
    if l == "open quote"@ {
        lemma_lookup(key, 0, 21, phrase);
    }
    if l == "close quote"@ {
        lemma_lookup(key, 0, 22, phrase);
    }
    if l == "quote"@ {
        lemma_lookup(key, 0, 23, phrase);
    }
    if l == "unquote"@ {
        lemma_lookup(key, 0, 24, phrase);
    }
    if l == "degrees celsius"@ {
        lemma_lookup(key, 0, 25, phrase);
    }
    if l == "degrees fahrenheit"@ {
        lemma_lookup(key, 0, 26, phrase);
    }
    if l == "degree sign"@ {
        lemma_lookup(key, 0, 27, phrase);
    }
    if l == "degrees"@ {
        lemma_lookup(key, 0, 28, phrase);
    }
    if l == "percent sign"@ {
        lemma_lookup(key, 0, 29, phrase);
    }
    if l == "dollar sign"@ {
        lemma_lookup(key, 0, 30, phrase);
    }
    if l == "at sign"@ {
        lemma_lookup(key, 0, 31, phrase);
    }
    if l == "ampersand"@ {
        lemma_lookup(key, 0, 32, phrase);
    }
    if l == "asterisk"@ {
        lemma_lookup(key, 0, 33, phrase);
    }
    if l == "hashtag"@ {
        lemma_lookup(key, 0, 34, phrase);
    }
    if l == "pound sign"@ {
        lemma_lookup(key, 0, 35, phrase);
    }
    if l == "underscore"@ {
        lemma_lookup(key, 0, 36, phrase);
    }
    if l == "backslash"@ {
        lemma_lookup(key, 0, 37, phrase);
    }
    if l == "forward slash"@ {
        lemma_lookup(key, 0, 38, phrase);
    }
    if l == "period"@ {
        lemma_lookup(key, 0, 39, phrase);
    }
    if l == "slash"@ {
        lemma_lookup(key, 0, 40, phrase);
    }
    if l == "hyphen"@ {
        lemma_lookup(key, 0, 41, phrase);
    }
    if l == "dash"@ {
        lemma_lookup(key, 0, 42, phrase);
    }
    if l == "percent"@ {
        lemma_lookup(key, 0, 43, phrase);
    }
}

/// A phrase that is no command.
pub open spec fn is_no_command(l: Seq<char>) -> bool {
    &&& l != "new paragraph"@
    &&& l != "next paragraph"@
    &&& l != "new line"@
    &&& l != "next line"@
    &&& l != "newline"@
    &&& l != "line break"@
    &&& l != "question mark"@
    &&& l != "exclamation mark"@
    &&& l != "exclamation point"@
    &&& l != "full stop"@
    &&& l != "semi colon"@
    &&& l != "semicolon"@
    &&& l != "colon"@
    &&& l != "comma"@
    &&& l != "ellipsis"@
    &&& l != "dot dot dot"@
    &&& l != "em dash"@
    &&& l != "open parenthesis"@
    &&& l != "close parenthesis"@
    &&& l != "open bracket"@
    &&& l != "close bracket"@
    &&& l != "open quote"@
    &&& l != "close quote"@
    &&& l != "quote"@
    &&& l != "unquote"@
    &&& l != "degrees celsius"@
    &&& l != "degrees fahrenheit"@
    &&& l != "degree sign"@
    &&& l != "degrees"@
    &&& l != "percent sign"@
    &&& l != "dollar sign"@
    &&& l != "at sign"@
    &&& l != "ampersand"@
    &&& l != "asterisk"@
    &&& l != "hashtag"@
    &&& l != "pound sign"@
    &&& l != "underscore"@
    &&& l != "backslash"@
    &&& l != "forward slash"@
    &&& l != "period"@
    &&& l != "slash"@
    &&& l != "hyphen"@
    &&& l != "dash"@
    &&& l != "percent"@
}

proof fn lemma_not_found(key: Seq<char>, j: int, otherwise: Seq<char>)
    requires
        0 <= j <= crate::format::commands().len(),
        is_no_command(chars::lower(key)),
    ensures
        crate::format::command_output(key, j, otherwise) == otherwise,
    decreases crate::format::commands().len() - j,
{
    if j < crate::format::commands().len() {
        lemma_row(j);
        let p = crate::format::commands()[j].0@;
        assert(p != chars::lower(key)) by {
            lemma_is_listed(j);
        }
        lemma_not_found(key, j + 1, otherwise);
    }
}

proof fn lemma_is_listed(j: int)
    requires
        0 <= j < crate::format::commands().len(),
    ensures
        !is_no_command(crate::format::commands()[j].0@),
{
    let p = crate::format::commands()[j].0@;
    if j == 0 {
        assert(p == "new paragraph"@);
    } else if j == 1 {
        assert(p == "next paragraph"@);
    } else if j == 2 {
        assert(p == "new line"@);
    } else if j == 3 {
        assert(p == "next line"@);
    } else if j == 4 {
        assert(p == "newline"@);
    } else if j == 5 {
        assert(p == "line break"@);
    } else if j == 6 {
        assert(p == "question mark"@);
    } else if j == 7 {
        assert(p == "exclamation mark"@);
    } else if j == 8 {
        assert(p == "exclamation point"@);
    } else if j == 9 {
        assert(p == "full stop"@);
    } else if j == 10 {
        assert(p == "semi colon"@);
    } else if j == 11 {
        assert(p == "semicolon"@);
    } else if j == 12 {
        assert(p == "colon"@);
    } else if j == 13 {
        assert(p == "comma"@);
    } else if j == 14 {
        assert(p == "ellipsis"@);
    } else if j == 15 {
        assert(p == "dot dot dot"@);
    } else if j == 16 {
        assert(p == "em dash"@);
    } else if j == 17 {
        assert(p == "open parenthesis"@);
    } else if j == 18 {
        assert(p == "close parenthesis"@);
    } else if j == 19 {
        assert(p == "open bracket"@);
    } else if j == 20 {
        assert(p == "close bracket"@);
    } else if j == 21 {
        assert(p == "open quote"@);
    } else if j == 22 {
        assert(p == "close quote"@);
    } else if j == 23 {
        assert(p == "quote"@);
    } else if j == 24 {
        assert(p == "unquote"@);
    } else if j == 25 {
        assert(p == "degrees celsius"@);
    } else if j == 26 {
        assert(p == "degrees fahrenheit"@);
    } else if j == 27 {
        assert(p == "degree sign"@);
    } else if j == 28 {
        assert(p == "degrees"@);
    } else if j == 29 {
        assert(p == "percent sign"@);
    } else if j == 30 {
        assert(p == "dollar sign"@);
    } else if j == 31 {
        assert(p == "at sign"@);
    } else if j == 32 {
        assert(p == "ampersand"@);
    } else if j == 33 {
        assert(p == "asterisk"@);
    } else if j == 34 {
        assert(p == "hashtag"@);
    } else if j == 35 {
        assert(p == "pound sign"@);
    } else if j == 36 {
        assert(p == "underscore"@);
    } else if j == 37 {
        assert(p == "backslash"@);
    } else if j == 38 {
        assert(p == "forward slash"@);
    } else if j == 39 {
        assert(p == "period"@);
    } else if j == 40 {
        assert(p == "slash"@);
    } else if j == 41 {
        assert(p == "hyphen"@);
    } else if j == 42 {
        assert(p == "dash"@);
    } else if j == 43 {
        assert(p == "percent"@);
    }
}

/// Any other phrase stays as it was said.
pub proof fn lemma_other_phrases_stay(phrase: Seq<char>)
    requires
        is_no_command(said(phrase)),
    ensures
        crate::format::spoken_output(phrase) == phrase,
{
    lemma_not_found(words::join(words::words(phrase), " "@), 0, phrase);
}

/// A mark that takes no space before it.
pub open spec fn closes(s: Seq<char>) -> bool {
    s.len() == 1 && (s[0] == '.' || s[0] == ',' || s[0] == '!' || s[0] == '?' || s[0] == ';' || s[0]
        == ':' || s[0] == '…' || s[0] == ')' || s[0] == ']' || s[0] == '"')
}

proof fn lemma_closing(s: Seq<char>)
    ensures
        crate::format::is_closing(s) == closes(s),
{
    reveal_strlit(".");
    reveal_strlit(",");
    reveal_strlit("!");
    reveal_strlit("?");
    reveal_strlit(";");
    reveal_strlit(":");
    reveal_strlit("…");
    reveal_strlit(")");
    reveal_strlit("]");
    reveal_strlit("\"");
    if closes(s) {
        assert(s =~= seq![s[0]]);
        assert("."@ =~= seq!['.'] && ","@ =~= seq![','] && "!"@ =~= seq!['!'] && "?"@ =~= seq!['?']
            && ";"@ =~= seq![';'] && ":"@ =~= seq![':'] && "…"@ =~= seq!['…'] && ")"@ =~= seq![')']
            && "]"@ =~= seq![']'] && "\""@ =~= seq!['"']);
    }
}

/// A spoken phrase is written out where it stands: what comes before it is kept, but
/// for the white space before a mark that closes, and so is what comes behind it.
pub proof fn lemma_phrase_is_written(
    before: Seq<char>,
    white: Seq<char>,
    phrase: Seq<char>,
    behind: Seq<char>,
    from: usize,
    to: usize,
)
    requires
        before.len() > 0 ==> !chars::is_white(before.last()),
        texts::all_in(white, Class::White),
        from == before.len() + white.len(),
        to == from + phrase.len(),
    ensures
        crate::format::spoken(before + white + phrase + behind, seq![(from, to)]) == before + (
        if closes(crate::format::spoken_output(phrase)) {
            Seq::empty()
        } else {
            white
        }) + crate::format::spoken_output(phrase) + behind,
{
    let text = before + white + phrase + behind;
    let one = seq![(from, to)];
    let out = crate::format::spoken_output(phrase);
    reveal_with_fuel(crate::format::spoken_upto, 2);
    lemma_closing(out);
    assert(pattern::gap(text, one, 0) =~= before + white);
    assert(pattern::gap(text, one, 1) =~= behind);
    assert(pattern::matched(text, one, 0) =~= phrase);
    assert(Seq::<char>::empty() + (before + white) =~= before + white);
    texts::lemma_end_trimmed(before, white, Class::White);
    assert(crate::format::spoken(text, one) =~= before + (if closes(out) {
        Seq::empty()
    } else {
        white
    }) + out + behind);
}

/// Phrases are written out one after the other: the last one stands behind what the
/// ones before it made of the text before it, and the rest of the text is kept.
pub proof fn lemma_last_phrase(text: Seq<char>, spans: Seq<(usize, usize)>)
    requires
        pattern::ordered(text, spans),
        spans.len() > 0,
    ensures
        ({
            let (from, to) = spans.last();
            let out = crate::format::spoken_output(text.subrange(from as int, to as int));
            let head = crate::format::spoken(text.take(from as int), spans.drop_last());
            crate::format::spoken(text, spans) == (if closes(out) {
                words::without_end(head, Class::White)
            } else {
                head
            }) + out + text.skip(to as int)
        }),
{
    let (from, to) = spans.last();
    let n = spans.len() as int;
    let head = text.take(from as int);
    let rest = spans.drop_last();
    assert(spans[n - 1] == spans.last());
    lemma_phrases_agree(text, head, spans, rest, n - 1);
    if n > 1 {
        assert(spans[n - 2].1 <= spans[n - 1].0);
        assert(rest[n - 2] == spans[n - 2]);
    }
    assert(pattern::gap(text, spans, n - 1) =~= pattern::gap(head, rest, n - 1));
    assert(pattern::gap(text, spans, n) =~= text.skip(to as int));
    lemma_closing(crate::format::spoken_output(text.subrange(from as int, to as int)));
}

proof fn lemma_phrases_agree(
    text: Seq<char>,
    head: Seq<char>,
    spans: Seq<(usize, usize)>,
    rest: Seq<(usize, usize)>,
    n: int,
)
    requires
        0 <= n < spans.len(),
        pattern::ordered(text, spans),
        head == text.take(spans.last().0 as int),
        rest == spans.drop_last(),
    ensures
        crate::format::spoken_upto(text, spans, n) == crate::format::spoken_upto(head, rest, n),
    decreases n,
{
    if n > 0 {
        lemma_phrases_agree(text, head, spans, rest, n - 1);
        assert(rest[n - 1] == spans[n - 1]);
        assert(spans[n - 1].1 <= spans[spans.len() - 1].0);
        if n > 1 {
            assert(rest[n - 2] == spans[n - 2]);
            assert(spans[n - 2].1 <= spans[n - 1].0);
        }
        assert(pattern::gap(text, spans, n - 1) =~= pattern::gap(head, rest, n - 1));
        assert(pattern::matched(text, spans, n - 1) =~= pattern::matched(head, rest, n - 1));
    }
}

/// Without a phrase nothing is written.
pub proof fn lemma_nothing_spoken(text: Seq<char>)
    ensures
        crate::format::spoken(text, Seq::empty()) == text,
        pattern::matches(crate::format::command_pattern(), text).len() == 0
            ==> crate::format::with_commands(text) == crate::format::collapsed(text),
{
    assert(crate::format::spoken(text, Seq::empty()) =~= text);
    if pattern::matches(crate::format::command_pattern(), text).len() == 0 {
        assert(pattern::matches(crate::format::command_pattern(), text) =~= Seq::empty());
    }
}

/// A command is searched for in any case and as a whole phrase: a word boundary
/// stands before and behind the alternatives, and each phrase of the table is one of
/// them.
pub proof fn lemma_command_pattern()
    ensures
        ({
            let p = crate::format::command_pattern();
            let n = p.len() as int;
            &&& n >= 12
            &&& p.take(9) == seq!['(', '?', 'i', ')', '\\', 'b', '(', '?', ':']
            &&& p.skip(n - 3) == seq![')', '\\', 'b']
            &&& p.subrange(9, n - 3) == words::join(
                Seq::new(
                    crate::format::commands().len(),
                    |i: int| crate::format::phrase_pattern(crate::format::commands()[i].0@),
                ),
                seq!['|'],
            )
        }),
{
    reveal_strlit("(?i)\\b(?:");
    reveal_strlit(")\\b");
    reveal_strlit("|");
    assert("|"@ =~= seq!['|']);
    let p = crate::format::command_pattern();
    let n = p.len() as int;
    let alts = Seq::new(
        crate::format::commands().len(),
        |i: int| crate::format::phrase_pattern(crate::format::commands()[i].0@),
    );
    assert(alts =~= crate::format::command_alternatives());
    let body = words::join(alts, "|"@);
    assert(p =~= "(?i)\\b(?:"@ + body + ")\\b"@);
    assert(p.take(9) =~= seq!['(', '?', 'i', ')', '\\', 'b', '(', '?', ':']);
    assert(p.skip(n - 3) =~= seq![')', '\\', 'b']);
    assert(p.subrange(9, n - 3) =~= body);
}

/// The pattern of a phrase, character by character: a space matches any run of
/// white space, a character with a meaning in patterns stands behind a backslash, and
/// any other character stands for itself.
pub proof fn lemma_phrase_pattern(s: Seq<char>, c: char)
    ensures
        crate::format::phrase_pattern(s.push(c)) == crate::format::phrase_pattern(s) + (if c
            == ' ' {
            seq!['\\', 's', '+']
        } else if texts::has_meaning(c) {
            seq!['\\', c]
        } else {
            seq![c]
        }),
        crate::format::phrase_pattern(Seq::empty()).len() == 0,
{
    texts::lemma_literal_pattern(s, c);
}

/// White space goes behind an opening mark, before a closing mark and around a
/// line break.
pub proof fn lemma_collapse(text: Seq<char>)
    ensures
        ({
            let a = pattern::replaced("([\\(\\[\"])\\s+"@, text, "$1"@);
            let b = pattern::replaced("\\s+([,.;:!?…\\)\\]\"])"@, a, "$1"@);
            let breaks = pattern::matches("[^\\S\\n]*\\n[^\\S\\n]*"@, b);
            &&& crate::format::collapsed(text) == pattern::with_each_replaced(b, breaks, seq!['\n'])
            &&& breaks.len() == 0 ==> crate::format::collapsed(text) == b
        }),
{
    reveal_strlit("([\\(\\[\"])\\s+");
    reveal_strlit(r#"([\(\["])\s+"#);
    reveal_strlit("\\s+([,.;:!?…\\)\\]\"])");
    reveal_strlit(r#"\s+([,.;:!?…\)\]"])"#);
    reveal_strlit("[^\\S\\n]*\\n[^\\S\\n]*");
    reveal_strlit(r"[^\S\n]*\n[^\S\n]*");
    reveal_strlit("\n");
    assert("\n"@ =~= seq!['\n']);
    assert(crate::format::AFTER_OPEN@ =~= "([\\(\\[\"])\\s+"@);
    assert(crate::format::BEFORE_CLOSE@ =~= "\\s+([,.;:!?…\\)\\]\"])"@);
    assert(crate::format::AROUND_BREAK@ =~= "[^\\S\\n]*\\n[^\\S\\n]*"@);
    let a = pattern::replaced(crate::format::AFTER_OPEN@, text, "$1"@);
    let b = pattern::replaced(crate::format::BEFORE_CLOSE@, a, "$1"@);
    let breaks = pattern::matches(crate::format::AROUND_BREAK@, b);
    if breaks.len() == 0 {
        assert(breaks =~= Seq::empty());
        pattern::lemma_nothing_replaced(b, "\n"@);
    }
}

} // verus!
