//! Character-level helpers shared by the identity model and the profile
//! parser: whitespace classification, string equality and prefix stripping,
//! stated over the character-sequence views of `&str`.

use vstd::prelude::*;
use vstd::string::StrSliceExecFns;

verus! {

/// The characters with the Unicode `White_Space` property, the separator set
/// used when an `ID_LIKE` value is tokenized.
pub open spec fn is_ws_char(c: char) -> bool {
    ||| c == '\u{0009}'
    ||| c == '\u{000A}'
    ||| c == '\u{000B}'
    ||| c == '\u{000C}'
    ||| c == '\u{000D}'
    ||| c == '\u{0020}'
    ||| c == '\u{0085}'
    ||| c == '\u{00A0}'
    ||| c == '\u{1680}'
    ||| c == '\u{2000}'
    ||| c == '\u{2001}'
    ||| c == '\u{2002}'
    ||| c == '\u{2003}'
    ||| c == '\u{2004}'
    ||| c == '\u{2005}'
    ||| c == '\u{2006}'
    ||| c == '\u{2007}'
    ||| c == '\u{2008}'
    ||| c == '\u{2009}'
    ||| c == '\u{200A}'
    ||| c == '\u{2028}'
    ||| c == '\u{2029}'
    ||| c == '\u{202F}'
    ||| c == '\u{205F}'
    ||| c == '\u{3000}'
}

/// Whitespace test on a single character, matching [`is_ws_char`].
pub fn is_ws(c: char) -> (r: bool)
    ensures
        r == is_ws_char(c),
{
    match c {
        '\u{0009}' | '\u{000A}' | '\u{000B}' | '\u{000C}' | '\u{000D}' | '\u{0020}'
        | '\u{0085}' | '\u{00A0}' | '\u{1680}' | '\u{2000}' | '\u{2001}' | '\u{2002}'
        | '\u{2003}' | '\u{2004}' | '\u{2005}' | '\u{2006}' | '\u{2007}' | '\u{2008}'
        | '\u{2009}' | '\u{200A}' | '\u{2028}' | '\u{2029}' | '\u{202F}' | '\u{205F}'
        | '\u{3000}' => true,
        _ => false,
    }
}

/// Character-wise string equality, decided over the views.
pub fn str_eq(a: &str, b: &str) -> (r: bool)
    ensures
        r == (a@ == b@),
{
    let alen = a.unicode_len();
    let blen = b.unicode_len();
    if alen != blen {
        return false;
    }
    let mut i: usize = 0;
    while i < alen
        invariant
            i <= alen,
            alen == a@.len(),
            alen == b@.len(),
            forall|j: int| 0 <= j < i ==> a@[j] == b@[j],
        decreases alen - i,
    {
        if a.get_char(i) != b.get_char(i) {
            return false;
        }
        i += 1;
    }
    proof {
        assert(a@ =~= b@);
    }
    true
}

/// If `pre`'s characters open `s`, the rest of `s` after them; otherwise
/// nothing.
pub fn strip_prefix_str<'a>(s: &'a str, pre: &str) -> (r: Option<&'a str>)
    ensures
        pre@.is_prefix_of(s@) ==> (r matches Some(v) && v@ == s@.skip(pre@.len() as int)),
        !pre@.is_prefix_of(s@) ==> r is None,
{
    let slen = s.unicode_len();
    let plen = pre.unicode_len();
    if plen > slen {
        proof {
            assert(!pre@.is_prefix_of(s@));
        }
        return None;
    }
    let mut i: usize = 0;
    while i < plen
        invariant
            i <= plen,
            plen == pre@.len(),
            slen == s@.len(),
            plen <= slen,
            forall|j: int| 0 <= j < i ==> s@[j] == pre@[j],
        decreases plen - i,
    {
        if s.get_char(i) != pre.get_char(i) {
            proof {
                assert(s@.subrange(0, plen as int)[i as int] != pre@[i as int]);
                assert(!pre@.is_prefix_of(s@));
            }
            return None;
        }
        i += 1;
    }
    let rest = s.substring_char(plen, slen);
    proof {
        assert(pre@ =~= s@.subrange(0, plen as int));
        assert(rest@ =~= s@.skip(plen as int));
    }
    Some(rest)
}

/// The lines of a text: the maximal stretches between line endings, where a
/// line ending is `'\n'` or the pair `"\r\n"` — a carriage return counts as
/// part of the ending only right before a `'\n'`, and stays in the line
/// anywhere else. A text of `n` line endings has `n + 1` lines, so a text
/// ending in `'\n'` ends with an empty line, which no key prefix can open.
pub open spec fn split_lines(s: Seq<char>) -> Seq<Seq<char>>
    decreases s.len(),
{
    if s.len() == 0 {
        seq![Seq::empty()]
    } else if s[0] == '\n' {
        seq![Seq::empty()] + split_lines(s.drop_first())
    } else if s[0] == '\r' && s.len() >= 2 && s[1] == '\n' {
        seq![Seq::empty()] + split_lines(s.skip(2))
    } else {
        let r = split_lines(s.drop_first());
        seq![seq![s[0]] + r[0]] + r.drop_first()
    }
}

/// Where the body of a line ends that runs from `i` to a newline at `j`:
/// just before a closing carriage return, at `j` otherwise.
pub open spec fn line_body_end(s: Seq<char>, i: int, j: int) -> int {
    if j > i && s[j - 1] == '\r' {
        j - 1
    } else {
        j
    }
}

/// What a forward scan sees: if `s[i..j)` holds no newline and `j` sits on a
/// newline or at the end, then the lines of `s[i..]` are the body of
/// `s[i..j)` followed by the lines after the newline. An unterminated final
/// line keeps a closing carriage return; a terminated one loses it to the
/// `"\r\n"` ending.
pub proof fn lemma_split_lines_scan(s: Seq<char>, i: int, j: int)
    requires
        0 <= i <= j <= s.len(),
        forall|k: int| i <= k < j ==> s[k] != '\n',
        j == s.len() || s[j] == '\n',
    ensures
        j == s.len() ==> split_lines(s.skip(i)) == seq![s.subrange(i, j)],
        j < s.len() ==> split_lines(s.skip(i)) == seq![s.subrange(i, line_body_end(s, i, j))]
            + split_lines(s.skip(j + 1)),
    decreases j - i,
{
    let t = s.skip(i);
    if i == j {
        if j == s.len() {
            assert(split_lines(t) =~~= seq![s.subrange(i, j)]);
        } else {
            assert(t[0] == '\n');
            assert(t.drop_first() =~= s.skip(j + 1));
            assert(split_lines(t) =~~= seq![s.subrange(i, j)] + split_lines(s.skip(j + 1)));
        }
    } else if i == j - 1 && s[i] == '\r' && j < s.len() {
        assert(t[0] == '\r');
        assert(t.len() >= 2 && t[1] == '\n');
        assert(t.skip(2) =~= s.skip(j + 1));
        assert(line_body_end(s, i, j) == i);
        assert(s.subrange(i, i) =~= Seq::<char>::empty());
        assert(split_lines(t) =~~= seq![s.subrange(i, i)] + split_lines(s.skip(j + 1)));
    } else {
        lemma_split_lines_scan(s, i + 1, j);
        assert(t[0] == s[i]);
        assert(t[0] != '\n');
        if t[0] == '\r' && t.len() >= 2 {
            assert(t[1] == s[i + 1]);
            assert(t[1] != '\n');
        }
        assert(t.drop_first() =~= s.skip(i + 1));
        let r = split_lines(s.skip(i + 1));
        if j == s.len() {
            assert(r == seq![s.subrange(i + 1, j)]);
            assert(seq![t[0]] + r[0] =~= s.subrange(i, j));
            assert(split_lines(t) =~~= seq![s.subrange(i, j)]);
        } else {
            let e = line_body_end(s, i + 1, j);
            assert(line_body_end(s, i, j) == e);
            assert(r == seq![s.subrange(i + 1, e)] + split_lines(s.skip(j + 1)));
            assert(r[0] == s.subrange(i + 1, e));
            assert(seq![t[0]] + r[0] =~= s.subrange(i, e));
            assert(r.drop_first() =~~= split_lines(s.skip(j + 1)));
            assert(split_lines(t) =~~= seq![s.subrange(i, e)] + split_lines(s.skip(j + 1)));
        }
    }
}

/// The whitespace-separated tokens of a text: its maximal stretches of
/// non-whitespace characters, in order. Whitespace produces no empty tokens.
pub open spec fn split_ws(s: Seq<char>) -> Seq<Seq<char>>
    decreases s.len(),
{
    if s.len() == 0 {
        Seq::empty()
    } else if is_ws_char(s[0]) {
        split_ws(s.drop_first())
    } else if s.len() == 1 || is_ws_char(s[1]) {
        seq![seq![s[0]]] + split_ws(s.drop_first())
    } else {
        let r = split_ws(s.drop_first());
        seq![seq![s[0]] + r[0]] + r.drop_first()
    }
}

/// Whitespace before position `j` contributes no token.
pub proof fn lemma_split_ws_skip_ws(s: Seq<char>, i: int, j: int)
    requires
        0 <= i <= j <= s.len(),
        forall|k: int| i <= k < j ==> is_ws_char(s[k]),
    ensures
        split_ws(s.skip(i)) == split_ws(s.skip(j)),
    decreases j - i,
{
    if i < j {
        assert(s.skip(i)[0] == s[i]);
        assert(s.skip(i).drop_first() =~= s.skip(i + 1));
        lemma_split_ws_skip_ws(s, i + 1, j);
    }
}

/// What a forward scan sees: if `s[i..j)` is a maximal non-whitespace
/// stretch, the tokens of `s[i..]` are `s[i..j)` followed by the tokens of
/// the rest.
pub proof fn lemma_split_ws_scan(s: Seq<char>, i: int, j: int)
    requires
        0 <= i < j <= s.len(),
        forall|k: int| i <= k < j ==> !is_ws_char(s[k]),
        j == s.len() || is_ws_char(s[j]),
    ensures
        split_ws(s.skip(i)) == seq![s.subrange(i, j)] + split_ws(s.skip(j)),
    decreases j - i,
{
    let t = s.skip(i);
    assert(t[0] == s[i]);
    assert(t.drop_first() =~= s.skip(i + 1));
    if i + 1 == j {
        if j < s.len() {
            assert(t[1] == s[j]);
        }
        assert(seq![t[0]] =~= s.subrange(i, j));
        lemma_split_ws_skip_ws(s, i + 1, j);
        assert(split_ws(t) =~~= seq![s.subrange(i, j)] + split_ws(s.skip(j)));
    } else {
        assert(t[1] == s[i + 1]);
        lemma_split_ws_scan(s, i + 1, j);
        let r = split_ws(s.skip(i + 1));
        assert(r == seq![s.subrange(i + 1, j)] + split_ws(s.skip(j)));
        assert(r[0] == s.subrange(i + 1, j));
        assert(s.subrange(i + 1, j).len() > 0);
        assert(seq![t[0]] + r[0] =~= s.subrange(i, j));
        assert(r.drop_first() =~~= split_ws(s.skip(j)));
        assert(split_ws(t) =~~= seq![s.subrange(i, j)] + split_ws(s.skip(j)));
    }
}

} // verus!
