//! The profile layer: parsing an `os-release` style text into a
//! [`Distro`] profile, and the similarity queries layered on it.

use vstd::prelude::*;

use crate::identity::{spec_from_name, spec_similar, DistroId, IdView};
use crate::text::{
    is_ws, is_ws_char, lemma_split_lines_scan, lemma_split_ws_scan, lemma_split_ws_skip_ws,
    line_body_end, split_lines, split_ws, strip_prefix_str,
};
use vstd::string::StrSliceExecFns;

verus! {

/// The raw field values a scan of the file has captured so far: the text
/// after `ID=`, after `NAME=`, and after `ID_LIKE=`, each from the last line
/// that carried the key.
pub ghost struct RawFields {
    pub id: Option<Seq<char>>,
    pub name: Option<Seq<char>>,
    pub like: Option<Seq<char>>,
}

/// The value a line contributes for a key: the rest of the line after the
/// key prefix, or nothing when the line does not open with the key.
pub open spec fn key_value(l: Seq<char>, key: Seq<char>) -> Option<Seq<char>> {
    if key.is_prefix_of(l) {
        Some(l.skip(key.len() as int))
    } else {
        None
    }
}

/// The captured fields after reading all lines in order, a later line
/// overwriting an earlier one that carried the same key.
pub open spec fn scan_fields(lines: Seq<Seq<char>>) -> RawFields
    decreases lines.len(),
{
    if lines.len() == 0 {
        RawFields { id: None, name: None, like: None }
    } else {
        let st = scan_fields(lines.drop_last());
        let l = lines.last();
        let id_v = key_value(l, "ID="@);
        let nm_v = key_value(l, "NAME="@);
        let lk_v = key_value(l, "ID_LIKE="@);
        RawFields {
            id: if id_v is Some {
                id_v
            } else {
                st.id
            },
            name: if nm_v is Some {
                nm_v
            } else {
                st.name
            },
            like: if lk_v is Some {
                lk_v
            } else {
                st.like
            },
        }
    }
}

/// The set of identities named by a sequence of raw tokens.
pub open spec fn ids_of(tokens: Seq<Seq<char>>) -> Set<IdView>
    decreases tokens.len(),
{
    if tokens.len() == 0 {
        Set::empty()
    } else {
        ids_of(tokens.drop_last()).insert(spec_from_name(tokens.last()))
    }
}

/// The set of identity views occurring in a sequence of identities.
pub open spec fn id_set(s: Seq<DistroId>) -> Set<IdView> {
    Set::new(|v: IdView| exists|i: int| 0 <= i < s.len() && s[i]@ == v)
}

/// No two entries stand for the same identity.
pub open spec fn distinct_views(s: Seq<DistroId>) -> bool {
    forall|i: int, j: int| 0 <= i < j < s.len() ==> s[i]@ != s[j]@
}

/// The mathematical model of a [`Distro`] profile.
pub ghost struct DistroView {
    pub name: Seq<char>,
    pub id: IdView,
    pub similar_ids: Set<IdView>,
}

/// What parsing a release text yields: a profile exactly when the text
/// carries both an `ID=` line and a `NAME=` line, with the declared-similar
/// set read from the last `ID_LIKE=` line, empty when there is none.
pub open spec fn spec_parse(s: Seq<char>) -> Option<DistroView> {
    let st = scan_fields(split_lines(s));
    match (st.id, st.name) {
        (Some(idtok), Some(nm)) => Some(
            DistroView {
                name: nm,
                id: spec_from_name(idtok),
                similar_ids: match st.like {
                    Some(lk) => ids_of(split_ws(lk)),
                    None => Set::empty(),
                },
            },
        ),
        _ => None,
    }
}

/// A distribution profile: the display name, the identity, and the set of
/// identities the file itself declares as similar.
#[derive(Clone, Debug)]
pub struct Distro {
    name: String,
    id: DistroId,
    similar_ids: Vec<DistroId>,
}

impl View for Distro {
    type V = DistroView;

    closed spec fn view(&self) -> DistroView {
        DistroView { name: self.name@, id: self.id@, similar_ids: id_set(self.similar_ids@) }
    }
}

impl Distro {
    /// The declared-similar entries carry no duplicate identity.
    pub closed spec fn wf(&self) -> bool {
        distinct_views(self.similar_ids@)
    }

    /// The display name, verbatim from the `NAME=` line, quotes and all.
    pub fn name(&self) -> (r: &str)
        ensures
            r@ == self@.name,
    {
        self.name.as_str()
    }

    /// The identity, from the `ID=` line.
    pub fn id(&self) -> (r: &DistroId)
        ensures
            r@ == self@.id,
    {
        &self.id
    }

    /// The identities the file's `ID_LIKE=` line declares as similar, one
    /// entry per distinct identity, empty when the line was absent.
    pub fn similar_ids(&self) -> (r: &Vec<DistroId>)
        ensures
            id_set(r@) == self@.similar_ids,
            self.wf() ==> distinct_views(r@),
    {
        &self.similar_ids
    }

    /// Whether `other` is similar to this distribution: declared so by the
    /// file, or in the identity's own curated family. Either source alone
    /// suffices.
    pub fn is_similar(&self, other: &DistroId) -> (r: bool)
        ensures
            r == (self@.similar_ids.contains(other@) || spec_similar(self@.id).contains(other@)),
    {
        if contains_id(&self.similar_ids, other) {
            true
        } else {
            self.id.is_similar(other)
        }
    }
}

/// Whether some entry of `v` stands for the same identity as `x`.
fn contains_id(v: &Vec<DistroId>, x: &DistroId) -> (r: bool)
    ensures
        r == id_set(v@).contains(x@),
{
    let mut i: usize = 0;
    while i < v.len()
        invariant
            i <= v@.len(),
            forall|j: int| 0 <= j < i ==> v@[j]@ != x@,
        decreases v@.len() - i,
    {
        if *x == v[i] {
            return true;
        }
        i += 1;
    }
    false
}

proof fn lemma_id_set_push(s: Seq<DistroId>, d: DistroId)
    ensures
        id_set(s.push(d)) == id_set(s).insert(d@),
{
    assert forall|v: IdView| id_set(s.push(d)).contains(v) implies id_set(s).insert(
        d@,
    ).contains(v) by {
        let i = choose|i: int| 0 <= i < s.push(d).len() && s.push(d)[i]@ == v;
        if i < s.len() {
            assert(s[i]@ == v);
        } else {
            assert(v == d@);
        }
    }
    assert forall|v: IdView| id_set(s).insert(d@).contains(v) implies id_set(
        s.push(d),
    ).contains(v) by {
        if v == d@ {
            assert(s.push(d)[s.len() as int]@ == v);
        } else {
            let i = choose|i: int| 0 <= i < s.len() && s[i]@ == v;
            assert(s.push(d)[i]@ == v);
        }
    }
    assert(id_set(s.push(d)) =~= id_set(s).insert(d@));
}

/// Build the declared-similar entries from the raw value of an `ID_LIKE=`
/// line: one identity per whitespace-separated token, duplicates collapsed.
fn parse_like(value: &str) -> (r: Vec<DistroId>)
    ensures
        id_set(r@) == ids_of(split_ws(value@)),
        distinct_views(r@),
{
    let n = value.unicode_len();
    let mut out: Vec<DistroId> = Vec::new();
    let ghost mut toks: Seq<Seq<char>> = Seq::empty();
    let mut i: usize = 0;
    proof {
        assert(value@.skip(0) =~= value@);
        assert(split_ws(value@) =~~= toks + split_ws(value@.skip(0)));
        assert(id_set(out@) =~= ids_of(toks));
    }
    loop
        invariant
            i <= n,
            n == value@.len(),
            split_ws(value@) == toks + split_ws(value@.skip(i as int)),
            id_set(out@) == ids_of(toks),
            distinct_views(out@),
        ensures
            id_set(out@) == ids_of(split_ws(value@)),
            distinct_views(out@),
        decreases n - i,
    {
        let mut p: usize = i;
        loop
            invariant
                i <= p <= n,
                n == value@.len(),
                forall|k: int| i <= k < p ==> is_ws_char(value@[k]),
            ensures
                i <= p <= n,
                forall|k: int| i <= k < p ==> is_ws_char(value@[k]),
                p == n || !is_ws_char(value@[p as int]),
            decreases n - p,
        {
            if p == n {
                break ;
            }
            if !is_ws(value.get_char(p)) {
                break ;
            }
            p += 1;
        }
        proof {
            lemma_split_ws_skip_ws(value@, i as int, p as int);
        }
        if p == n {
            proof {
                assert(value@.skip(n as int) =~= Seq::<char>::empty());
                assert(split_ws(value@) =~~= toks);
            }
            break ;
        }
        let mut e: usize = p + 1;
        loop
            invariant
                p < e <= n,
                n == value@.len(),
                forall|k: int| p <= k < e ==> !is_ws_char(value@[k]),
            ensures
                p < e <= n,
                forall|k: int| p <= k < e ==> !is_ws_char(value@[k]),
                e == n || is_ws_char(value@[e as int]),
            decreases n - e,
        {
            if e == n {
                break ;
            }
            if is_ws(value.get_char(e)) {
                break ;
            }
            e += 1;
        }
        proof {
            lemma_split_ws_scan(value@, p as int, e as int);
        }
        let tok = value.substring_char(p, e);
        let d = DistroId::from_name(tok);
        let ghost tokv = value@.subrange(p as int, e as int);
        let ghost prev_toks = toks;
        let ghost prev_out = out@;
        if !contains_id(&out, &d) {
            out.push(d);
            proof {
                lemma_id_set_push(prev_out, d);
            }
        }
        proof {
            toks = toks + seq![tokv];
            assert(toks.drop_last() =~= prev_toks);
            assert(toks.last() == tokv);
            assert(ids_of(toks) == ids_of(prev_toks).insert(spec_from_name(tokv)));
            if id_set(prev_out).contains(d@) {
                assert(id_set(out@).insert(d@) =~= id_set(out@));
            }
            assert(id_set(out@) == ids_of(toks));
        }
        i = e;
    }
    out
}

/// Parse the text of an `os-release` style file into a profile.
///
/// The text is read line by line; a line opening with `ID=`, `NAME=` or
/// `ID_LIKE=` contributes the rest of the line as that key's value, a later
/// line overwriting an earlier one. The result is a profile exactly when
/// both an `ID=` and a `NAME=` line occurred; otherwise it is nothing.
pub fn parse_release(text: &str) -> (r: Option<Distro>)
    ensures
        r matches Some(d) ==> spec_parse(text@) == Some(d@) && d.wf(),
        r is None ==> spec_parse(text@) is None,
{
    let n = text.unicode_len();
    let mut id: Option<DistroId> = None;
    let mut name: Option<String> = None;
    let mut like: Option<Vec<DistroId>> = None;
    let ghost mut done: Seq<Seq<char>> = Seq::empty();
    let mut i: usize = 0;
    proof {
        assert(text@.skip(0) =~= text@);
        assert(split_lines(text@) =~~= done + split_lines(text@.skip(0)));
    }
    loop
        invariant_except_break
            split_lines(text@) == done + split_lines(text@.skip(i as int)),
        invariant
            i <= n,
            n == text@.len(),
            st_ok(id, name, like, scan_fields(done)),
        ensures
            done == split_lines(text@),
            st_ok(id, name, like, scan_fields(done)),
        decreases n - i,
    {
        let mut j: usize = i;
        loop
            invariant
                i <= j <= n,
                n == text@.len(),
                forall|k: int| i <= k < j ==> text@[k] != '\n',
            ensures
                i <= j <= n,
                forall|k: int| i <= k < j ==> text@[k] != '\n',
                j == n || text@[j as int] == '\n',
            decreases n - j,
        {
            if j == n {
                break ;
            }
            if text.get_char(j) == '\n' {
                break ;
            }
            j += 1;
        }
        let mut line_end = j;
        if j > i && j < n && text.get_char(j - 1) == '\r' {
            line_end = j - 1;
        }
        let line = text.substring_char(i, line_end);
        proof {
            if j < n {
                assert(line_end as int == line_body_end(text@, i as int, j as int));
            }
        }
        if let Some(v) = strip_prefix_str(line, "ID=") {
            id = Some(DistroId::from_name(v));
            proof {
                lemma_keys_exclusive(line@);
                assert(key_value(line@, "ID="@) == Some(v@));
                assert(key_value(line@, "NAME="@) is None);
                assert(key_value(line@, "ID_LIKE="@) is None);
            }
        } else if let Some(v) = strip_prefix_str(line, "NAME=") {
            name = Some(v.to_owned());
            proof {
                lemma_keys_exclusive(line@);
                assert(key_value(line@, "NAME="@) == Some(v@));
                assert(key_value(line@, "ID="@) is None);
                assert(key_value(line@, "ID_LIKE="@) is None);
            }
        } else if let Some(v) = strip_prefix_str(line, "ID_LIKE=") {
            like = Some(parse_like(v));
            proof {
                lemma_keys_exclusive(line@);
                assert(key_value(line@, "ID_LIKE="@) == Some(v@));
                assert(key_value(line@, "ID="@) is None);
                assert(key_value(line@, "NAME="@) is None);
            }
        } else {
            proof {
                assert(key_value(line@, "ID="@) is None);
                assert(key_value(line@, "NAME="@) is None);
                assert(key_value(line@, "ID_LIKE="@) is None);
            }
        }
        proof {
            let prev = done;
            done = done + seq![line@];
            assert(done.drop_last() =~= prev);
            assert(done.last() == line@);
            assert(st_ok(id, name, like, scan_fields(done)));
        }
        if j == n {
            proof {
                lemma_split_lines_scan(text@, i as int, j as int);
                assert(done =~~= split_lines(text@));
            }
            break ;
        }
        proof {
            lemma_split_lines_scan(text@, i as int, j as int);
        }
        i = j + 1;
    }
    let idv = match id {
        Some(x) => x,
        None => {
            return None;
        },
    };
    let namev = match name {
        Some(x) => x,
        None => {
            return None;
        },
    };
    let sim = match like {
        Some(v) => v,
        None => Vec::new(),
    };
    let d = Distro { name: namev, id: idv, similar_ids: sim };
    proof {
        assert(id_set(Seq::<DistroId>::empty()) =~= Set::<IdView>::empty());
        assert(spec_parse(text@) == Some(d@));
    }
    Some(d)
}

/// How the parser's running state realizes the captured raw fields: the
/// identity is the conversion of the raw `ID` token, the name the raw `NAME`
/// value, and the entries the distinct identities of the raw `ID_LIKE`
/// tokens.
spec fn st_ok(
    id: Option<DistroId>,
    name: Option<String>,
    like: Option<Vec<DistroId>>,
    st: RawFields,
) -> bool {
    &&& match (id, st.id) {
        (Some(d), Some(t)) => d@ == spec_from_name(t),
        (None, None) => true,
        _ => false,
    }
    &&& match (name, st.name) {
        (Some(s), Some(t)) => s@ == t,
        (None, None) => true,
        _ => false,
    }
    &&& match (like, st.like) {
        (Some(v), Some(t)) => id_set(v@) == ids_of(split_ws(t)) && distinct_views(v@),
        (None, None) => true,
        _ => false,
    }
}

proof fn lemma_keys_exclusive(t: Seq<char>)
    ensures
        "ID="@.is_prefix_of(t) ==> !"NAME="@.is_prefix_of(t) && !"ID_LIKE="@.is_prefix_of(t),
        "NAME="@.is_prefix_of(t) ==> !"ID="@.is_prefix_of(t) && !"ID_LIKE="@.is_prefix_of(t),
        "ID_LIKE="@.is_prefix_of(t) ==> !"ID="@.is_prefix_of(t) && !"NAME="@.is_prefix_of(t),
{
    reveal_strlit("ID=");
    reveal_strlit("NAME=");
    reveal_strlit("ID_LIKE=");
    assert("ID="@.len() == 3 && "ID="@[0] == 'I' && "ID="@[2] == '=');
    assert("NAME="@.len() == 5 && "NAME="@[0] == 'N');
    assert("ID_LIKE="@.len() == 8 && "ID_LIKE="@[0] == 'I' && "ID_LIKE="@[2] == '_');
    if "ID="@.is_prefix_of(t) {
        assert("ID="@ == t.subrange(0, 3));
        assert(t[0] == 'I' && t[2] == '=');
    }
    if "NAME="@.is_prefix_of(t) {
        assert("NAME="@ == t.subrange(0, 5));
        assert(t[0] == 'N');
    }
    if "ID_LIKE="@.is_prefix_of(t) {
        assert("ID_LIKE="@ == t.subrange(0, 8));
        assert(t[0] == 'I' && t[2] == '_');
    }
}

} // verus!
