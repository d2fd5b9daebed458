//! The identity model: the closed taxonomy of known distributions, string
//! conversion to and from it, and the curated family-similarity table.

use vstd::prelude::*;

use crate::text::str_eq;

verus! {

/// Identifiers of the distributions the taxonomy knows, plus a catch-all
/// variant carrying the unrecognized token verbatim.
#[derive(Clone, Debug)]
pub enum DistroId {
    /// Arch Linux (`ID=arch`)
    Arch,
    /// Debian (`ID=debian`)
    Debian,
    /// Ubuntu (`ID=ubuntu`)
    Ubuntu,
    /// Linux Mint (`ID=linuxmint`)
    Mint,
    /// Red Hat Enterprise Linux (`ID=rhel`)
    RHEL,
    /// Fedora (`ID=fedora`)
    Fedora,
    /// OpenSUSE (`ID=suse`, `ID=opensuse`, `ID=opensuse_tumbleweed`)
    OpenSUSE,
    /// Gentoo (`ID=gentoo`)
    Gentoo,
    /// NixOS (`ID=nixos`)
    NixOS,
    /// Any identifier not in the taxonomy, kept verbatim
    Other(String),
}

/// The mathematical model of a [`DistroId`]: the same taxonomy with the
/// catch-all payload abstracted to a sequence of characters.
pub ghost enum IdView {
    Arch,
    Debian,
    Ubuntu,
    Mint,
    RHEL,
    Fedora,
    OpenSUSE,
    Gentoo,
    NixOS,
    Other(Seq<char>),
}

impl View for DistroId {
    type V = IdView;

    open spec fn view(&self) -> IdView {
        match self {
            DistroId::Arch => IdView::Arch,
            DistroId::Debian => IdView::Debian,
            DistroId::Ubuntu => IdView::Ubuntu,
            DistroId::Mint => IdView::Mint,
            DistroId::RHEL => IdView::RHEL,
            DistroId::Fedora => IdView::Fedora,
            DistroId::OpenSUSE => IdView::OpenSUSE,
            DistroId::Gentoo => IdView::Gentoo,
            DistroId::NixOS => IdView::NixOS,
            DistroId::Other(s) => IdView::Other(s@),
        }
    }
}

/// The fixed table mapping a recognized token to its identity; any other
/// token falls back to `Other` carrying the token unchanged.
pub open spec fn spec_from_name(s: Seq<char>) -> IdView {
    if s == "arch"@ {
        IdView::Arch
    } else if s == "debian"@ {
        IdView::Debian
    } else if s == "ubuntu"@ {
        IdView::Ubuntu
    } else if s == "mint"@ || s == "linuxmint"@ {
        IdView::Mint
    } else if s == "rhel"@ {
        IdView::RHEL
    } else if s == "fedora"@ {
        IdView::Fedora
    } else if s == "suse"@ || s == "opensuse"@ || s == "opensuse_tumbleweed"@ {
        IdView::OpenSUSE
    } else if s == "gentoo"@ {
        IdView::Gentoo
    } else if s == "nixos"@ {
        IdView::NixOS
    } else {
        IdView::Other(s)
    }
}

/// The canonical short token of each known identity; for `Other` the stored
/// payload itself.
pub open spec fn spec_token(v: IdView) -> Seq<char> {
    match v {
        IdView::Arch => "arch"@,
        IdView::Debian => "debian"@,
        IdView::Ubuntu => "ubuntu"@,
        IdView::Mint => "linuxmint"@,
        IdView::RHEL => "rhel"@,
        IdView::Fedora => "fedora"@,
        IdView::OpenSUSE => "opensuse"@,
        IdView::Gentoo => "gentoo"@,
        IdView::NixOS => "nixos"@,
        IdView::Other(s) => s,
    }
}

/// The curated similarity table: each identity's family, anchored on the
/// queried identity itself.
pub open spec fn spec_similar(v: IdView) -> Seq<IdView> {
    match v {
        IdView::Arch => seq![IdView::Arch],
        IdView::Debian => seq![IdView::Debian, IdView::Ubuntu, IdView::Mint],
        IdView::Ubuntu => seq![IdView::Ubuntu, IdView::Debian, IdView::Mint],
        IdView::Mint => seq![IdView::Mint, IdView::Debian, IdView::Ubuntu],
        IdView::RHEL => seq![IdView::RHEL, IdView::Fedora, IdView::OpenSUSE],
        IdView::Fedora => seq![IdView::Fedora, IdView::RHEL, IdView::OpenSUSE],
        IdView::OpenSUSE => seq![IdView::OpenSUSE, IdView::Fedora, IdView::RHEL],
        IdView::Gentoo => seq![IdView::Gentoo],
        IdView::NixOS => seq![IdView::NixOS],
        IdView::Other(s) => seq![IdView::Other(s)],
    }
}

impl PartialEq for DistroId {
    fn eq(&self, other: &DistroId) -> (r: bool) {
        match (self, other) {
            (DistroId::Arch, DistroId::Arch) => true,
            (DistroId::Debian, DistroId::Debian) => true,
            (DistroId::Ubuntu, DistroId::Ubuntu) => true,
            (DistroId::Mint, DistroId::Mint) => true,
            (DistroId::RHEL, DistroId::RHEL) => true,
            (DistroId::Fedora, DistroId::Fedora) => true,
            (DistroId::OpenSUSE, DistroId::OpenSUSE) => true,
            (DistroId::Gentoo, DistroId::Gentoo) => true,
            (DistroId::NixOS, DistroId::NixOS) => true,
            (DistroId::Other(a), DistroId::Other(b)) => *a == *b,
            _ => false,
        }
    }
}

impl vstd::std_specs::cmp::PartialEqSpecImpl for DistroId {
    open spec fn obeys_eq_spec() -> bool {
        true
    }

    open spec fn eq_spec(&self, other: &DistroId) -> bool {
        self@ == other@
    }
}

impl DistroId {
    /// Convert a raw token to an identity. The conversion is total: a token
    /// outside the fixed table yields `Other` with the token kept verbatim.
    pub fn from_name(s: &str) -> (r: DistroId)
        ensures
            r@ == spec_from_name(s@),
    {
        if str_eq(s, "arch") {
            DistroId::Arch
        } else if str_eq(s, "debian") {
            DistroId::Debian
        } else if str_eq(s, "ubuntu") {
            DistroId::Ubuntu
        } else if str_eq(s, "mint") || str_eq(s, "linuxmint") {
            DistroId::Mint
        } else if str_eq(s, "rhel") {
            DistroId::RHEL
        } else if str_eq(s, "fedora") {
            DistroId::Fedora
        } else if str_eq(s, "suse") || str_eq(s, "opensuse") || str_eq(s, "opensuse_tumbleweed") {
            DistroId::OpenSUSE
        } else if str_eq(s, "gentoo") {
            DistroId::Gentoo
        } else if str_eq(s, "nixos") {
            DistroId::NixOS
        } else {
            DistroId::Other(s.to_owned())
        }
    }

    /// The canonical short token of this identity; for `Other`, the stored
    /// payload unchanged.
    pub fn name_token(&self) -> (r: String)
        ensures
            r@ == spec_token(self@),
    {
        match self {
            DistroId::Arch => "arch".to_owned(),
            DistroId::Debian => "debian".to_owned(),
            DistroId::Ubuntu => "ubuntu".to_owned(),
            DistroId::Mint => "linuxmint".to_owned(),
            DistroId::RHEL => "rhel".to_owned(),
            DistroId::Fedora => "fedora".to_owned(),
            DistroId::OpenSUSE => "opensuse".to_owned(),
            DistroId::Gentoo => "gentoo".to_owned(),
            DistroId::NixOS => "nixos".to_owned(),
            DistroId::Other(s) => s.clone(),
        }
    }

    /// The identities this one is similar to, per the curated family table.
    /// The list is anchored on the queried identity: it comes first, its
    /// family members follow.
    pub fn list_similar(&self) -> (r: Vec<DistroId>)
        ensures
            r@.map_values(|d: DistroId| d@) == spec_similar(self@),
    {
        let r = match self {
            DistroId::Arch => vec![DistroId::Arch],
            DistroId::Debian => vec![DistroId::Debian, DistroId::Ubuntu, DistroId::Mint],
            DistroId::Ubuntu => vec![DistroId::Ubuntu, DistroId::Debian, DistroId::Mint],
            DistroId::Mint => vec![DistroId::Mint, DistroId::Debian, DistroId::Ubuntu],
            DistroId::RHEL => vec![DistroId::RHEL, DistroId::Fedora, DistroId::OpenSUSE],
            DistroId::Fedora => vec![DistroId::Fedora, DistroId::RHEL, DistroId::OpenSUSE],
            DistroId::OpenSUSE => vec![DistroId::OpenSUSE, DistroId::Fedora, DistroId::RHEL],
            DistroId::Gentoo => vec![DistroId::Gentoo],
            DistroId::NixOS => vec![DistroId::NixOS],
            DistroId::Other(s) => vec![DistroId::Other(s.clone())],
        };
        proof {
            assert(r@.map_values(|d: DistroId| d@) =~= spec_similar(self@));
        }
        r
    }

    /// Whether `other` belongs to this identity's curated family.
    pub fn is_similar(&self, other: &DistroId) -> (r: bool)
        ensures
            r == spec_similar(self@).contains(other@),
    {
        let sim = self.list_similar();
        let mut i: usize = 0;
        while i < sim.len()
            invariant
                i <= sim@.len(),
                sim@.map_values(|d: DistroId| d@) == spec_similar(self@),
                forall|j: int| 0 <= j < i ==> sim@[j]@ != other@,
            decreases sim@.len() - i,
        {
            if *other == sim[i] {
                proof {
                    assert(spec_similar(self@)[i as int] == other@);
                }
                return true;
            }
            i += 1;
        }
        proof {
            assert forall|j: int| 0 <= j < spec_similar(self@).len() implies spec_similar(
                self@,
            )[j] != other@ by {
                assert(sim@[j]@ != other@);
            }
        }
        false
    }
}

/// The Debian-lineage family.
pub open spec fn debian_family(v: IdView) -> bool {
    v is Debian || v is Ubuntu || v is Mint
}

/// The Red-Hat-lineage family.
pub open spec fn rhel_family(v: IdView) -> bool {
    v is RHEL || v is Fedora || v is OpenSUSE
}

/// Two identities are in the same family when they are equal, or both in the
/// Debian lineage, or both in the Red Hat lineage; every other identity forms
/// a family of its own.
pub open spec fn same_family(a: IdView, b: IdView) -> bool {
    ||| a == b
    ||| (debian_family(a) && debian_family(b))
    ||| (rhel_family(a) && rhel_family(b))
}

proof fn lemma_contains1(x: IdView, w: IdView)
    ensures
        seq![x].contains(w) <==> w == x,
{
    if w == x {
        assert(seq![x][0] == x);
    }
}

proof fn lemma_contains3(x: IdView, y: IdView, z: IdView, w: IdView)
    ensures
        seq![x, y, z].contains(w) <==> (w == x || w == y || w == z),
{
    let s = seq![x, y, z];
    if w == x {
        assert(s[0] == x);
    } else if w == y {
        assert(s[1] == y);
    } else if w == z {
        assert(s[2] == z);
    }
}

/// The law behind the similarity table: an identity's list holds exactly the
/// members of its own family.
pub proof fn lemma_similar_characterization(a: IdView, b: IdView)
    ensures
        spec_similar(a).contains(b) <==> same_family(a, b),
{
    match a {
        IdView::Arch => lemma_contains1(IdView::Arch, b),
        IdView::Debian => lemma_contains3(IdView::Debian, IdView::Ubuntu, IdView::Mint, b),
        IdView::Ubuntu => lemma_contains3(IdView::Ubuntu, IdView::Debian, IdView::Mint, b),
        IdView::Mint => lemma_contains3(IdView::Mint, IdView::Debian, IdView::Ubuntu, b),
        IdView::RHEL => lemma_contains3(IdView::RHEL, IdView::Fedora, IdView::OpenSUSE, b),
        IdView::Fedora => lemma_contains3(IdView::Fedora, IdView::RHEL, IdView::OpenSUSE, b),
        IdView::OpenSUSE => lemma_contains3(IdView::OpenSUSE, IdView::Fedora, IdView::RHEL, b),
        IdView::Gentoo => lemma_contains1(IdView::Gentoo, b),
        IdView::NixOS => lemma_contains1(IdView::NixOS, b),
        IdView::Other(s) => lemma_contains1(IdView::Other(s), b),
    }
}

/// Every identity's similarity list contains the identity itself.
pub proof fn lemma_similar_self(v: IdView)
    ensures
        spec_similar(v).contains(v),
{
    lemma_similar_characterization(v, v);
}

/// Similarity is symmetric: the curated families make `a` similar to `b`
/// exactly when they make `b` similar to `a`.
pub proof fn lemma_similar_symmetric(a: IdView, b: IdView)
    ensures
        spec_similar(a).contains(b) <==> spec_similar(b).contains(a),
{
    lemma_similar_characterization(a, b);
    lemma_similar_characterization(b, a);
}

/// Arch, Gentoo and NixOS form singleton families: each is similar only to
/// itself.
pub proof fn lemma_singleton_self_only(a: IdView, b: IdView)
    requires
        a is Arch || a is Gentoo || a is NixOS,
    ensures
        spec_similar(a).contains(b) <==> a == b,
{
    lemma_similar_characterization(a, b);
}

/// An `Other` identity is similar to itself and to nothing else.
pub proof fn lemma_other_self_only(s: Seq<char>, b: IdView)
    ensures
        spec_similar(IdView::Other(s)).contains(b) <==> b == IdView::Other(s),
{
    lemma_similar_characterization(IdView::Other(s), b);
}

/// String-to-identity conversion is total: it never leaves the taxonomy, and
/// when it falls back to `Other` the payload is the input itself, unchanged.
pub proof fn lemma_from_name_total(s: Seq<char>)
    ensures
        spec_from_name(s) is Other ==> spec_from_name(s) == IdView::Other(s),
{
}

/// Converting a known identity to its token and back yields the identity
/// again, for each of the nine known variants.
pub proof fn lemma_token_round_trip(v: IdView)
    requires
        !(v is Other),
    ensures
        spec_from_name(spec_token(v)) == v,
{
    reveal_strlit("arch");
    reveal_strlit("debian");
    reveal_strlit("ubuntu");
    reveal_strlit("mint");
    reveal_strlit("linuxmint");
    reveal_strlit("rhel");
    reveal_strlit("fedora");
    reveal_strlit("suse");
    reveal_strlit("opensuse");
    reveal_strlit("opensuse_tumbleweed");
    reveal_strlit("gentoo");
    reveal_strlit("nixos");
    assert("arch"@.len() == 4 && "arch"@[0] == 'a');
    assert("debian"@.len() == 6 && "debian"@[0] == 'd');
    assert("ubuntu"@.len() == 6 && "ubuntu"@[0] == 'u');
    assert("mint"@.len() == 4 && "mint"@[0] == 'm');
    assert("linuxmint"@.len() == 9 && "linuxmint"@[0] == 'l');
    assert("rhel"@.len() == 4 && "rhel"@[0] == 'r');
    assert("fedora"@.len() == 6 && "fedora"@[0] == 'f');
    assert("suse"@.len() == 4 && "suse"@[0] == 's');
    assert("opensuse"@.len() == 8 && "opensuse"@[0] == 'o');
    assert("opensuse_tumbleweed"@.len() == 19);
    assert("gentoo"@.len() == 6 && "gentoo"@[0] == 'g');
    assert("nixos"@.len() == 5 && "nixos"@[0] == 'n');
    match v {
        IdView::Arch => assert(spec_from_name("arch"@) == IdView::Arch),
        IdView::Debian => assert(spec_from_name("debian"@) == IdView::Debian),
        IdView::Ubuntu => assert(spec_from_name("ubuntu"@) == IdView::Ubuntu),
        IdView::Mint => assert(spec_from_name("linuxmint"@) == IdView::Mint),
        IdView::RHEL => assert(spec_from_name("rhel"@) == IdView::RHEL),
        IdView::Fedora => assert(spec_from_name("fedora"@) == IdView::Fedora),
        IdView::OpenSUSE => assert(spec_from_name("opensuse"@) == IdView::OpenSUSE),
        IdView::Gentoo => assert(spec_from_name("gentoo"@) == IdView::Gentoo),
        IdView::NixOS => assert(spec_from_name("nixos"@) == IdView::NixOS),
        IdView::Other(_) => assert(false),
    }
}

} // verus!
