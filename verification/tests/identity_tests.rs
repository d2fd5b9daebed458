use whatadistro::DistroId;

fn known_variants() -> Vec<DistroId> {
    vec![
        DistroId::Arch,
        DistroId::Debian,
        DistroId::Ubuntu,
        DistroId::Mint,
        DistroId::RHEL,
        DistroId::Fedora,
        DistroId::OpenSUSE,
        DistroId::Gentoo,
        DistroId::NixOS,
    ]
}

#[test]
fn from_name_recognized_tokens() {
    assert_eq!(DistroId::from_name("arch"), DistroId::Arch);
    assert_eq!(DistroId::from_name("debian"), DistroId::Debian);
    assert_eq!(DistroId::from_name("ubuntu"), DistroId::Ubuntu);
    assert_eq!(DistroId::from_name("mint"), DistroId::Mint);
    assert_eq!(DistroId::from_name("linuxmint"), DistroId::Mint);
    assert_eq!(DistroId::from_name("rhel"), DistroId::RHEL);
    assert_eq!(DistroId::from_name("fedora"), DistroId::Fedora);
    assert_eq!(DistroId::from_name("suse"), DistroId::OpenSUSE);
    assert_eq!(DistroId::from_name("opensuse"), DistroId::OpenSUSE);
    assert_eq!(DistroId::from_name("opensuse_tumbleweed"), DistroId::OpenSUSE);
    assert_eq!(DistroId::from_name("gentoo"), DistroId::Gentoo);
    assert_eq!(DistroId::from_name("nixos"), DistroId::NixOS);
}

#[test]
fn from_name_is_total_and_keeps_unknown_tokens_verbatim() {
    assert_eq!(
        DistroId::from_name("slackware"),
        DistroId::Other("slackware".to_string())
    );
    assert_eq!(DistroId::from_name(""), DistroId::Other(String::new()));
    // the lookup is case-sensitive
    assert_eq!(DistroId::from_name("Arch"), DistroId::Other("Arch".to_string()));
    // the table expects the underscore spelling; the hyphenated token that
    // real files use for Tumbleweed is not recognized
    assert_eq!(
        DistroId::from_name("opensuse-tumbleweed"),
        DistroId::Other("opensuse-tumbleweed".to_string())
    );
}

#[test]
fn name_token_of_each_variant() {
    assert_eq!(DistroId::Arch.name_token(), "arch");
    assert_eq!(DistroId::Debian.name_token(), "debian");
    assert_eq!(DistroId::Ubuntu.name_token(), "ubuntu");
    assert_eq!(DistroId::Mint.name_token(), "linuxmint");
    assert_eq!(DistroId::RHEL.name_token(), "rhel");
    assert_eq!(DistroId::Fedora.name_token(), "fedora");
    assert_eq!(DistroId::OpenSUSE.name_token(), "opensuse");
    assert_eq!(DistroId::Gentoo.name_token(), "gentoo");
    assert_eq!(DistroId::NixOS.name_token(), "nixos");
    assert_eq!(DistroId::Other("slackware".to_string()).name_token(), "slackware");
}

#[test]
fn token_round_trip_for_known_variants() {
    for v in known_variants() {
        let token = v.name_token();
        assert_eq!(DistroId::from_name(&token), v);
    }
}

#[test]
fn list_similar_matches_the_curated_table() {
    assert_eq!(DistroId::Arch.list_similar(), vec![DistroId::Arch]);
    assert_eq!(
        DistroId::Debian.list_similar(),
        vec![DistroId::Debian, DistroId::Ubuntu, DistroId::Mint]
    );
    assert_eq!(
        DistroId::Ubuntu.list_similar(),
        vec![DistroId::Ubuntu, DistroId::Debian, DistroId::Mint]
    );
    assert_eq!(
        DistroId::Mint.list_similar(),
        vec![DistroId::Mint, DistroId::Debian, DistroId::Ubuntu]
    );
    assert_eq!(
        DistroId::RHEL.list_similar(),
        vec![DistroId::RHEL, DistroId::Fedora, DistroId::OpenSUSE]
    );
    assert_eq!(
        DistroId::Fedora.list_similar(),
        vec![DistroId::Fedora, DistroId::RHEL, DistroId::OpenSUSE]
    );
    assert_eq!(
        DistroId::OpenSUSE.list_similar(),
        vec![DistroId::OpenSUSE, DistroId::Fedora, DistroId::RHEL]
    );
    assert_eq!(DistroId::Gentoo.list_similar(), vec![DistroId::Gentoo]);
    assert_eq!(DistroId::NixOS.list_similar(), vec![DistroId::NixOS]);
    assert_eq!(
        DistroId::Other("void".to_string()).list_similar(),
        vec![DistroId::Other("void".to_string())]
    );
}

#[test]
fn list_similar_contains_self() {
    for v in known_variants() {
        assert!(v.list_similar().contains(&v));
    }
    let other = DistroId::Other("slackware".to_string());
    assert!(other.list_similar().contains(&other));
}

#[test]
fn families_are_pairwise_similar() {
    let debian_family = [DistroId::Debian, DistroId::Ubuntu, DistroId::Mint];
    for a in &debian_family {
        for b in &debian_family {
            assert!(a.is_similar(b));
            assert!(b.is_similar(a));
        }
    }
    let rhel_family = [DistroId::RHEL, DistroId::Fedora, DistroId::OpenSUSE];
    for a in &rhel_family {
        for b in &rhel_family {
            assert!(a.is_similar(b));
            assert!(b.is_similar(a));
        }
    }
    for a in &debian_family {
        for b in &rhel_family {
            assert!(!a.is_similar(b));
            assert!(!b.is_similar(a));
        }
    }
}

#[test]
fn singleton_families_are_self_similar_only() {
    let singletons = [DistroId::Arch, DistroId::Gentoo, DistroId::NixOS];
    for a in &singletons {
        for v in known_variants() {
            assert_eq!(a.is_similar(&v), *a == v);
        }
    }
}

#[test]
fn other_is_similar_to_its_own_token_only() {
    let slack = DistroId::Other("slackware".to_string());
    assert!(slack.is_similar(&DistroId::from_name("slackware")));
    assert!(!slack.is_similar(&DistroId::from_name("arch")));
    assert!(!slack.is_similar(&DistroId::Other("void".to_string())));
    assert!(!DistroId::Arch.is_similar(&slack));
}
