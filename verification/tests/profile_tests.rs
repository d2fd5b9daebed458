use whatadistro::{parse_release, DistroId};

#[test]
fn well_formed_file_yields_a_profile() {
    let d = parse_release("ID=ubuntu\nNAME=\"Ubuntu\"\nID_LIKE=debian\n").unwrap();
    assert_eq!(*d.id(), DistroId::Ubuntu);
    // quotes are preserved: no unquoting is performed
    assert_eq!(d.name(), "\"Ubuntu\"");
    assert_eq!(*d.similar_ids(), vec![DistroId::Debian]);
}

#[test]
fn missing_id_yields_nothing() {
    assert!(parse_release("NAME=Test").is_none());
}

#[test]
fn missing_name_yields_nothing() {
    assert!(parse_release("ID=arch\n").is_none());
}

#[test]
fn empty_text_yields_nothing() {
    assert!(parse_release("").is_none());
}

#[test]
fn id_like_alone_sets_no_id() {
    assert!(parse_release("ID_LIKE=debian\nNAME=Test\n").is_none());
}

#[test]
fn last_write_wins_for_id() {
    let d = parse_release("ID=debian\nID=arch\nNAME=x\n").unwrap();
    assert_eq!(*d.id(), DistroId::Arch);
}

#[test]
fn last_write_wins_for_name_and_id_like() {
    let d = parse_release("NAME=First\nID=arch\nNAME=Second\nID_LIKE=debian\nID_LIKE=gentoo\n")
        .unwrap();
    assert_eq!(d.name(), "Second");
    assert_eq!(*d.similar_ids(), vec![DistroId::Gentoo]);
}

#[test]
fn combined_similarity_uses_both_sources() {
    let d = parse_release("ID=arch\nNAME=Arch Linux\nID_LIKE=gentoo\n").unwrap();
    // declared by the file
    assert!(d.is_similar(&DistroId::from_name("gentoo")));
    // from the curated family of the identity itself
    assert!(d.is_similar(&DistroId::from_name("arch")));
    // in neither source
    assert!(!d.is_similar(&DistroId::from_name("fedora")));
    assert!(!d.is_similar(&DistroId::from_name("debian")));
}

#[test]
fn curated_family_applies_without_declared_entries() {
    let d = parse_release("ID=ubuntu\nNAME=Ubuntu\n").unwrap();
    assert!(d.similar_ids().is_empty());
    assert!(d.is_similar(&DistroId::from_name("debian")));
    assert!(d.is_similar(&DistroId::from_name("linuxmint")));
    assert!(!d.is_similar(&DistroId::from_name("fedora")));
}

#[test]
fn id_like_tokens_are_split_and_deduplicated() {
    let d = parse_release("ID=centos\nNAME=CentOS\nID_LIKE=rhel fedora rhel\n").unwrap();
    let sim = d.similar_ids();
    assert_eq!(sim.len(), 2);
    assert!(sim.contains(&DistroId::RHEL));
    assert!(sim.contains(&DistroId::Fedora));
}

#[test]
fn id_like_with_empty_value_yields_no_entries() {
    let d = parse_release("ID=arch\nNAME=Arch\nID_LIKE=\n").unwrap();
    assert!(d.similar_ids().is_empty());
}

#[test]
fn id_like_keeps_unknown_tokens_as_other() {
    let d = parse_release("ID=elementary\nNAME=elementary OS\nID_LIKE=ubuntu voidish\n").unwrap();
    assert_eq!(*d.id(), DistroId::Other("elementary".to_string()));
    let sim = d.similar_ids();
    assert_eq!(sim.len(), 2);
    assert!(sim.contains(&DistroId::Ubuntu));
    assert!(sim.contains(&DistroId::Other("voidish".to_string())));
    assert!(d.is_similar(&DistroId::from_name("voidish")));
}

#[test]
fn carriage_returns_are_stripped_from_line_ends() {
    let d = parse_release("ID=arch\r\nNAME=Arch Linux\r\n").unwrap();
    assert_eq!(*d.id(), DistroId::Arch);
    assert_eq!(d.name(), "Arch Linux");
}

#[test]
fn carriage_return_survives_outside_a_line_ending() {
    // only the "\r\n" pair is a line ending: a final unterminated line keeps
    // its carriage return, and so does one in the middle of a value
    let d = parse_release("ID=arch\nNAME=x\r").unwrap();
    assert_eq!(d.name(), "x\r");
    let d = parse_release("ID=arch\nNAME=a\rb\n").unwrap();
    assert_eq!(d.name(), "a\rb");
}

#[test]
fn values_are_taken_verbatim_without_trimming() {
    let d = parse_release("ID=arch\nNAME= spaced out \n").unwrap();
    assert_eq!(d.name(), " spaced out ");
}

#[test]
fn unrecognized_lines_are_ignored() {
    let text = "# a comment\n\nVERSION=1.0\nPRETTY_NAME=Something\nID=fedora\nNAME=Fedora\n";
    let d = parse_release(text).unwrap();
    assert_eq!(*d.id(), DistroId::Fedora);
    assert_eq!(d.name(), "Fedora");
    assert!(d.similar_ids().is_empty());
}

#[test]
fn text_without_trailing_newline_is_parsed() {
    let d = parse_release("ID=nixos\nNAME=NixOS").unwrap();
    assert_eq!(*d.id(), DistroId::NixOS);
    assert_eq!(d.name(), "NixOS");
}

#[test]
fn hyphenated_tumbleweed_id_falls_back_to_other() {
    let d = parse_release("ID=opensuse-tumbleweed\nNAME=openSUSE Tumbleweed\n").unwrap();
    assert_eq!(*d.id(), DistroId::Other("opensuse-tumbleweed".to_string()));
}
