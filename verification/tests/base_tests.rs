use ganymede::base::{id_text, install_location, BaseApiImpl, InstallLocation};

#[test]
fn a_build_that_is_not_concerned_has_nothing_to_check() {
    let location = install_location(false, Some("/private/AppTranslocation/x"), None);

    assert_eq!(location, InstallLocation::NotConcerned);
}

#[test]
fn an_unknown_path_is_not_warned_about() {
    assert_eq!(install_location(true, None, Some("/Users/me")), InstallLocation::NotConcerned);
}

#[test]
fn translocation_is_found_before_anything_else() {
    let path = "/Applications/AppTranslocation/G.app/Contents/MacOS/g";

    assert_eq!(install_location(true, Some(path), None), InstallLocation::Translocated);
}

#[test]
fn both_applications_folders_count() {
    let system = Some("/Applications/Ganymede.app/Contents/MacOS/ganymede");
    let user = Some("/Users/me/Applications/Ganymede.app/Contents/MacOS/ganymede");
    let home = Some("/Users/me");

    assert_eq!(install_location(true, system, None), InstallLocation::Applications);
    assert_eq!(install_location(true, user, home), InstallLocation::Applications);
    assert_eq!(install_location(true, user, None), InstallLocation::NotInApplications);
    assert_eq!(
        install_location(true, user, Some("/Users/you")),
        InstallLocation::NotInApplications
    );
    assert_eq!(
        install_location(true, Some("/Users/me/Downloads/g"), home),
        InstallLocation::NotInApplications
    );
}

#[test]
fn the_procedure_tells_the_install_location() {
    assert_eq!(
        BaseApiImpl.get_install_location(true, Some("/Applications/x"), None),
        InstallLocation::Applications
    );
    assert_eq!(
        BaseApiImpl.get_install_location(false, Some("/Applications/x"), None),
        InstallLocation::NotConcerned
    );
}

#[test]
fn a_development_build_is_not_production() {
    assert!(BaseApiImpl.is_production(false));
    assert!(!BaseApiImpl.is_production(true));
}

#[test]
fn sixteen_bytes_are_written_as_an_identifier() {
    let bytes = [
        0x00, 0x11, 0x22, 0x33, 0x44, 0x55, 0x46, 0x77, 0x88, 0x99, 0xaa, 0xbb, 0xcc, 0xdd, 0xee,
        0xff,
    ];

    assert_eq!(id_text(bytes), "00112233-4455-4677-8899-aabbccddeeff");
    assert_eq!(id_text([0; 16]), "00000000-0000-0000-0000-000000000000");
}

#[test]
fn new_identifiers_differ_and_show_their_version() {
    let one = BaseApiImpl.new_id();
    let other = BaseApiImpl.new_id();

    assert_ne!(one, other);
    assert_eq!(one.len(), 36);
    for at in [8, 13, 18, 23] {
        assert_eq!(one.as_bytes()[at], b'-');
    }
    assert_eq!(one.as_bytes()[14], b'4');
    assert!(matches!(one.as_bytes()[19], b'8' | b'9' | b'a' | b'b'));
    assert!(one.chars().all(|c| c == '-' || c.is_ascii_digit() || ('a'..='f').contains(&c)));
}

#[test]
fn the_first_deep_link_is_followed() {
    let urls = vec!["ganymede://one".to_owned(), "ganymede://two".to_owned()];

    assert_eq!(BaseApiImpl.startup(&Ok(Some(urls))), Some("ganymede://one".to_owned()));
    assert_eq!(BaseApiImpl.startup(&Ok(Some(vec![]))), None);
    assert_eq!(BaseApiImpl.startup(&Ok(None)), None);
    assert_eq!(BaseApiImpl.startup(&Err("unsupported".to_owned())), None);
}
