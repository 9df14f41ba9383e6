use inno::loader::SetupLoader;
use inno::version::InnoVersion;

fn version(major: u8, minor: u8, patch: u8, revision: u8) -> InnoVersion {
    InnoVersion { major, minor, patch, revision, unicode: false }
}

#[test]
fn newest_supported_version_is_the_last_6_7() {
    assert_eq!(InnoVersion::max_supported(), version(6, 7, 255, 255));
}

#[test]
fn every_6_7_is_supported_and_7_0_is_not() {
    let max = InnoVersion::max_supported();
    assert!(!version(6, 7, 0, 0).is_newer_than(&max));
    assert!(!version(6, 7, 255, 255).is_newer_than(&max));
    assert!(!version(1, 2, 10, 0).is_newer_than(&max));
    assert!(version(6, 8, 0, 0).is_newer_than(&max));
    assert!(version(7, 0, 0, 0).is_newer_than(&max));
}

#[test]
fn first_differing_part_decides() {
    assert!(version(5, 0, 0, 0).is_newer_than(&version(4, 255, 255, 255)));
    assert!(version(5, 1, 0, 0).is_newer_than(&version(5, 0, 255, 255)));
    assert!(version(5, 1, 1, 0).is_newer_than(&version(5, 1, 0, 255)));
    assert!(version(5, 1, 1, 1).is_newer_than(&version(5, 1, 1, 0)));
    assert!(!version(5, 1, 1, 1).is_newer_than(&version(5, 1, 1, 1)));
    assert!(!version(4, 255, 0, 0).is_newer_than(&version(5, 0, 0, 0)));
}

#[test]
fn text_mode_does_not_order_versions() {
    let ansi = version(5, 5, 7, 0);
    let unicode = InnoVersion { unicode: true, ..ansi };
    assert!(!ansi.is_newer_than(&unicode));
    assert!(!unicode.is_newer_than(&ansi));
    assert!(unicode.is_unicode());
    assert!(!ansi.is_unicode());
}

#[test]
fn release_is_reached_from_its_first_revision_on() {
    assert!(version(6, 5, 0, 0).is_at_least(6, 5));
    assert!(version(6, 5, 1, 0).is_at_least(6, 5));
    assert!(!version(6, 4, 255, 255).is_at_least(6, 5));
    assert!(version(4, 0, 0, 0).is_at_least(4, 0));
    assert!(!version(3, 255, 255, 255).is_at_least(4, 0));
    assert!(version(6, 10, 0, 0).is_at_least(6, 5));
}

#[test]
fn header_is_sought_without_the_sign() {
    assert_eq!(SetupLoader { header_offset: 0x1234 }.seek_position(), 0x1234);
    assert_eq!(SetupLoader { header_offset: -0x1234 }.seek_position(), 0x1234);
    assert_eq!(SetupLoader { header_offset: 0 }.seek_position(), 0);
    assert_eq!(SetupLoader { header_offset: i64::MAX }.seek_position(), 9_223_372_036_854_775_807);
    assert_eq!(SetupLoader { header_offset: i64::MIN }.seek_position(), 9_223_372_036_854_775_808);
    assert_eq!(SetupLoader { header_offset: -7 }.header_offset(), -7);
}
