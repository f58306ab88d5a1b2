use monoverse::version::{ToVersion, Version, VersionContext};

#[test]
fn test_parse_plain_triplet() {
    let v = Version::parse("24.5.3");
    assert_eq!(v, Version { major: 24, minor: 5, patch: 3 });
}

#[test]
fn test_parse_defaults_missing_segments_to_zero() {
    assert_eq!(Version::parse("7"), Version { major: 7, minor: 0, patch: 0 });
    assert_eq!(Version::parse("7.2"), Version { major: 7, minor: 2, patch: 0 });
    assert_eq!(Version::parse(""), Version { major: 0, minor: 0, patch: 0 });
}

#[test]
fn test_parse_defaults_invalid_segments_to_zero() {
    assert_eq!(Version::parse("x.2.y"), Version { major: 0, minor: 2, patch: 0 });
    assert_eq!(
        Version::parse("99999999999.1.2"),
        Version { major: 0, minor: 1, patch: 2 }
    );
    assert_eq!(Version::parse("1.-2.3"), Version { major: 1, minor: 0, patch: 3 });
}

#[test]
fn test_parse_ignores_extra_segments() {
    assert_eq!(Version::parse("1.2.3.4"), Version { major: 1, minor: 2, patch: 3 });
}

#[test]
fn test_parse_leading_zeros() {
    assert_eq!(Version::parse("24.05.3"), Version { major: 24, minor: 5, patch: 3 });
}

#[test]
fn test_bump_at_same_period_increments_patch() {
    let v = Version { major: 24, minor: 6, patch: 0 };
    assert_eq!(v.bump_at(24, 6), Version { major: 24, minor: 6, patch: 1 });
}

#[test]
fn test_bump_at_new_period_resets_patch() {
    // Calendar rollover: 24.05.3 bumped in June 2024 gives 24.6.0, and
    // bumping that result again within June gives 24.6.1.
    let v = "24.05.3".to_version();
    let rolled = v.bump_at(24, 6);
    assert_eq!(rolled, Version { major: 24, minor: 6, patch: 0 });
    assert_eq!(rolled.bump_at(24, 6), Version { major: 24, minor: 6, patch: 1 });
}

#[test]
fn test_bump_patch_ignores_calendar() {
    let v = Version { major: 1, minor: 2, patch: 3 };
    assert_eq!(v.bump_patch(), Version { major: 1, minor: 2, patch: 4 });
}

#[test]
fn test_bump_patch_saturates() {
    let v = Version { major: 1, minor: 2, patch: u32::MAX };
    assert_eq!(v.bump_patch().patch, u32::MAX);
}

#[test]
fn test_render_no_padding() {
    assert_eq!(Version { major: 24, minor: 5, patch: 0 }.render(), "24.5.0");
    assert_eq!(Version { major: 0, minor: 0, patch: 0 }.render(), "0.0.0");
    assert_eq!(Version { major: 123, minor: 45, patch: 6789 }.render(), "123.45.6789");
}

#[test]
fn test_bump_stays_in_valid_month() {
    let v = Version { major: 1, minor: 1, patch: 0 };
    let next = v.bump();
    assert!(next.minor >= 1 && next.minor <= 12);
}

#[test]
fn test_version_context_keeps_line() {
    let ctx = VersionContext::new(Version { major: 1, minor: 2, patch: 3 }, 7);
    assert_eq!(ctx.version, Version { major: 1, minor: 2, patch: 3 });
    assert_eq!(ctx.line_number, 7);
}

#[test]
fn test_to_version_for_string() {
    let s = String::from("9.8.7");
    assert_eq!(s.to_version(), Version { major: 9, minor: 8, patch: 7 });
}
