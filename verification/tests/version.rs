use collection_sync::error::AnkiError;
use collection_sync::version::buildhash;
use collection_sync::version::client_version_re;
use collection_sync::version::parse_short_version_info;
use collection_sync::version::parse_u32;
use collection_sync::version::parse_version_info;
use collection_sync::version::short_client_version_re;
use collection_sync::version::sync_client_version;
use collection_sync::version::sync_client_version_short;
use collection_sync::version::sync_server_version;
use collection_sync::version::version;
use collection_sync::version::version_from_groups;
use collection_sync::version::VersionInfo;
use collection_sync::version::ANKIMATH_VARIANT;

fn info(
    name: &str,
    numbers: (u32, u32, u32),
    prerelease: &str,
    buildmetadata: &str,
    buildhash: &str,
    variant: &str,
    platform: &str,
) -> VersionInfo {
    VersionInfo {
        name: name.to_string(),
        major: numbers.0,
        minor: numbers.1,
        patch: numbers.2,
        prerelease: prerelease.to_string(),
        buildmetadata: buildmetadata.to_string(),
        buildhash: buildhash.to_string(),
        variant: variant.to_string(),
        platform: platform.to_string(),
    }
}

#[test]
fn the_library_says_its_version() {
    assert_eq!(version(), "2.1.57");
    assert_eq!(buildhash(), "dev");
    assert_eq!(ANKIMATH_VARIANT, "mxyzptlk");
    assert_eq!(sync_client_version("linux"), "anki,2.1.57 (dev.mxyzptlk),linux");
    assert_eq!(sync_client_version_short("linux"), "2.1.57,dev.mxyzptlk,linux");
    assert_eq!(sync_server_version("linux"), "Anki/2.1.57+mxyzptlk (linux)");
}

#[test]
fn the_version_of_a_client_is_read() {
    assert_eq!(
        parse_version_info("anki,2.1.57 (dev.mxyzptlk),linux"),
        Ok(Some(info("anki", (2, 1, 57), "", "", "dev", "mxyzptlk", "linux")))
    );
    assert_eq!(
        parse_version_info("10.0.3-rc.1+build.5 (a1b2c3)\t,win:10"),
        Ok(None)
    );
    assert_eq!(
        parse_version_info("10.0.3-rc.1+build.5 \t(a1b2c3),win:10"),
        Ok(Some(info("", (10, 0, 3), "rc.1", "build.5", "a1b2c3", "", "win:10")))
    );
    assert_eq!(parse_version_info(&sync_client_version("mac")).unwrap().unwrap().platform, "mac");
}

#[test]
fn what_is_no_version_of_a_client_says_nothing() {
    for text in ["", "anki", "anki,2.1 (dev),linux", "anki,02.1.1 (dev),linux", "2.1.57,dev,linux"] {
        assert_eq!(parse_version_info(text), Ok(None));
    }
}

#[test]
fn a_number_that_does_not_fit_is_refused() {
    assert!(matches!(
        parse_version_info("anki,4294967296.1.1 (dev),linux"),
        Err(AnkiError::InvalidInput { .. })
    ));
    assert_eq!(
        parse_version_info("anki,4294967295.1.1 (dev),linux").unwrap().unwrap().major,
        u32::MAX
    );
}

#[test]
fn the_short_version_of_a_client_is_read_without_name_and_numbers() {
    assert_eq!(
        parse_short_version_info("2.1.57,dev.mxyzptlk,linux"),
        Ok(Some(info("", (0, 0, 0), "", "", "dev", "mxyzptlk", "linux")))
    );
    assert_eq!(
        parse_short_version_info(&sync_client_version_short("mac")),
        Ok(Some(info("", (0, 0, 0), "", "", "dev", "mxyzptlk", "mac")))
    );
    assert_eq!(parse_short_version_info("anki,2.1.57 (dev.mxyzptlk),linux"), Ok(None));
}

#[test]
fn the_patterns_are_those_that_versions_are_read_by() {
    assert!(client_version_re().contains("(?P<buildhash>[0-9a-zA-Z-]+)"));
    assert!(client_version_re().contains("(?P<major>0|[1-9]\\d*)"));
    assert!(short_client_version_re().contains("(?P<majorver>0|[1-9]\\d*)"));
}

#[test]
fn numbers_are_read_from_digits() {
    assert_eq!(parse_u32("0"), Some(0));
    assert_eq!(parse_u32("007"), Some(7));
    assert_eq!(parse_u32("4294967295"), Some(u32::MAX));
    assert_eq!(parse_u32("4294967296"), None);
    assert_eq!(parse_u32("99999999999999999999999999"), None);
    assert_eq!(parse_u32(""), None);
    assert_eq!(parse_u32("+5"), None);
    assert_eq!(parse_u32("1a"), None);
    assert_eq!(parse_u32("٣"), None);
}

#[test]
fn a_version_is_made_of_nine_groups() {
    let group = |text: &str| Some(text.to_string());
    let groups = vec![
        None,
        group("1"),
        None,
        group("3"),
        None,
        group("meta"),
        group("hash"),
        None,
        group("os"),
    ];
    assert_eq!(version_from_groups(&groups), Ok(info("", (1, 0, 3), "", "meta", "hash", "", "os")));
    assert!(matches!(version_from_groups(&groups[..8].to_vec()), Err(AnkiError::InvalidInput { .. })));
    let mut wrong = groups.clone();
    wrong[2] = group("x");
    assert!(matches!(version_from_groups(&wrong), Err(AnkiError::InvalidInput { .. })));
}
