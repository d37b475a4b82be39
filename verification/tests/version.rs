use docs_rs::version::{ReqVersion, Version, VersionError};

#[test]
fn versions_are_written_as_they_are_read() {
    for text in [
        "0.0.0",
        "1.2.3",
        "0.5.1+zstd.1.4.4",
        "1.0.0-alpha.1",
        "1.0.0-0a.--.0+00.-",
        "18446744073709551615.0.10",
    ] {
        assert_eq!(Version::parse(text).unwrap().to_text(), text);
    }
    let version = Version::parse("1.20.3-pre.4+build-5").unwrap();
    assert_eq!((version.major, version.minor, version.patch), (1, 20, 3));
    assert_eq!(version.pre, "pre.4");
    assert_eq!(version.build, "build-5");
    assert_eq!(version, version.clone());
    assert!(version != Version::parse("1.20.3-pre.4").unwrap());
}

#[test]
fn texts_that_are_no_versions() {
    for text in [
        "",
        "1",
        "1.2",
        "01.2.3",
        "1.2.3-",
        "1.2.3-01",
        "1.2.3+",
        "1.2.3-a..b",
        "1.2.3 ",
        "18446744073709551616.0.0",
        "v1.2.3",
    ] {
        assert_eq!(Version::parse(text).unwrap_err(), VersionError::Invalid, "{text}");
    }
}

#[test]
fn versions_in_urls() {
    assert_eq!(ReqVersion::default(), ReqVersion::Latest);
    assert!(ReqVersion::parse("latest").unwrap().is_latest());
    assert_eq!(
        ReqVersion::parse("0.4.0").unwrap(),
        ReqVersion::Exact(Version::parse("0.4.0").unwrap())
    );
    for any in ["", "newest", "*"] {
        assert_eq!(
            ReqVersion::parse(any).unwrap(),
            ReqVersion::Semver("*".to_owned())
        );
    }
    assert_eq!(ReqVersion::parse("0.1").unwrap().to_text(), "^0.1");
    assert_eq!(
        ReqVersion::parse(">=1,<2").unwrap().to_text(),
        ">=1, <2"
    );
    assert_eq!(
        ReqVersion::parse("not-semver").unwrap_err(),
        VersionError::Invalid
    );
    assert_eq!(ReqVersion::Latest.to_text(), "latest");
}

#[test]
fn versions_are_read_by_the_standard_trait() {
    let version: Version = "1.2.3-rc.1+build".parse().unwrap();
    assert_eq!(version.to_text(), "1.2.3-rc.1+build");
    assert!("1.2".parse::<Version>().is_err());
}
