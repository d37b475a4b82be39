use chrono::{DateTime, Utc};
use docs_rs::registry_api::{
    owners_url, pick_release, release_answer, search_results, search_url,
    take_owners, versions_url, OwnerData, OwnerKind, ReleaseAnswer, ReleaseData,
    RegistryError, SearchCrate, SearchMeta, SearchResponse, VersionData,
};
use docs_rs::version::Version;

fn version(s: &str) -> Version {
    Version::parse(s).unwrap()
}

#[test]
fn test_get_release_data() {
    let api_base = "http://127.0.0.1:1234/";
    assert_eq!(
        versions_url(api_base, "krate").unwrap(),
        "http://127.0.0.1:1234/api/v1/crates/krate/versions"
    );
    assert_eq!(release_answer(200), ReleaseAnswer::Listed);

    let created = Utc::now();
    let other: DateTime<Utc> = "2025-01-01T00:00:00Z".parse().unwrap();
    let versions = vec![
        VersionData {
            num: version("1.0.0"),
            created_at: created,
            yanked: false,
            downloads: 42,
        },
        VersionData {
            num: version("2.0.0"),
            created_at: other,
            yanked: true,
            downloads: 22,
        },
    ];
    assert_eq!(
        pick_release(versions, &version("1.0.0")).unwrap(),
        ReleaseData {
            release_time: created,
            yanked: false,
            downloads: 42
        }
    );
}

#[test]
fn test_404_in_release_data_returns_none() {
    assert_eq!(
        versions_url("http://127.0.0.1:1234/", "krate").unwrap(),
        "http://127.0.0.1:1234/api/v1/crates/krate/versions"
    );
    assert_eq!(release_answer(404), ReleaseAnswer::Unknown);
}

#[test]
fn other_statuses() {
    assert_eq!(release_answer(399), ReleaseAnswer::Listed);
    assert_eq!(release_answer(400), ReleaseAnswer::Failed);
    assert_eq!(release_answer(599), ReleaseAnswer::Failed);
    assert_eq!(release_answer(600), ReleaseAnswer::Listed);
}

#[test]
fn the_first_release_with_a_version_is_taken() {
    let data = |num: &str, downloads: i32| VersionData {
        num: version(num),
        created_at: 0,
        yanked: false,
        downloads,
    };
    let all = || vec![data("1.0.0", 1), data("2.0.0", 2), data("2.0.0", 3)];
    assert_eq!(pick_release(all(), &version("2.0.0")).unwrap().downloads, 2);
    let err = pick_release(all(), &version("2.0.0+build")).unwrap_err();
    assert_eq!(err.message(), "Could not find version in response");
}

#[test]
fn an_unknown_release() {
    let data = ReleaseData::unknown_at(7u64);
    assert_eq!(
        data,
        ReleaseData {
            release_time: 7,
            yanked: false,
            downloads: 0
        }
    );
}

#[test]
fn names_are_escaped_in_urls() {
    assert_eq!(
        owners_url("https://crates.io/base", "a b/c").unwrap(),
        "https://crates.io/base/api/v1/crates/a%20b%2Fc/owners"
    );
    let err = owners_url("mailto:somebody", "krate").unwrap_err();
    assert_eq!(err.message(), "Invalid API url");
    assert!(versions_url("not a url", "krate").is_err());
}

#[test]
fn urls_of_searches() {
    assert_eq!(
        search_url("https://crates.io/base?old", "q=a b").unwrap(),
        "https://crates.io/base/api/v1/crates?q=a%20b"
    );
    assert_eq!(
        search_url("https://crates.io/?old#top", "q=#").unwrap(),
        "https://crates.io/api/v1/crates?q=%23#top"
    );
    assert_eq!(
        search_url("https://crates.io", "q=serde&page=2").unwrap(),
        "https://crates.io/api/v1/crates?q=serde&page=2"
    );
    assert!(matches!(
        search_url("mailto:a", "q"),
        Err(RegistryError::InvalidApiUrl)
    ));
}

#[test]
fn owners_without_a_login_are_left_out() {
    let data = |login: Option<&str>, kind: Option<OwnerKind>| OwnerData {
        avatar: None,
        login: login.map(|s| s.to_owned()),
        kind,
    };
    let owners = take_owners(vec![
        data(Some("user"), None),
        data(Some(""), Some(OwnerKind::Team)),
        data(Some("team"), Some(OwnerKind::Team)),
        data(None, Some(OwnerKind::User)),
        OwnerData {
            avatar: Some("picture".into()),
            login: Some("last".into()),
            kind: None,
        },
    ])
    .owners;
    let found: Vec<(&str, &str, &str)> = owners
        .iter()
        .map(|o| (o.login.as_str(), o.avatar.as_str(), o.kind.to_text()))
        .collect();
    assert_eq!(
        found,
        vec![
            ("user", "", "user"),
            ("team", "", "team"),
            ("", "", "user"),
            ("last", "picture", "user"),
        ]
    );
}

#[test]
fn results_of_searches() {
    let crates = || {
        Some(vec![SearchCrate {
            name: "serde".into(),
        }])
    };
    let meta = || {
        Some(SearchMeta {
            next_page: Some("?page=2".into()),
            prev_page: None,
        })
    };
    let response = |crates, meta, errors| SearchResponse {
        crates,
        meta,
        errors,
    };
    let search = search_results(response(crates(), meta(), None)).unwrap();
    assert_eq!(search.crates[0].name, "serde");
    assert_eq!(search.meta.next_page.as_deref(), Some("?page=2"));
    assert!(search.meta.prev_page.is_none());

    let message = |r: SearchResponse| search_results(r).unwrap_err().message();
    assert_eq!(
        message(response(
            crates(),
            meta(),
            Some(vec!["one".into(), "two".into()])
        )),
        "got error from crates.io: one\ntwo"
    );
    assert_eq!(
        message(response(None, meta(), None)),
        "missing releases in crates.io response"
    );
    assert_eq!(
        message(response(crates(), None, None)),
        "missing metadata in crates.io response"
    );
}
