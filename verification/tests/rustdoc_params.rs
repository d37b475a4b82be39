use docs_rs::release::{MatchedRelease, MissingTargetName, Release};
use docs_rs::rustdoc_params::{
    MetaData, PageKind, ParsedRustdocParams, RustdocParams, UrlParams,
};
use docs_rs::rustdoc_path::{
    find_static_route_suffix, generate_rustdoc_path_for_url, get_file_extension, path_is_folder,
};
use docs_rs::uri::{Uri, UriError};
use docs_rs::version::{ReqVersion, Version, VersionError};

const KRATE: &str = "krate";
const INDEX_HTML: &str = "index.html";
const DEFAULT_TARGET: &str = "x86_64-unknown-linux-gnu";
const OTHER_TARGET: &str = "x86_64-pc-windows-msvc";
const UNKNOWN_TARGET: &str = "some-unknown-target";

fn targets() -> Vec<String> {
    vec![DEFAULT_TARGET.to_owned(), OTHER_TARGET.to_owned()]
}

fn parse(params: RustdocParams, target_name: &str) -> ParsedRustdocParams {
    params.parse(
        Some(DEFAULT_TARGET.to_owned()),
        Some(target_name.to_owned()),
        targets(),
    )
}

#[test]
fn test_find_static_route_suffix() {
    for (route, path, suffix) in [
        (
            "/{name}/{version}/help/some.html",
            "/foo/1.2.3/help/some.html",
            Some("help/some.html"),
        ),
        (
            "/{name}/{version}/help.html",
            "/foo/1.2.3/help.html",
            Some("help.html"),
        ),
        ("help.html", "help.html", Some("help.html")),
        ("/{name}/{version}/help/", "/foo/1.2.3/help/", Some("help/")),
        ("{name}/{version}/help/", "foo/1.2.3/help/", Some("help/")),
        ("/{name}/{version}/{*path}", "/foo/1.2.3/help.html", None),
        ("/{name}/{version}/help.html", "/foo/1.2.3/other.html", None),
        (
            "/{name}/{version}/some/help.html",
            "/foo/1.2.3/other/help.html",
            None,
        ),
        ("", "", None),
        ("/", "", None),
    ] {
        assert_eq!(
            find_static_route_suffix(route, path).as_deref(),
            suffix,
            "{route} {path}"
        );
    }
}

#[test]
fn test_extract_rustdoc_params_from_request() {
    let new = |name: &str, uri: &str| {
        RustdocParams::new(name)
            .try_with_original_uri(uri)
            .unwrap()
            .with_page_kind(PageKind::Rustdoc)
    };
    // the route, what it takes from the path, and what is expected
    let cases: Vec<(&str, Option<&str>, Option<&str>, RustdocParams)> = vec![
        ("/{name}", None, None, new(KRATE, "/krate")),
        ("/{name}/", None, None, new(KRATE, "/krate/")),
        ("/{name}/{version}", None, None, new(KRATE, "/krate/latest")),
        (
            "/{name}/{version}/{*path}",
            None,
            Some("static.html"),
            new(KRATE, "/krate/latest/static.html").with_inner_path("static.html"),
        ),
        (
            "/{name}/{version}/{path}/static.html",
            None,
            Some("path_add"),
            new(KRATE, "/krate/latest/path_add/static.html")
                .with_inner_path("path_add")
                .with_static_route_suffix("static.html"),
        ),
        (
            "/{name}/{version}/clapproc%20%60macro.html",
            None,
            None,
            new("clap", "/clap/latest/clapproc%20%60macro.html")
                .with_static_route_suffix("clapproc `macro.html"),
        ),
        (
            "/{name}/{version}/static.html",
            None,
            None,
            new(KRATE, "/krate/latest/static.html").with_static_route_suffix("static.html"),
        ),
        (
            "/{name}/{version}/{target}",
            Some(OTHER_TARGET),
            None,
            new(KRATE, &format!("/krate/1.2.3/{OTHER_TARGET}"))
                .try_with_version("1.2.3")
                .unwrap()
                .with_doc_target(OTHER_TARGET),
        ),
        (
            "/{name}/{version}/{target}/folder/something.html",
            Some(OTHER_TARGET),
            None,
            new(
                KRATE,
                &format!("/krate/1.2.3/{OTHER_TARGET}/folder/something.html"),
            )
            .try_with_version("1.2.3")
            .unwrap()
            .with_doc_target(OTHER_TARGET)
            .with_static_route_suffix("folder/something.html"),
        ),
        (
            "/{name}/{version}/{target}/",
            Some(OTHER_TARGET),
            None,
            new(KRATE, &format!("/krate/1.2.3/{OTHER_TARGET}/"))
                .try_with_version("1.2.3")
                .unwrap()
                .with_doc_target(OTHER_TARGET),
        ),
        (
            "/{name}/{version}/{target}/{*path}",
            Some(OTHER_TARGET),
            Some("some/path/to/a/file.html"),
            new(
                KRATE,
                &format!("/krate/1.2.3/{OTHER_TARGET}/some/path/to/a/file.html"),
            )
            .try_with_version("1.2.3")
            .unwrap()
            .with_doc_target(OTHER_TARGET)
            .with_inner_path("some/path/to/a/file.html"),
        ),
        (
            "/{name}/{version}/{target}/{path}/path/to/a/file.html",
            Some(OTHER_TARGET),
            Some("path_add"),
            new(
                KRATE,
                &format!("/krate/1.2.3/{OTHER_TARGET}/path_add/path/to/a/file.html"),
            )
            .try_with_version("1.2.3")
            .unwrap()
            .with_doc_target(OTHER_TARGET)
            .with_inner_path("path_add")
            .with_static_route_suffix("path/to/a/file.html"),
        ),
    ];
    for (route, target, path, expected) in cases {
        let uri = Uri::parse(expected.original_path()).unwrap();
        let params = RustdocParams::from_request(
            UrlParams {
                name: expected.name().to_owned(),
                version: expected.version().clone(),
                target: target.map(|t| t.to_owned()),
                path: path.map(|p| p.to_owned()),
            },
            uri,
            route,
        )
        .unwrap();
        assert_eq!(params, expected, "{route}");
    }
}

#[test]
fn a_request_that_is_not_utf8_is_refused() {
    let params = || UrlParams {
        name: KRATE.to_owned(),
        version: ReqVersion::default(),
        target: None,
        path: None,
    };
    assert!(
        RustdocParams::from_request(params(), Uri::parse("/%ff").unwrap(), "/{name}").is_err()
    );
    assert!(RustdocParams::from_request(params(), Uri::parse("/a").unwrap(), "/%ff").is_err());
    // the URL is decoded before the route
    let err = RustdocParams::from_request(params(), Uri::parse("/a%ff").unwrap(), "/%ff");
    assert_eq!(
        err.unwrap_err().message,
        "invalid utf-8 sequence of 1 bytes from index 2"
    );
    let err = RustdocParams::from_request(params(), Uri::parse("/a").unwrap(), "/%ff");
    assert_eq!(
        err.unwrap_err().message,
        "invalid utf-8 sequence of 1 bytes from index 1"
    );
}

fn check_parse(
    target: Option<&str>,
    path: Option<&str>,
    had_trailing_slash: bool,
    expected_target: Option<&str>,
    expected_path: &str,
    expected_storage_path: &str,
) {
    let mut dummy_path = match (target, path) {
        (Some(target), Some(path)) => format!("{}/{}", target, path),
        (Some(target), None) => target.to_string(),
        (None, Some(path)) => path.to_string(),
        (None, None) => String::new(),
    };
    dummy_path.insert(0, '/');
    if had_trailing_slash && !dummy_path.is_empty() {
        dummy_path.push('/');
    }

    let parsed = parse(
        RustdocParams::new(KRATE)
            .with_version(ReqVersion::Latest)
            .with_maybe_doc_target(target)
            .with_maybe_inner_path(path)
            .try_with_original_uri(&dummy_path)
            .unwrap(),
        KRATE,
    );

    assert_eq!(parsed.name(), KRATE);
    assert_eq!(parsed.version(), &ReqVersion::Latest);
    assert_eq!(parsed.doc_target(), expected_target);
    assert_eq!(parsed.inner_path(), expected_path);
    assert_eq!(parsed.storage_path(), expected_storage_path);
    assert_eq!(
        parsed.path_is_folder(),
        had_trailing_slash || dummy_path.ends_with('/') || dummy_path.is_empty()
    );
}

#[test]
fn test_parse() {
    let d = DEFAULT_TARGET;
    let o = OTHER_TARGET;
    let u = UNKNOWN_TARGET;
    check_parse(None, None, false, None, "", "krate/index.html");
    check_parse(Some(""), Some(""), false, None, "", "krate/index.html");
    // no separate "target" component was present in the params
    check_parse(None, Some("/"), true, None, "", "krate/index.html");
    check_parse(None, Some("something"), false, None, "something", "something");
    check_parse(None, Some("/something"), false, None, "something", "something");
    check_parse(
        None,
        Some("something/"),
        true,
        None,
        "something/",
        "something/index.html",
    );
    // a target is given, but as first component of the path
    check_parse(None, Some(d), false, Some(d), "", "krate/index.html");
    check_parse(
        None,
        Some(&format!("{d}/")),
        true,
        Some(d),
        "",
        "krate/index.html",
    );
    check_parse(None, Some(&format!("{d}/one")), false, Some(d), "one", "one");
    check_parse(
        None,
        Some(&format!("{d}/one/")),
        true,
        Some(d),
        "one/",
        "one/index.html",
    );
    check_parse(
        None,
        Some(&format!("{u}/one/")),
        true,
        None,
        &format!("{u}/one/"),
        &format!("{u}/one/index.html"),
    );
    check_parse(
        None,
        Some(&format!("{d}/some/inner/path")),
        false,
        Some(d),
        "some/inner/path",
        "some/inner/path",
    );
    check_parse(
        None,
        Some(&format!("{d}/some/inner/path/")),
        true,
        Some(d),
        "some/inner/path/",
        "some/inner/path/index.html",
    );
    // a separate target path parameter
    check_parse(Some(d), None, false, Some(d), "", "krate/index.html");
    check_parse(
        Some(d),
        Some("inner/path.html"),
        false,
        Some(d),
        "inner/path.html",
        "inner/path.html",
    );
    check_parse(
        Some(d),
        Some("inner/path/"),
        true,
        Some(d),
        "inner/path/",
        "inner/path/index.html",
    );
    check_parse(
        Some(u),
        None,
        true,
        None,
        &format!("{u}/"),
        &format!("{u}/index.html"),
    );
    check_parse(Some(u), None, false, None, u, u);
    check_parse(
        Some(u),
        Some("inner/path.html"),
        false,
        None,
        &format!("{u}/inner/path.html"),
        &format!("{u}/inner/path.html"),
    );
    check_parse(
        Some(o),
        Some("inner/path.html"),
        false,
        Some(o),
        "inner/path.html",
        &format!("{o}/inner/path.html"),
    );
    check_parse(
        Some(u),
        Some("inner/path/"),
        true,
        None,
        &format!("{u}/inner/path/"),
        &format!("{u}/inner/path/index.html"),
    );
    check_parse(
        Some(o),
        Some("inner/path/"),
        true,
        Some(o),
        "inner/path/",
        &format!("{o}/inner/path/index.html"),
    );
}

#[test]
fn test_generate_fallback_search() {
    for (path, search) in [
        ("dummy/struct.WindowsOnly.html", Some("WindowsOnly")),
        ("dummy/some_module/struct.SomeItem.html", Some("SomeItem")),
        ("dummy/some_module/index.html", Some("some_module")),
        ("dummy/some_module/", Some("some_module")),
        ("src/folder1/folder2/logic.rs.html", Some("logic")),
        ("src/non_source_file.rs", None),
        ("html", None),
        ("something.html", Some("html")),
        ("", None),
    ] {
        let mut params = parse(
            RustdocParams::new("dummy")
                .try_with_version("0.4.0")
                .unwrap()
                // non-default target, target stays in the url
                .with_doc_target(OTHER_TARGET)
                .with_inner_path(path),
            "dummy",
        );

        assert_eq!(params.generate_fallback_search().as_deref(), search);
        assert_eq!(
            params.generate_fallback_url().to_text(),
            format!(
                "/dummy/0.4.0/x86_64-pc-windows-msvc/dummy/{}",
                search.map(|s| format!("?search={}", s)).unwrap_or_default()
            )
        );

        // change to default target, check url again
        params = params.with_doc_target(DEFAULT_TARGET).unwrap();

        assert_eq!(params.generate_fallback_search().as_deref(), search);
        assert_eq!(
            params.generate_fallback_url().to_text(),
            format!(
                "/dummy/0.4.0/dummy/{}",
                search.map(|s| format!("?search={}", s)).unwrap_or_default()
            )
        );
    }
}

#[test]
fn test_parse_source() {
    let params = parse(
        RustdocParams::new("dummy")
            .try_with_version("0.4.0")
            .unwrap()
            .with_inner_path("README.md")
            .with_page_kind(PageKind::Source)
            .try_with_original_uri("/crate/dummy/0.4.0/source/README.md")
            .unwrap(),
        "dummy",
    );

    assert_eq!(params.rustdoc_url().to_text(), "/dummy/0.4.0/dummy/");
    assert_eq!(
        params.source_url().to_text(),
        "/crate/dummy/0.4.0/source/README.md"
    );
    assert_eq!(
        params.target_redirect_url().to_text(),
        "/crate/dummy/0.4.0/target-redirect/dummy/"
    );
}

#[test]
fn test_generate_rustdoc_path_for_url() {
    let d = Some(DEFAULT_TARGET);
    let o = Some(OTHER_TARGET);
    let t = Some("target_name");
    for (target_name, default_target, doc_target, inner_path, expected) in [
        (None, None, None, None, ""),
        (t, None, None, None, "target_name/"),
        (None, None, None, Some("path/index.html"), "path/"),
        (
            t,
            None,
            d,
            Some("inner/path.html"),
            "x86_64-unknown-linux-gnu/inner/path.html",
        ),
        (t, None, d, None, "x86_64-unknown-linux-gnu/target_name/"),
        (t, d, d, None, "target_name/"),
        (t, d, d, Some("inner/path.html"), "inner/path.html"),
        (None, d, d, Some("inner/path/index.html"), "inner/path/"),
        (None, d, d, Some("inner/path/"), "inner/path/"),
        (t, d, o, None, "x86_64-pc-windows-msvc/target_name/"),
        (
            t,
            d,
            o,
            Some("inner/path.html"),
            "x86_64-pc-windows-msvc/inner/path.html",
        ),
    ] {
        assert_eq!(
            generate_rustdoc_path_for_url(target_name, default_target, doc_target, inner_path),
            expected
        );
    }
}

#[test]
fn test_rustdoc_path_for_url() {
    let d = Some(DEFAULT_TARGET);
    let o = Some(OTHER_TARGET);
    let k = Some(KRATE);
    for (target_name, default_target, doc_target, inner_path, expected) in [
        (None, None, None, None, String::new()),
        (None, None, None, Some("folder/index.html"), "folder/".into()),
        (None, None, None, Some(INDEX_HTML), String::new()),
        (None, d, d, None, String::new()),
        (None, d, o, None, format!("{OTHER_TARGET}/")),
        (k, d, d, None, format!("{KRATE}/")),
        (k, d, o, None, format!("{OTHER_TARGET}/{KRATE}/")),
        (
            k,
            d,
            d,
            Some("inner/something.html"),
            "inner/something.html".into(),
        ),
        (
            k,
            d,
            o,
            Some("inner/something.html"),
            format!("{OTHER_TARGET}/inner/something.html"),
        ),
    ] {
        assert_eq!(
            generate_rustdoc_path_for_url(target_name, default_target, doc_target, inner_path),
            expected
        );
    }
}

#[test]
fn test_case_1() {
    let params = parse(
        RustdocParams::new("dummy")
            .try_with_version("0.2.0")
            .unwrap()
            .with_inner_path("struct.Dummy.html")
            .with_doc_target("dummy")
            .with_page_kind(PageKind::Rustdoc)
            .try_with_original_uri("/dummy/0.2.0/dummy/struct.Dummy.html")
            .unwrap(),
        "dummy",
    );

    assert!(params.doc_target().is_none());
    assert_eq!(params.inner_path(), "dummy/struct.Dummy.html");
    assert_eq!(params.storage_path(), "dummy/struct.Dummy.html");

    let params = params.with_doc_target(DEFAULT_TARGET).unwrap();
    assert_eq!(params.doc_target(), Some(DEFAULT_TARGET));
    assert_eq!(params.inner_path(), "dummy/struct.Dummy.html");
    assert_eq!(params.storage_path(), "dummy/struct.Dummy.html");

    let params = params.with_doc_target(OTHER_TARGET).unwrap();
    assert_eq!(params.doc_target(), Some(OTHER_TARGET));
    assert_eq!(
        params.storage_path(),
        format!("{OTHER_TARGET}/dummy/struct.Dummy.html")
    );
    assert_eq!(
        params.storage_path(),
        format!("{OTHER_TARGET}/dummy/struct.Dummy.html")
    );
}

#[test]
fn test_with_fixed_target_and_path() {
    let d = DEFAULT_TARGET;
    let u = UNKNOWN_TARGET;
    for (original_uri, target, path, expected_target, expected_path) in [
        ("/".to_owned(), None, None, None, String::new()),
        (format!("/{d}"), Some(d), None, Some(d), String::new()),
        (format!("/{u}"), Some(u), None, None, u.to_owned()),
        (
            format!("/{u}/"),
            Some(u),
            Some("something/file.html"),
            None,
            format!("{u}/something/file.html"),
        ),
        (format!("/{u}/"), Some(u), None, None, format!("{u}/")),
    ] {
        let params = RustdocParams::new(KRATE)
            .try_with_version("0.4.0")
            .unwrap()
            .try_with_original_uri(&original_uri)
            .unwrap()
            .with_maybe_doc_target(target)
            .with_maybe_inner_path(path)
            .with_fixed_target_and_path(&targets());

        assert_eq!(params.doc_target(), expected_target);
        assert_eq!(params.inner_path(), expected_path);
    }
}

#[test]
fn test_validate_unknown_doc_target() {
    let params = RustdocParams::new(KRATE)
        .try_with_version("0.4.0")
        .unwrap()
        // this works, because we don't have the doc-target list here
        .try_with_original_uri(&format!("/{UNKNOWN_TARGET}/"))
        .unwrap()
        .with_doc_target(UNKNOWN_TARGET);

    assert_eq!(params.doc_target(), Some(UNKNOWN_TARGET));

    // parsing the params also works with the unknown target, but it's moved to the path
    let params = parse(params, KRATE);

    assert!(params.doc_target().is_none());
    assert_eq!(params.inner_path(), &format!("{UNKNOWN_TARGET}/"));

    // this breaks!
    assert!(params.clone().with_doc_target(UNKNOWN_TARGET).is_err());

    let params = params
        .with_doc_target(OTHER_TARGET)
        .expect("should succeed");

    assert_eq!(params.doc_target(), Some(OTHER_TARGET));

    // the unknown target was moved to the inner path, and stays there when the target is
    // overwritten
    assert_eq!(params.inner_path(), format!("{UNKNOWN_TARGET}/"));
}

#[test]
fn unknown_targets_are_named_in_the_error() {
    let err = parse(RustdocParams::new(KRATE), KRATE)
        .with_doc_target(UNKNOWN_TARGET)
        .unwrap_err();
    assert_eq!(err.message(), "unknown doc target: some-unknown-target");
}

#[test]
fn inner_paths_that_stay_rooted() {
    let path = |inner_path: &str| {
        parse(RustdocParams::new(KRATE).with_inner_path(inner_path), KRATE)
            .inner_path()
            .to_owned()
    };
    assert_eq!(path("///a"), "a");
    assert_eq!(path("/ /a"), "/a");
    assert_eq!(path(&format!("{DEFAULT_TARGET}//a")), "/a");
}

#[test]
fn understanding_again_changes_nothing() {
    let params = parse(
        RustdocParams::new(KRATE).with_inner_path(&format!("/{OTHER_TARGET}/a/b.html")),
        KRATE,
    );
    assert_eq!(params.doc_target(), Some(OTHER_TARGET));
    assert_eq!(params.inner_path(), "a/b.html");
    let again = params.clone().with_version(ReqVersion::Latest);
    assert_eq!(again.doc_target(), params.doc_target());
    assert_eq!(again.inner_path(), params.inner_path());
    let updated = params.clone().update(|inner| inner.with_name("other"));
    assert_eq!(updated.name(), "other");
    assert_eq!(updated.doc_target(), params.doc_target());
    assert_eq!(updated.inner_path(), params.inner_path());
}

#[test]
fn the_static_suffix_belongs_to_rustdoc_pages() {
    let params = RustdocParams::new(KRATE)
        .with_inner_path("a")
        .with_static_route_suffix("b.html");
    assert_eq!(parse(params.clone(), KRATE).inner_path(), "a/b.html");
    assert_eq!(
        parse(params.clone(), KRATE).remove_page_kind().inner_path(),
        "a"
    );
    assert_eq!(
        parse(params.with_inner_path(""), KRATE).inner_path(),
        "b.html"
    );
}

#[test]
fn urls_of_a_crate() {
    let params = RustdocParams::new(" krate ")
        .try_with_version("1.0.0-rc.1+x")
        .unwrap()
        .with_doc_target(OTHER_TARGET)
        .with_inner_path("some/inner path.html");
    assert_eq!(params.name(), "krate");
    assert_eq!(
        params.rustdoc_url().to_text(),
        format!("/krate/1.0.0-rc.1+x/{OTHER_TARGET}/some/inner%20path.html")
    );
    assert_eq!(
        params.crate_details_url().to_text(),
        "/crate/krate/1.0.0-rc.1+x"
    );
    assert_eq!(
        params.platforms_partial_url().to_text(),
        format!("/crate/krate/1.0.0-rc.1+x/menus/platforms/{OTHER_TARGET}/some/inner%20path.html")
    );
    assert_eq!(
        params.releases_partial_url().to_text(),
        format!("/crate/krate/1.0.0-rc.1+x/menus/releases/{OTHER_TARGET}/some/inner%20path.html")
    );
    assert_eq!(
        params.builds_url().to_text(),
        "/crate/krate/1.0.0-rc.1+x/builds"
    );
    assert_eq!(
        params.features_url().to_text(),
        "/crate/krate/1.0.0-rc.1+x/features"
    );
    assert_eq!(
        params.source_url().to_text(),
        "/crate/krate/1.0.0-rc.1+x/source/"
    );
    assert_eq!(
        params.target_redirect_url().to_text(),
        format!("/crate/krate/1.0.0-rc.1+x/target-redirect/{OTHER_TARGET}/some/inner%20path.html")
    );
    let parsed = parse(params, KRATE);
    assert_eq!(
        parsed.rustdoc_url().to_text(),
        format!("/krate/1.0.0-rc.1+x/{OTHER_TARGET}/some/inner%20path.html")
    );
    assert_eq!(
        parsed.crate_details_url().to_text(),
        "/crate/krate/1.0.0-rc.1+x"
    );
    assert_eq!(
        parsed.builds_url().to_text(),
        "/crate/krate/1.0.0-rc.1+x/builds"
    );
    assert_eq!(
        parsed.features_url().to_text(),
        "/crate/krate/1.0.0-rc.1+x/features"
    );
    assert_eq!(
        parsed.platforms_partial_url().to_text(),
        format!("/crate/krate/1.0.0-rc.1+x/menus/platforms/{OTHER_TARGET}/some/inner%20path.html")
    );
    assert_eq!(
        parsed.releases_partial_url().to_text(),
        format!("/crate/krate/1.0.0-rc.1+x/menus/releases/{OTHER_TARGET}/some/inner%20path.html")
    );
    assert_eq!(parsed.doc_targets().len(), 2);
    assert_eq!(parsed.doc_target_or_default(), Some(OTHER_TARGET));
    assert!(!parsed.target_is_default());
    assert_eq!(parsed.page_kind(), Some(&PageKind::Rustdoc));
    let source = parsed.with_page_kind(PageKind::Source);
    assert_eq!(source.page_kind(), Some(&PageKind::Source));
    assert_eq!(
        source.source_url().to_text(),
        "/crate/krate/1.0.0-rc.1+x/source/some/inner%20path.html"
    );
    let default = source.with_doc_target(DEFAULT_TARGET).unwrap();
    assert!(default.target_is_default());
}

#[test]
fn extensions_of_files() {
    assert_eq!(get_file_extension("/a/b.tar.gz"), Some("gz"));
    assert_eq!(get_file_extension("foo.html/bar"), None);
    assert_eq!(get_file_extension("foo"), None);
    assert_eq!(get_file_extension("foo."), Some(""));
    let params = RustdocParams::new(KRATE)
        .try_with_original_uri("/krate/1.0.0/a.js?x.y")
        .unwrap();
    assert_eq!(params.file_extension(), Some("js"));
    assert_eq!(RustdocParams::new(KRATE).file_extension(), None);
    assert_eq!(parse(params, KRATE).file_extension(), Some("js"));
}

#[test]
fn folders() {
    assert!(path_is_folder(""));
    assert!(path_is_folder("a/"));
    assert!(!path_is_folder("a"));
}

#[test]
fn versions_that_cannot_be_read() {
    assert_eq!(
        RustdocParams::new(KRATE)
            .try_with_version("not-semver")
            .unwrap_err(),
        VersionError::Invalid
    );
    assert_eq!(
        RustdocParams::new(KRATE)
            .try_with_original_uri("/<>")
            .unwrap_err(),
        UriError::Invalid
    );
}

#[test]
fn metadata_of_a_release() {
    let metadata = || MetaData {
        default_target: Some(OTHER_TARGET.to_owned()),
        target_name: Some("lib_name".to_owned()),
        doc_targets: Some(targets()),
    };
    let params = RustdocParams::new(KRATE).with_doc_target(OTHER_TARGET);
    let parsed = params.clone().parse_with_metadata(&metadata());
    assert_eq!(parsed.storage_path(), "lib_name/index.html");
    let loaded = params.clone().load_and_parse(Some(metadata())).unwrap();
    assert_eq!(loaded.storage_path(), "lib_name/index.html");
    let err = params.load_and_parse(None).unwrap_err();
    assert_eq!(
        err.to_text(),
        "Requested crate does not have specified version"
    );
}

#[test]
fn params_of_a_matched_release() {
    let release = |target_name: Option<&str>| MatchedRelease {
        name: "my-krate".into(),
        corrected_name: None,
        req_version: ReqVersion::Latest,
        release: Release {
            version: Version::parse("1.2.3").unwrap(),
            build_succeeded: true,
            rustdoc_status: true,
            target_name: target_name.map(|t| t.to_owned()),
        },
    };
    let params = ParsedRustdocParams::try_from(release(Some("my_krate"))).unwrap();
    assert_eq!(params.rustdoc_url().to_text(), "/my-krate/latest/my_krate/");
    assert_eq!(params.doc_target_or_default(), Some(DEFAULT_TARGET));
    let err = ParsedRustdocParams::try_from(release(None)).unwrap_err();
    assert_eq!(err, MissingTargetName);
    assert_eq!(err.message(), "default target missing in release");
}

#[test]
fn parsed_params_are_compared_by_what_they_hold() {
    let parse = |path: &str, target: &str| {
        RustdocParams::new("krate").with_inner_path(path).parse(
            Some("x86_64-unknown-linux-gnu".to_owned()),
            Some("krate".to_owned()),
            vec!["x86_64-unknown-linux-gnu".to_owned(), target.to_owned()],
        )
    };
    assert!(parse("a/b.html", "other-target") == parse("/a/b.html", "other-target"));
    assert!(parse("a/b.html", "other-target") != parse("a/c.html", "other-target"));
    assert!(parse("a/b.html", "other-target") != parse("a/b.html", "third-target"));
}

#[test]
fn updating_with_the_same_changes_nothing() {
    for (target, path, suffix) in [
        (None, "x86_64-pc-windows-msvc/krate/index.html", None),
        (Some(OTHER_TARGET), "krate/", None),
        (Some(UNKNOWN_TARGET), "krate/all.html", None),
        (None, "krate/module", Some("index.html")),
    ] {
        let parsed = RustdocParams::new(KRATE)
            .with_maybe_doc_target(target)
            .with_inner_path(path)
            .with_maybe_static_route_suffix(suffix.map(|s: &str| s.to_owned()))
            .parse(
                Some(DEFAULT_TARGET.to_owned()),
                Some(KRATE.to_owned()),
                targets(),
            );
        assert!(parsed.clone().update(|inner| inner) == parsed);
    }
}
