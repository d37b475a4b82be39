use docs_rs::cache::CachePolicy;
use docs_rs::error::{Answer, AxumNope};
use docs_rs::escaped_uri::EscapedURI;
use docs_rs::uri::{Uri, UriError};

fn redirects_to_encoded_path() {
    let answer = AxumNope::Redirect(
        EscapedURI::from_path("/something>"),
        CachePolicy::ForeverInCdnAndBrowser,
    )
    .into_answer();

    assert_eq!(answer.status_code(), 302);
    let Answer::Redirect(redirect) = answer else {
        panic!("not a redirect")
    };
    assert_eq!(redirect.location.as_str(), "/something%3E");
    assert!(matches!(
        redirect.cache_policy,
        CachePolicy::ForeverInCdnAndBrowser
    ));
}

fn keeps_query_of_uri() {
    let uri = Uri::parse("/something?key=value&foo=bar").unwrap();
    let escaped = EscapedURI::from_uri(uri);
    assert_eq!(escaped.path(), "/something");
    assert_eq!(escaped.query(), Some("key=value&foo=bar"));
}

fn takes_query_pairs() {
    let uri = EscapedURI::from_path_and_query("/something", &[("key", "value"), ("foo", "bar")]);

    assert_eq!(uri.path(), "/something");
    assert_eq!(uri.query(), Some("key=value&foo=bar"));
}

fn encodes_query_pairs() {
    let uri = EscapedURI::from_path_and_query("/something", &[("key", "value>"), ("foo", "\rbar")]);

    assert_eq!(uri.path(), "/something");
    assert_eq!(uri.query(), Some("key=value%3E&foo=%0Dbar"));
}

fn appends_without_path() {
    // a URI without a path, and without query args
    let uri = Uri::empty();
    assert_eq!(uri.path(), "");
    assert_eq!(uri.query(), None);
    assert!(http::Uri::builder()
        .build()
        .unwrap()
        .into_parts()
        .path_and_query
        .is_none());

    let uri = EscapedURI::from_uri(uri).append_query_pairs(&[("foo", "bar"), ("bar", "baz")]);

    assert_eq!(uri.path(), "/");
    assert_eq!(uri.query(), Some("foo=bar&bar=baz"));
}

fn appends_to_query() {
    let uri = EscapedURI::from_path_and_query("/something", &[("key", "value")])
        .append_query_pairs(&[("foo", "bar"), ("bar", "baz")])
        .append_query_pair("last", "one");

    assert_eq!(uri.path(), "/something");
    assert_eq!(uri.query(), Some("key=value&foo=bar&bar=baz&last=one"));
}

#[test]
fn error_test_redirect_error_encodes_url_path() {
    redirects_to_encoded_path();
}

#[test]
fn escaped_uri_test_redirect_error_encodes_url_path() {
    redirects_to_encoded_path();
}

#[test]
fn error_test_escaped_uri_from_uri_with_query_args() {
    keeps_query_of_uri();
}

#[test]
fn escaped_uri_test_escaped_uri_from_uri_with_query_args() {
    keeps_query_of_uri();
}

#[test]
fn error_test_escaped_uri_from_query() {
    takes_query_pairs();
}

#[test]
fn escaped_uri_test_escaped_uri_from_query() {
    takes_query_pairs();
}

#[test]
fn error_test_escaped_uri_from_query_with_chars_to_encode() {
    encodes_query_pairs();
}

#[test]
fn escaped_uri_test_escaped_uri_from_query_with_chars_to_encode() {
    encodes_query_pairs();
}

#[test]
fn error_test_escaped_uri_append_query_pairs_without_path() {
    appends_without_path();
}

#[test]
fn escaped_uri_test_escaped_uri_append_query_pairs_without_path() {
    appends_without_path();
}

#[test]
fn error_test_escaped_uri_append_query_pairs() {
    appends_to_query();
}

#[test]
fn escaped_uri_test_escaped_uri_append_query_pairs() {
    appends_to_query();
}

#[test]
fn test_escaped_uri_encodes_from_path() {
    assert_eq!(EscapedURI::from_path("/something").path(), "/something");
    assert_eq!(EscapedURI::from_path("/something>").path(), "/something%3E");
}

#[test]
fn test_escaped_uri_encodes_path_from_uri() {
    for (path, encoded) in [
        ("/something", "/something"),
        ("/somethingäöü", "/something%C3%A4%C3%B6%C3%BC"),
    ] {
        let uri = Uri::parse(path).unwrap();
        assert_eq!(EscapedURI::from_uri(uri).path(), encoded);
    }
}

#[test]
fn test_escaped_uri_encodes_path_from_uri_invalid() {
    for input in ["/something>", "/something?key=<value&foo=\rbar"] {
        assert_eq!(Uri::parse(input).unwrap_err(), UriError::Invalid);
    }
}

#[test]
fn test_escaped_uri_from_raw_query() {
    for (query, expected) in [
        ("key=value&foo=bar", "key=value&foo=bar"),
        ("value=foo\rbar&key=<value", "value=foo%0Dbar&key=%3Cvalue"),
    ] {
        let uri = EscapedURI::from_path_and_raw_query("/something", Some(query));
        assert_eq!(uri.path(), "/something");
        assert_eq!(uri.query(), Some(expected));
    }
}

#[test]
fn encoding_a_path_again_changes_nothing() {
    for path in ["/a b", "/ä%20<>\"", "/%", "/x?y#z", "/{name}"] {
        let once = EscapedURI::from_path(path);
        let twice = EscapedURI::from_path(once.path());
        assert_eq!(once.path(), twice.path());
    }
    assert_eq!(EscapedURI::from_path("/x?y#z").path(), "/x%3Fy%23z");
    assert_eq!(EscapedURI::from_path("/{a} `").path(), "/%7Ba%7D%20%60");
    assert_eq!(EscapedURI::from_path("/a:[b]").path(), "/a:[b]");
}

#[test]
fn an_empty_path_and_a_star() {
    assert_eq!(EscapedURI::from_path("").path(), "");
    assert_eq!(EscapedURI::from_path("").to_text(), "");
    assert_eq!(EscapedURI::from_path("*").to_text(), "*");
}

#[test]
fn paths_that_no_uri_can_have() {
    assert!(EscapedURI::try_from_path("relative").is_none());
    let long = format!("/{}", "a".repeat(65533));
    assert!(EscapedURI::try_from_path(&long).is_some());
    assert!(EscapedURI::try_from_path(&format!("{long}a")).is_none());
    // the length counts after encoding
    let wide = format!("/{}", "ä".repeat(10922));
    assert!(EscapedURI::try_from_path(&wide).is_some());
    assert!(EscapedURI::try_from_path(&format!("{wide}ä")).is_none());
}

#[test]
fn queries_that_do_not_fit() {
    let long = format!("/{}", "a".repeat(65530));
    let uri = EscapedURI::from_path(&long);
    assert!(uri.clone().try_append_query_pairs(&[("k", "")]).is_some());
    assert!(uri.clone().try_append_query_pairs(&[("k", "v")]).is_none());
    assert!(uri.clone().try_append_query_pairs(&[]).is_some());
    assert!(uri.clone().try_append_raw_query(Some("k")).is_some());
    assert!(uri.clone().try_append_raw_query(Some("key=v")).is_none());
    assert!(EscapedURI::try_from_path_and_raw_query(&long, Some("key=v")).is_none());
    assert!(EscapedURI::try_from_path_and_raw_query("relative", None).is_none());
    assert_eq!(
        EscapedURI::try_from_path_and_raw_query("/a", Some("k=v"))
            .unwrap()
            .to_text(),
        "/a?k=v"
    );
    assert!(EscapedURI::from_path("*")
        .try_append_query_pairs(&[("k", "v")])
        .is_none());
}

#[test]
fn appending_reads_the_query_that_was_there() {
    let uri = EscapedURI::from_uri(Uri::parse("/a?x+y=%C3%A4&&empty").unwrap())
        .append_query_pair("new", "a b+c");
    assert_eq!(uri.query(), Some("x+y=%C3%A4&empty=&new=a+b%2Bc"));
}

#[test]
fn appending_nothing_keeps_everything() {
    let uri = EscapedURI::from_uri(Uri::parse("/a?x").unwrap()).with_fragment("f".into());
    assert_eq!(uri.clone().append_query_pairs(&[]).to_text(), "/a?x#f");
    assert_eq!(uri.clone().append_raw_query(None).to_text(), "/a?x#f");
    assert_eq!(uri.clone().append_raw_query(Some("&")).to_text(), "/a?x#f");
    assert_eq!(uri.append_query_pair("y", "").to_text(), "/a?x=&y=");
}

#[test]
fn pairs_replace_a_query() {
    let uri = EscapedURI::from_uri(Uri::parse("/a?x").unwrap())
        .with_query_pairs(&vec![("k".into(), "ü".into())]);
    assert_eq!(uri.to_text(), "/a?k=%C3%BC");
}

#[test]
fn fragments() {
    let uri = EscapedURI::from_path("/a").with_fragment("b".into());
    assert_eq!(uri.to_text(), "/a#b");
    assert_eq!(uri.fragment(), Some("b"));
    assert_eq!(uri.uri().to_text(), "/a");
    assert!(uri != "/a");
    let err = Uri::try_from(uri.clone()).unwrap_err();
    assert_eq!(
        err.message(),
        "can't convert EscapedURI with fragment 'b' into Uri"
    );
    assert_eq!(uri.into_inner().to_text(), "/a");
    assert_eq!(
        Uri::try_from(EscapedURI::from_path("/a")).unwrap().to_text(),
        "/a"
    );
}

#[test]
fn comparisons() {
    let uri = EscapedURI::from_path("/a b");
    assert!(uri == "/a%20b");
    assert!(uri == "/a%20b".to_owned());
    assert!(uri == Uri::parse("/a%20b").unwrap());
    assert!(uri == uri.clone());
    assert!(uri != EscapedURI::from_path("/a"));
    assert!(uri != uri.clone().with_fragment("f".into()));
}

#[test]
fn whole_uris() {
    let uri = Uri::parse("https://Docs.rs/äöü?q").unwrap();
    assert_eq!(uri.to_text(), "https://Docs.rs/äöü?q");
    let escaped = EscapedURI::from_uri(uri);
    assert_eq!(escaped.to_text(), "https://Docs.rs/%C3%A4%C3%B6%C3%BC?q");
    assert_eq!(
        escaped.append_query_pair("k", "v").to_text(),
        "https://Docs.rs/%C3%A4%C3%B6%C3%BC?q=&k=v"
    );
    assert!(Uri::parse("HTTPS://docs.rs/").unwrap() == Uri::parse("https://DOCS.rs").unwrap());
    assert!(Uri::parse("https://docs.rs/A").unwrap() != Uri::parse("https://docs.rs/a").unwrap());
    // an authority has no path
    let authority = EscapedURI::from_uri(Uri::parse("localhost:3000").unwrap());
    assert_eq!(authority.path(), "");
    assert_eq!(authority.to_text(), "localhost:3000");
    assert!(authority.try_append_query_pairs(&[("k", "v")]).is_none());
}

#[test]
fn uris_that_are_none() {
    for text in ["", "/a b", "/a>", "/a?<", "http://", "a/b"] {
        assert_eq!(Uri::parse(text).unwrap_err(), UriError::Invalid, "{text}");
    }
    assert_eq!(
        Uri::from_path_and_query("relative").unwrap_err(),
        UriError::Invalid
    );
    assert_eq!(
        Uri::parse("localhost")
            .unwrap()
            .with_path_and_query("/a".into())
            .unwrap_err(),
        UriError::InvalidParts
    );
    assert_eq!(
        Uri::parse("/a")
            .unwrap()
            .with_path_and_query("/<".into())
            .unwrap_err(),
        UriError::Invalid
    );
}

#[test]
fn parts_of_a_path_and_query() {
    for (text, path, query) in [
        ("/", "/", None),
        ("*", "*", None),
        ("/a?b?c", "/a", Some("b?c")),
        ("/a#f?b", "/a", None),
        ("/a?b#f", "/a", Some("b")),
        ("?b", "/", Some("b")),
        ("/a\"{}|~", "/a\"{}|~", None),
    ] {
        let uri = Uri::from_path_and_query(text).unwrap();
        assert_eq!((uri.path(), uri.query()), (path, query), "{text}");
    }
}

#[test]
fn the_signs_that_http_accepts() {
    for byte in 0u8..128 {
        let c = byte as char;
        let in_path = Uri::parse(&format!("/x{c}x")).is_ok();
        let path_sign = matches!(byte, 0x21..=0x3b | 0x3d | 0x3f..=0x5f | 0x61..=0x7e);
        assert_eq!(in_path, path_sign, "{c:?}");
        let in_query = Uri::parse(&format!("/?x{c}x")).is_ok();
        let query_sign = matches!(byte, 0x21 | 0x23..=0x3b | 0x3d | 0x3f..=0x7e);
        assert_eq!(in_query, query_sign, "{c:?}");
    }
}

#[test]
fn escaping_a_uri_is_refused_only_where_it_grows_too_long() {
    let uri = EscapedURI::try_from_uri(Uri::parse("/a{b}?x=1").unwrap()).unwrap();
    assert_eq!(uri.path(), "/a%7Bb%7D");
    assert_eq!(uri.to_text(), "/a%7Bb%7D?x=1");

    let plain = format!("/{}", "a".repeat(30000));
    let uri = EscapedURI::try_from_uri(Uri::parse(&plain).unwrap()).unwrap();
    assert_eq!(uri.to_text(), plain);

    let long = format!("/{}", "{".repeat(30000));
    assert!(EscapedURI::try_from_uri(Uri::parse(&long).unwrap()).is_none());
}

#[test]
fn rooted_paths_carry_any_query() {
    for path in ["/", "/ü ?#%", "/a//b/"] {
        let uri = EscapedURI::try_from_path(path).unwrap();
        let uri = uri.try_append_query_pairs(&[("ö&", "=#? ")]).unwrap();
        assert_eq!(uri.query(), Some("%C3%B6%26=%3D%23%3F+"));
    }
}
