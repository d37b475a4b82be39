use docs_rs::decimal::{to_decimal, to_signed_decimal};
use docs_rs::downloads::{
    compression_from_file_extension, rustdoc_archive_path, rustdoc_json_path,
    CompressionAlgorithm, RustdocJsonFormatVersion,
};
use docs_rs::query_map::insert;
use docs_rs::redirector::doc_query;
use docs_rs::text::{
    align_right, ends_with, eq_ignore_ascii_case, find, find_text, join, rfind, same_text, split,
    starts_with, strip_suffix, trim, trim_start_matches,
};

const SAMPLES: [&str; 12] = [
    "",
    "/",
    "a",
    "a/b",
    "//a//",
    " a b ",
    "\u{2003}ü/ \t",
    "src/lib.rs.html",
    "::",
    "a::b::c",
    "ÄÖ::",
    ".rs.html",
];

#[test]
fn texts_are_handled_as_std_does() {
    for s in SAMPLES {
        assert_eq!(trim(s), s.trim());
        assert_eq!(trim_start_matches(s, '/'), s.trim_start_matches('/'));
        assert_eq!(split(s, '/'), s.split('/').collect::<Vec<_>>());
        assert_eq!(join(&split(s, '/'), "/"), s);
        assert_eq!(find(s, '/'), s.chars().position(|c| c == '/'));
        let last = s.chars().collect::<Vec<_>>().iter().rposition(|c| *c == '/');
        assert_eq!(rfind(s, '/'), last);
        assert_eq!(
            find_text(s, "::").is_some(),
            s.contains("::"),
        );
        assert_eq!(strip_suffix(s, ".rs.html"), s.strip_suffix(".rs.html"));
        for t in SAMPLES {
            assert_eq!(same_text(s, t), s == t);
            assert_eq!(starts_with(s, t), s.starts_with(t));
            assert_eq!(ends_with(s, t), s.ends_with(t));
            assert_eq!(eq_ignore_ascii_case(s, t), s.eq_ignore_ascii_case(t));
        }
    }
    assert_eq!(find_text("ÄÖ::b", "::"), Some(2));
    assert!(eq_ignore_ascii_case("HtTp-Ä", "http-Ä"));
    assert!(!eq_ignore_ascii_case("Ä", "ä"));
}

#[test]
fn numbers() {
    for n in [0, 7, 10, 99, 100, 65535, u64::MAX] {
        assert_eq!(to_decimal(n), n.to_string());
    }
    for n in [0, -1, 42, i32::MAX, i32::MIN] {
        assert_eq!(to_signed_decimal(n), n.to_string());
    }
    assert_eq!(align_right("ü", 3), "  ü");
    assert_eq!(align_right("long", 3), "long");
}

#[test]
fn names_stand_in_order() {
    let mut pairs = Vec::new();
    for (name, value) in [("b", "1"), ("a", "2"), ("c", "3"), ("b", "4"), ("", "5"), ("aa", "6")] {
        pairs = insert(pairs, name.into(), value.into());
    }
    let found: Vec<(&str, &str)> = pairs
        .iter()
        .map(|(n, v)| (n.as_str(), v.as_str()))
        .collect();
    assert_eq!(
        found,
        vec![("", "5"), ("a", "2"), ("aa", "6"), ("b", "4"), ("c", "3")]
    );
}

#[test]
fn the_query_of_a_page_does_not_depend_on_the_order_of_the_request() {
    let pair = |n: &str| (n.to_owned(), n.to_uppercase());
    let one = doc_query(Some("x"), &vec![pair("b"), pair("z"), pair("a")]);
    let other = doc_query(Some("x"), &vec![pair("z"), pair("a"), pair("b")]);
    assert_eq!(one, other);
    assert_eq!(one[2], ("search".to_owned(), "x".to_owned()));
    assert!(doc_query(None, &vec![]).is_empty());
}

#[test]
fn formats_of_json() {
    for (text, version) in [
        ("latest", Some(RustdocJsonFormatVersion::Latest)),
        ("0", Some(RustdocJsonFormatVersion::Version(0))),
        ("42", Some(RustdocJsonFormatVersion::Version(42))),
        ("+7", Some(RustdocJsonFormatVersion::Version(7))),
        ("00065535", Some(RustdocJsonFormatVersion::Version(65535))),
        ("65536", None),
        ("4294967296", None),
        ("", None),
        ("+", None),
        ("-1", None),
        ("1a", None),
        ("Latest", None),
    ] {
        assert_eq!(RustdocJsonFormatVersion::parse(text), version, "{text}");
    }
    for version in [
        RustdocJsonFormatVersion::Latest,
        RustdocJsonFormatVersion::Version(0),
        RustdocJsonFormatVersion::Version(65535),
    ] {
        assert_eq!(
            RustdocJsonFormatVersion::parse(&version.to_text()),
            Some(version)
        );
    }
}

#[test]
fn compressions() {
    assert_eq!(CompressionAlgorithm::default(), CompressionAlgorithm::Zstd);
    for (ext, algorithm) in [
        ("zst", Some(CompressionAlgorithm::Zstd)),
        ("bz2", Some(CompressionAlgorithm::Bzip2)),
        ("gz", Some(CompressionAlgorithm::Gzip)),
        ("zip", None),
        ("", None),
    ] {
        assert_eq!(compression_from_file_extension(ext), algorithm);
        if let Some(algorithm) = algorithm {
            assert_eq!(algorithm.file_extension(), ext);
        }
    }
}

#[test]
fn paths_in_the_storage() {
    assert_eq!(
        rustdoc_json_path(
            "krate",
            "1.0.0",
            "target",
            RustdocJsonFormatVersion::Version(3),
            Some(CompressionAlgorithm::Gzip)
        ),
        "rustdoc-json/krate/1.0.0/target/krate_1.0.0_target_3.json.gz"
    );
    assert_eq!(
        rustdoc_json_path("k", "1", "t", RustdocJsonFormatVersion::Latest, None),
        "rustdoc-json/k/1/t/k_1_t_latest.json"
    );
    assert_eq!(rustdoc_archive_path("k", "1.0.0"), "rustdoc/k/1.0.0.zip");
}
