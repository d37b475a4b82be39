use docs_rs::cache::{leaves_caching_to_policy, CachePolicy};
use docs_rs::config::Config;
use docs_rs::file::{max_file_size, File, FileResponse, StreamingFile};
use docs_rs::opentelemetry::{NoopMeter, NoopMeterProvider};

const MAX_SIZE: usize = 1024;
const MAX_HTML_SIZE: usize = 128;

#[test]
fn test_max_size() {
    let config = Config {
        cache_invalidatable_responses: true,
        cache_control_stale_while_revalidate: None,
        max_file_size: MAX_SIZE,
        max_file_size_html: MAX_HTML_SIZE,
        s3_static_root_path: String::new(),
    };
    let fits = |len: usize, path: &str| {
        len <= max_file_size(&format!("rustdoc/dummy/0.1.0/{path}"), &config)
    };

    assert!(fits(MAX_HTML_SIZE / 2, "small.html"));
    assert!(fits(MAX_HTML_SIZE, "exact.html"));
    assert!(fits(MAX_SIZE / 2, "small.js"));
    assert!(fits(MAX_SIZE, "exact.js"));

    assert!(!fits(MAX_HTML_SIZE * 2, "big.html"));
    assert!(!fits(MAX_SIZE * 2, "big.js"));
}

fn file(etag: Option<&str>) -> StreamingFile<u64> {
    StreamingFile {
        mime: "text/css".into(),
        date_updated: 42,
        etag: etag.map(|s| s.to_owned()),
    }
}

#[test]
fn file_roundtrip_axum() {
    let response = File { file: file(None) }.into_response(None);
    assert_eq!(response.status_code(), 200);
    let FileResponse::Content {
        mime,
        last_modified,
        etag,
        cache_policy,
    } = response
    else {
        panic!("no content")
    };
    assert!(matches!(cache_policy, CachePolicy::ForeverInCdnAndBrowser));
    assert_eq!((mime.as_str(), last_modified, etag), ("text/css", 42, None));
}

#[test]
fn files_that_the_client_has() {
    let response = file(Some("\"tag\"")).into_response(Some(false));
    assert_eq!(response.status_code(), 304);
    let FileResponse::NotModified { etag, cache_policy } = response else {
        panic!("content")
    };
    assert_eq!(etag, "\"tag\"");
    assert!(matches!(cache_policy, CachePolicy::ForeverInCdnAndBrowser));
    for (etag, if_none_match) in [
        (Some("\"tag\""), Some(true)),
        (Some("\"tag\""), None),
        (None, Some(false)),
    ] {
        let response = file(etag).into_response(if_none_match);
        assert_eq!(response.status_code(), 200);
    }
}

#[test]
fn caching_is_left_to_the_policy() {
    assert!(leaves_caching_to_policy(false, 200, true));
    assert!(leaves_caching_to_policy(false, 304, true));
    assert!(leaves_caching_to_policy(false, 404, false));
    assert!(!leaves_caching_to_policy(false, 404, true));
    assert!(!leaves_caching_to_policy(false, 302, true));
    assert!(!leaves_caching_to_policy(true, 200, false));
}

#[test]
fn metrics_that_go_nowhere() {
    let provider = NoopMeterProvider::new();
    assert_eq!(
        format!("{:?}", provider.meter()),
        format!("{:?}", NoopMeter::new())
    );
    assert_eq!(
        format!("{:?}", NoopMeterProvider::default()),
        format!("{provider:?}")
    );
    assert_eq!(
        format!("{:?}", NoopMeter::default()),
        format!("{:?}", NoopMeter::new())
    );
}
