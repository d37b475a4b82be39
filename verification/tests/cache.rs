use axum_extra::headers::{CacheControl, Header};
use docs_rs::cache::{
    forever_in_cdn_and_browser, forever_in_cloudfront_cdn, forever_in_fastly_cdn, no_caching,
    no_store_must_revalidate, response_cache_headers, short, CachePolicy, TargetCdn,
};
use docs_rs::config::Config;
use docs_rs::header::{HeaderError, HeaderValue, SurrogateKeys};

fn base_config() -> Config {
    Config {
        cache_invalidatable_responses: true,
        cache_control_stale_while_revalidate: Some(86400),
        max_file_size: 50 * 1024 * 1024,
        max_file_size_html: 50 * 1024 * 1024,
        s3_static_root_path: "https://static.docs.rs".into(),
    }
}

fn value(s: &str) -> HeaderValue {
    HeaderValue::parse(s.to_owned()).unwrap()
}

fn keys() -> SurrogateKeys {
    SurrogateKeys::from_key(value("something"))
}

fn policies() -> Vec<CachePolicy> {
    vec![
        CachePolicy::NoCaching,
        CachePolicy::NoStoreMustRevalidate,
        CachePolicy::ShortInCdnAndBrowser,
        CachePolicy::ForeverInCdnAndBrowser,
        CachePolicy::ForeverInCdn(keys()),
        CachePolicy::ForeverInCdnAndStaleInBrowser(keys()),
    ]
}

#[test]
fn test_const_response_consistency() {
    assert_eq!(
        forever_in_fastly_cdn().cache_control,
        no_caching().cache_control
    );
    assert!(forever_in_cloudfront_cdn().cache_control.is_none());
}

#[test]
fn test_validate_header_syntax_for_all_possible_combinations() {
    for enabled in [true, false] {
        for stale in [Some(86400), None] {
            let config = Config {
                cache_invalidatable_responses: enabled,
                cache_control_stale_while_revalidate: stale,
                ..base_config()
            };
            for policy in policies() {
                for target_cdn in [TargetCdn::Fastly, TargetCdn::CloudFront] {
                    let headers = policy.render(&config, target_cdn);
                    for control in [headers.cache_control, headers.surrogate_control] {
                        let Some(control) = control else { continue };
                        let raw = http::HeaderValue::from_str(control.as_str()).unwrap();
                        assert!(!raw.as_bytes().is_empty());
                        let parsed = CacheControl::decode(&mut std::iter::once(&raw)).unwrap();
                        let mut rendered = Vec::new();
                        parsed.encode(&mut rendered);
                        let again = CacheControl::decode(&mut rendered.iter()).unwrap();
                        assert_eq!(parsed, again);
                    }
                }
            }
        }
    }
}

#[test]
fn test_render() {
    for (policy, cache_control) in [
        (CachePolicy::NoCaching, "max-age=0"),
        (
            CachePolicy::NoStoreMustRevalidate,
            "no-cache, no-store, must-revalidate, max-age=0",
        ),
        (
            CachePolicy::ForeverInCdnAndBrowser,
            "public, max-age=31104000, immutable",
        ),
    ] {
        let headers = policy.render(&base_config(), TargetCdn::CloudFront);
        assert_eq!(headers.cache_control, Some(value(cache_control)));
        assert!(headers.surrogate_control.is_none());
    }
}

#[test]
fn test_render_short() {
    let headers = CachePolicy::ShortInCdnAndBrowser.render(&base_config(), TargetCdn::Fastly);
    assert_eq!(headers.cache_control, Some(value("public, max-age=60")));
    assert_eq!(headers.cache_control, short().cache_control);
    assert!(!headers.needs_cdn_invalidation);
}

#[test]
fn test_render_cache_in_cdn_with_surrogate_keys() {
    let headers =
        CachePolicy::ForeverInCdn(keys()).render(&base_config(), TargetCdn::CloudFront);

    assert!(headers.cache_control.is_none());
    assert!(headers.surrogate_control.is_none());
}

#[test]
fn test_render_cache_in_cdn_stale_browser_with_surrogate_keys() {
    let headers = CachePolicy::ForeverInCdnAndStaleInBrowser(keys())
        .render(&base_config(), TargetCdn::CloudFront);

    assert_eq!(
        headers.cache_control,
        Some(value("stale-while-revalidate=86400"))
    );
    assert!(headers.surrogate_control.is_none());
}

#[test]
fn render_stale_without_config() {
    let config = Config {
        cache_control_stale_while_revalidate: None,
        ..base_config()
    };

    let headers = CachePolicy::ForeverInCdnAndStaleInBrowser(keys())
        .render(&config, TargetCdn::CloudFront);
    assert!(headers.cache_control.is_none());
    assert!(headers.surrogate_control.is_none());
}

#[test]
fn render_stale_with_config() {
    let config = Config {
        cache_control_stale_while_revalidate: Some(666),
        ..base_config()
    };

    let headers = CachePolicy::ForeverInCdnAndStaleInBrowser(keys())
        .render(&config, TargetCdn::CloudFront);
    assert_eq!(
        headers.cache_control.unwrap().as_str(),
        "stale-while-revalidate=666"
    );
    assert!(headers.surrogate_control.is_none());
}

#[test]
fn render_forever_in_cdn_disabled() {
    let config = Config {
        cache_invalidatable_responses: false,
        ..base_config()
    };

    let headers = CachePolicy::ForeverInCdn(keys()).render(&config, TargetCdn::CloudFront);
    assert_eq!(headers.cache_control.unwrap().as_str(), "max-age=0");
    assert!(headers.surrogate_control.is_none());
}

#[test]
fn render_forever_in_cdn_or_stale_disabled() {
    let config = Config {
        cache_invalidatable_responses: false,
        ..base_config()
    };

    let headers = CachePolicy::ForeverInCdnAndStaleInBrowser(keys())
        .render(&config, TargetCdn::CloudFront);
    assert_eq!(headers.cache_control.unwrap().as_str(), "max-age=0");
    assert!(headers.surrogate_control.is_none());
}

#[test]
fn render_fastly() {
    for (policy, cache_control) in [
        (CachePolicy::NoCaching, "max-age=0"),
        (
            CachePolicy::NoStoreMustRevalidate,
            "no-cache, no-store, must-revalidate, max-age=0",
        ),
        (
            CachePolicy::ForeverInCdnAndBrowser,
            "public, max-age=31104000, immutable",
        ),
    ] {
        let headers = policy.render(&base_config(), TargetCdn::Fastly);
        assert_eq!(headers.cache_control, Some(value(cache_control)));
        assert_eq!(headers.surrogate_control, None);
    }
}

#[test]
fn render_fastly_forever_in_cdn() {
    let headers = CachePolicy::ForeverInCdn(keys()).render(&base_config(), TargetCdn::Fastly);

    assert_eq!(headers.cache_control, Some(value("max-age=0")));
    assert_eq!(headers.surrogate_control, Some(value("max-age=31536000")));
}

#[test]
fn render_fastly_forever_in_cdn_stale_in_browser() {
    let headers = CachePolicy::ForeverInCdnAndStaleInBrowser(keys())
        .render(&base_config(), TargetCdn::Fastly);

    assert_eq!(
        headers.cache_control,
        Some(value("stale-while-revalidate=86400"))
    );
    assert_eq!(headers.surrogate_control, Some(value("max-age=31536000")));
}

#[test]
fn render_stale_without_config_fastly() {
    let config = Config {
        cache_control_stale_while_revalidate: None,
        ..base_config()
    };

    let mut headers = CachePolicy::ForeverInCdnAndStaleInBrowser(keys())
        .render(&config, TargetCdn::Fastly);

    assert_eq!(
        headers.surrogate_keys.take().unwrap(),
        keys().with(value("all"))
    );
    assert_eq!(headers, forever_in_fastly_cdn());
}

#[test]
fn render_stale_with_config_fastly() {
    let config = Config {
        cache_control_stale_while_revalidate: Some(666),
        ..base_config()
    };

    let headers = CachePolicy::ForeverInCdnAndStaleInBrowser(keys())
        .render(&config, TargetCdn::Fastly);
    assert_eq!(
        headers.cache_control.unwrap().as_str(),
        "stale-while-revalidate=666"
    );
    assert_eq!(
        headers.surrogate_control,
        forever_in_fastly_cdn().surrogate_control
    );
}

#[test]
fn render_forever_in_cdn_disabled_fastly() {
    let config = Config {
        cache_invalidatable_responses: false,
        ..base_config()
    };

    let headers = CachePolicy::ForeverInCdn(keys()).render(&config, TargetCdn::Fastly);
    assert_eq!(headers.cache_control.unwrap().as_str(), "max-age=0");
    assert!(headers.surrogate_control.is_none());
}

#[test]
fn render_forever_in_cdn_or_stale_disabled_fastly() {
    let config = Config {
        cache_invalidatable_responses: false,
        ..base_config()
    };

    let headers = CachePolicy::ForeverInCdnAndStaleInBrowser(keys())
        .render(&config, TargetCdn::Fastly);
    assert_eq!(headers.cache_control.unwrap().as_str(), "max-age=0");
    assert!(headers.surrogate_control.is_none());
}

#[test]
fn surrogate_control_is_for_fastly_only() {
    for policy in policies() {
        assert!(policy
            .render(&base_config(), TargetCdn::CloudFront)
            .surrogate_control
            .is_none());
    }
}

#[test]
fn every_response_has_the_key_for_everything() {
    for policy in policies() {
        let headers = policy.render(&base_config(), TargetCdn::Fastly);
        let keys = headers.surrogate_keys.unwrap().to_text();
        assert!(keys.split(' ').any(|k| k == "all"), "{keys}");
    }
}

#[test]
fn keys_are_listed_once() {
    let keys = SurrogateKeys::from_key(value("all"))
        .with(value("krate"))
        .with(value("all"));
    assert_eq!(keys.to_text(), "all krate");
    assert_eq!(
        CachePolicy::ForeverInCdn(keys)
            .render(&base_config(), TargetCdn::Fastly)
            .surrogate_keys
            .unwrap()
            .to_text(),
        "all krate"
    );
}

#[test]
fn invalidation_is_needed_for_forever_in_cdn_only() {
    for policy in policies() {
        let forever_in_cdn = matches!(
            policy,
            CachePolicy::ForeverInCdn(_) | CachePolicy::ForeverInCdnAndStaleInBrowser(_)
        );
        let headers = policy.render(&base_config(), TargetCdn::CloudFront);
        assert_eq!(headers.needs_cdn_invalidation, forever_in_cdn);
        let disabled = Config {
            cache_invalidatable_responses: false,
            ..base_config()
        };
        assert!(!policy.render(&disabled, TargetCdn::CloudFront).needs_cdn_invalidation);
    }
}

#[test]
fn fields_of_a_response() {
    let headers = CachePolicy::ForeverInCdn(keys()).render(&base_config(), TargetCdn::Fastly);
    assert_eq!(
        headers.fields(),
        vec![
            ("cache-control", "max-age=0".to_owned()),
            ("surrogate-control", "max-age=31536000".to_owned()),
            ("surrogate-key", "something all".to_owned()),
        ]
    );
    assert!(forever_in_cloudfront_cdn().fields().is_empty());
    assert_eq!(
        no_store_must_revalidate().fields(),
        vec![(
            "cache-control",
            "no-cache, no-store, must-revalidate, max-age=0".to_owned()
        )]
    );
    assert_eq!(forever_in_cdn_and_browser().fields().len(), 1);
}

#[test]
fn responses_without_a_policy_are_not_cached() {
    let headers = response_cache_headers(None, &base_config(), TargetCdn::Fastly);
    assert_eq!(headers.cache_control, no_caching().cache_control);
    let policy = CachePolicy::ForeverInCdn(keys());
    let headers = response_cache_headers(Some(&policy), &base_config(), TargetCdn::Fastly);
    assert_eq!(headers, policy.render(&base_config(), TargetCdn::Fastly));
}

#[test]
fn the_source_header_tells_the_cdn() {
    assert_eq!(TargetCdn::from_source_header(true), TargetCdn::Fastly);
    assert_eq!(TargetCdn::from_source_header(false), TargetCdn::CloudFront);
}

#[test]
fn header_values_hold_no_control_characters() {
    assert_eq!(value("a b\tc").as_str(), "a b\tc");
    assert_eq!(value("ä").as_str(), "ä");
    assert_eq!(HeaderValue::parse("a\nb".into()), Err(HeaderError::Invalid));
    assert_eq!(HeaderValue::parse("\u{7f}".into()), Err(HeaderError::Invalid));
}
