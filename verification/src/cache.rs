//! How long responses may be cached, in the CDN and in the browser.
use crate::config::Config;
use crate::decimal::{decimal, digits_value, law_decimal_reads_back, to_decimal};
use crate::header::{
    keys_text, lemma_ascii_header_text, with_key, HeaderValue, SurrogateKeys,
};
use vstd::pervasive::unreached;
use vstd::prelude::*;
use vstd::string::StringExecFns;

verus! {

/// What the caching headers of a response hold.
#[verifier::ext_equal]
pub struct ResponseCacheHeadersText {
    pub cache_control: Option<Seq<char>>,
    pub surrogate_control: Option<Seq<char>>,
    pub surrogate_keys: Option<Seq<Seq<char>>>,
    pub needs_cdn_invalidation: bool,
}

impl ResponseCacheHeadersText {
    /// No caching in the CDN and in the browser. Both may still store a response, and ask every
    /// time whether it is still valid.
    pub open spec fn no_caching() -> Self {
        ResponseCacheHeadersText {
            cache_control: Some("max-age=0"@),
            surrogate_control: None,
            surrogate_keys: None,
            needs_cdn_invalidation: false,
        }
    }

    /// Caching for a short time in the browser and the CDN, against spikes in traffic.
    pub open spec fn short() -> Self {
        ResponseCacheHeadersText {
            cache_control: Some("public, max-age=60"@),
            ..ResponseCacheHeadersText::no_caching()
        }
    }

    /// No caching, and no storing either.
    pub open spec fn no_store_must_revalidate() -> Self {
        ResponseCacheHeadersText {
            cache_control: Some("no-cache, no-store, must-revalidate, max-age=0"@),
            ..ResponseCacheHeadersText::no_caching()
        }
    }

    /// Caching for ever in Fastly, and none in the browser.
    pub open spec fn forever_in_fastly_cdn() -> Self {
        ResponseCacheHeadersText {
            surrogate_control: Some("max-age=31536000"@),
            needs_cdn_invalidation: true,
            ..ResponseCacheHeadersText::no_caching()
        }
    }

    /// Caching for ever in CloudFront: without a maximal age it uses its own, and the browser
    /// sees no caching header.
    pub open spec fn forever_in_cloudfront_cdn() -> Self {
        ResponseCacheHeadersText {
            cache_control: None,
            needs_cdn_invalidation: true,
            ..ResponseCacheHeadersText::no_caching()
        }
    }

    /// Caching for ever in the browser and the CDN, for content that has a name of its own.
    pub open spec fn forever_in_cdn_and_browser() -> Self {
        ResponseCacheHeadersText {
            cache_control: Some("public, max-age=31104000, immutable"@),
            ..ResponseCacheHeadersText::no_caching()
        }
    }

    /// The headers with one more surrogate key.
    pub open spec fn tagged(self, key: Seq<char>) -> Self {
        ResponseCacheHeadersText {
            surrogate_keys: Some(
                with_key(
                    match self.surrogate_keys {
                        Some(keys) => keys,
                        None => Seq::empty(),
                    },
                    key,
                ),
            ),
            ..self
        }
    }

    /// The names and the values of the headers that are set on a response.
    pub open spec fn fields(self) -> Seq<(Seq<char>, Seq<char>)> {
        (match self.cache_control {
            Some(v) => seq![("cache-control"@, v)],
            None => Seq::empty(),
        }) + (match self.surrogate_control {
            Some(v) => seq![("surrogate-control"@, v)],
            None => Seq::empty(),
        }) + (match self.surrogate_keys {
            Some(keys) => seq![("surrogate-key"@, keys_text(keys))],
            None => Seq::empty(),
        })
    }
}

/// The caching headers of a response.
#[derive(Clone, Debug)]
pub struct ResponseCacheHeaders {
    pub cache_control: Option<HeaderValue>,
    pub surrogate_control: Option<HeaderValue>,
    pub surrogate_keys: Option<SurrogateKeys>,
    pub needs_cdn_invalidation: bool,
}

/// What an optional header value holds.
pub open spec fn maybe_header(o: Option<HeaderValue>) -> Option<Seq<char>> {
    match o {
        Some(h) => Some(h@),
        None => None,
    }
}

impl View for ResponseCacheHeaders {
    type V = ResponseCacheHeadersText;

    open spec fn view(&self) -> ResponseCacheHeadersText {
        ResponseCacheHeadersText {
            cache_control: maybe_header(self.cache_control),
            surrogate_control: maybe_header(self.surrogate_control),
            surrogate_keys: match self.surrogate_keys {
                Some(keys) => Some(keys@),
                None => None,
            },
            needs_cdn_invalidation: self.needs_cdn_invalidation,
        }
    }
}

impl PartialEq for ResponseCacheHeaders {
    fn eq(&self, other: &ResponseCacheHeaders) -> (r: bool) {
        let same_keys: bool = match (&self.surrogate_keys, &other.surrogate_keys) {
            (Some(a), Some(b)) => *a == *b,
            (None, None) => true,
            _ => false,
        };
        let same_flag: bool = self.needs_cdn_invalidation == other.needs_cdn_invalidation;
        same_keys && same_flag && same_header(&self.cache_control, &other.cache_control)
            && same_header(&self.surrogate_control, &other.surrogate_control)
    }
}

impl vstd::std_specs::cmp::PartialEqSpecImpl for ResponseCacheHeaders {
    open spec fn obeys_eq_spec() -> bool {
        true
    }

    open spec fn eq_spec(&self, other: &ResponseCacheHeaders) -> bool {
        self@ == other@
    }
}

fn same_header(a: &Option<HeaderValue>, b: &Option<HeaderValue>) -> (r: bool)
    ensures
        r == (maybe_header(*a) == maybe_header(*b)),
{
    match (a, b) {
        (Some(x), Some(y)) => *x == *y,
        (None, None) => true,
        _ => false,
    }
}

impl ResponseCacheHeaders {
    /// Headers that set `Cache-Control` and nothing else.
    fn browser_only(cache_control: HeaderValue) -> (r: ResponseCacheHeaders)
        ensures
            r@ == (ResponseCacheHeadersText {
                cache_control: Some(cache_control@),
                ..ResponseCacheHeadersText::no_caching()
            }),
    {
        ResponseCacheHeaders {
            cache_control: Some(cache_control),
            surrogate_control: None,
            surrogate_keys: None,
            needs_cdn_invalidation: false,
        }
    }

    /// The names and the values of the headers that are set on a response.
    pub fn fields(&self) -> (r: Vec<(&'static str, String)>)
        ensures
            r@.map_values(|f: (&'static str, String)| (f.0@, f.1@)) == self@.fields(),
    {
        let mut out: Vec<(&'static str, String)> = Vec::new();
        let ghost g = |f: (&'static str, String)| (f.0@, f.1@);
        if let Some(value) = &self.cache_control {
            out.push(("cache-control", value.as_str().to_owned()));
        }
        if let Some(value) = &self.surrogate_control {
            out.push(("surrogate-control", value.as_str().to_owned()));
        }
        if let Some(keys) = &self.surrogate_keys {
            out.push(("surrogate-key", keys.to_text()));
        }
        assert(out@.map_values(g) =~= self@.fields());
        out
    }
}

/// No caching in the CDN and in the browser.
pub fn no_caching() -> (r: ResponseCacheHeaders)
    ensures
        r@ == ResponseCacheHeadersText::no_caching(),
{
    proof {
        reveal_strlit("max-age=0");
        lemma_ascii_header_text("max-age=0"@);
    }
    ResponseCacheHeaders::browser_only(HeaderValue::from_static("max-age=0"))
}

/// Caching for a short time in the browser and the CDN.
pub fn short() -> (r: ResponseCacheHeaders)
    ensures
        r@ == ResponseCacheHeadersText::short(),
{
    proof {
        reveal_strlit("public, max-age=60");
        lemma_ascii_header_text("public, max-age=60"@);
    }
    ResponseCacheHeaders::browser_only(HeaderValue::from_static("public, max-age=60"))
}

/// No caching, and no storing either.
pub fn no_store_must_revalidate() -> (r: ResponseCacheHeaders)
    ensures
        r@ == ResponseCacheHeadersText::no_store_must_revalidate(),
{
    proof {
        reveal_strlit("no-cache, no-store, must-revalidate, max-age=0");
        lemma_ascii_header_text("no-cache, no-store, must-revalidate, max-age=0"@);
    }
    ResponseCacheHeaders::browser_only(
        HeaderValue::from_static("no-cache, no-store, must-revalidate, max-age=0"),
    )
}

/// Caching for ever in Fastly, and none in the browser.
pub fn forever_in_fastly_cdn() -> (r: ResponseCacheHeaders)
    ensures
        r@ == ResponseCacheHeadersText::forever_in_fastly_cdn(),
{
    proof {
        reveal_strlit("max-age=31536000");
        lemma_ascii_header_text("max-age=31536000"@);
    }
    ResponseCacheHeaders {
        surrogate_control: Some(HeaderValue::from_static("max-age=31536000")),
        needs_cdn_invalidation: true,
        ..no_caching()
    }
}

/// Caching for ever in CloudFront, and no word to the browser.
pub fn forever_in_cloudfront_cdn() -> (r: ResponseCacheHeaders)
    ensures
        r@ == ResponseCacheHeadersText::forever_in_cloudfront_cdn(),
{
    ResponseCacheHeaders {
        cache_control: None,
        surrogate_control: None,
        surrogate_keys: None,
        needs_cdn_invalidation: true,
    }
}

/// Caching for ever in the browser and the CDN.
pub fn forever_in_cdn_and_browser() -> (r: ResponseCacheHeaders)
    ensures
        r@ == ResponseCacheHeadersText::forever_in_cdn_and_browser(),
{
    proof {
        reveal_strlit("public, max-age=31104000, immutable");
        lemma_ascii_header_text("public, max-age=31104000, immutable"@);
    }
    ResponseCacheHeaders::browser_only(
        HeaderValue::from_static("public, max-age=31104000, immutable"),
    )
}

/// The CDN that a request came through.
#[derive(Clone, Copy, Debug, PartialEq, Eq, Structural)]
pub enum TargetCdn {
    Fastly,
    CloudFront,
}

impl TargetCdn {
    /// The CDN that a request came through: Fastly says so in the header `x-rlng-source-cdn`.
    pub fn from_source_header(has_source_header: bool) -> (r: TargetCdn)
        ensures
            r == (if has_source_header {
                TargetCdn::Fastly
            } else {
                TargetCdn::CloudFront
            }),
    {
        if has_source_header {
            TargetCdn::Fastly
        } else {
            TargetCdn::CloudFront
        }
    }
}

/// What a cache policy says.
#[verifier::ext_equal]
pub enum CachePolicyText {
    NoCaching,
    NoStoreMustRevalidate,
    ShortInCdnAndBrowser,
    ForeverInCdnAndBrowser,
    ForeverInCdn(Seq<Seq<char>>),
    ForeverInCdnAndStaleInBrowser(Seq<Seq<char>>),
}

/// The caching that is wanted for a response.
#[derive(Debug)]
pub enum CachePolicy {
    /// No browser or CDN caching. The browser might still use cached content, for example with
    /// the "back" button or when it cannot connect to the server.
    NoCaching,
    /// No caching, and enforced revalidation, and no storing.
    NoStoreMustRevalidate,
    /// Caching for a short time in the browser and the CDN, where content can be a little
    /// outdated.
    ShortInCdnAndBrowser,
    /// Caching for ever in the browser and the CDN, for names that change with the content.
    ForeverInCdnAndBrowser,
    /// Caching for ever in the CDN, which can be purged by the keys, and none in the browser.
    ForeverInCdn(SurrogateKeys),
    /// Caching for ever in the CDN, and stale content in the browser while it gets the new one.
    ForeverInCdnAndStaleInBrowser(SurrogateKeys),
}

impl View for CachePolicy {
    type V = CachePolicyText;

    open spec fn view(&self) -> CachePolicyText {
        match self {
            CachePolicy::NoCaching => CachePolicyText::NoCaching,
            CachePolicy::NoStoreMustRevalidate => CachePolicyText::NoStoreMustRevalidate,
            CachePolicy::ShortInCdnAndBrowser => CachePolicyText::ShortInCdnAndBrowser,
            CachePolicy::ForeverInCdnAndBrowser => CachePolicyText::ForeverInCdnAndBrowser,
            CachePolicy::ForeverInCdn(keys) => CachePolicyText::ForeverInCdn(keys@),
            CachePolicy::ForeverInCdnAndStaleInBrowser(keys) =>
                CachePolicyText::ForeverInCdnAndStaleInBrowser(keys@),
        }
    }
}

impl Clone for CachePolicy {
    fn clone(&self) -> (r: Self)
        ensures
            r@ == self@,
    {
        match self {
            CachePolicy::NoCaching => CachePolicy::NoCaching,
            CachePolicy::NoStoreMustRevalidate => CachePolicy::NoStoreMustRevalidate,
            CachePolicy::ShortInCdnAndBrowser => CachePolicy::ShortInCdnAndBrowser,
            CachePolicy::ForeverInCdnAndBrowser => CachePolicy::ForeverInCdnAndBrowser,
            CachePolicy::ForeverInCdn(keys) => CachePolicy::ForeverInCdn(keys.clone()),
            CachePolicy::ForeverInCdnAndStaleInBrowser(keys) =>
                CachePolicy::ForeverInCdnAndStaleInBrowser(keys.clone()),
        }
    }
}

/// The headers for caching for ever in the CDN, where that is switched on.
pub open spec fn forever_in_cdn(
    keys: Seq<Seq<char>>,
    enabled: bool,
    target_cdn: TargetCdn,
) -> ResponseCacheHeadersText {
    if !enabled {
        ResponseCacheHeadersText::no_caching()
    } else {
        ResponseCacheHeadersText {
            surrogate_keys: Some(keys),
            ..match target_cdn {
                TargetCdn::Fastly => ResponseCacheHeadersText::forever_in_fastly_cdn(),
                TargetCdn::CloudFront => ResponseCacheHeadersText::forever_in_cloudfront_cdn(),
            }
        }
    }
}

impl CachePolicyText {
    /// The keys that a policy names.
    pub open spec fn keys(self) -> Seq<Seq<char>> {
        match self {
            CachePolicyText::ForeverInCdn(keys) => keys,
            CachePolicyText::ForeverInCdnAndStaleInBrowser(keys) => keys,
            _ => Seq::empty(),
        }
    }

    /// The headers that a policy means, before the key that every response has.
    pub open spec fn headers(
        self,
        enabled: bool,
        stale_seconds: Option<u32>,
        target_cdn: TargetCdn,
    ) -> ResponseCacheHeadersText {
        match self {
            CachePolicyText::NoCaching => ResponseCacheHeadersText::no_caching(),
            CachePolicyText::NoStoreMustRevalidate =>
                ResponseCacheHeadersText::no_store_must_revalidate(),
            CachePolicyText::ShortInCdnAndBrowser => ResponseCacheHeadersText::short(),
            CachePolicyText::ForeverInCdnAndBrowser =>
                ResponseCacheHeadersText::forever_in_cdn_and_browser(),
            CachePolicyText::ForeverInCdn(keys) => forever_in_cdn(keys, enabled, target_cdn),
            CachePolicyText::ForeverInCdnAndStaleInBrowser(keys) => {
                let headers = forever_in_cdn(keys, enabled, target_cdn);
                match stale_seconds {
                    Some(seconds) if enabled => ResponseCacheHeadersText {
                        cache_control: Some(
                            "stale-while-revalidate="@ + decimal(seconds as nat),
                        ),
                        ..headers
                    },
                    _ => headers,
                }
            },
        }
    }

    /// The headers that a policy means. Every response has the key by which everything can be
    /// purged.
    pub open spec fn rendered(self, config: Config, target_cdn: TargetCdn) -> ResponseCacheHeadersText {
        self.headers(
            config.cache_invalidatable_responses,
            config.cache_control_stale_while_revalidate,
            target_cdn,
        ).tagged("all"@)
    }
}

proof fn lemma_decimal_is_digits(n: nat)
    ensures
        forall|i: int| 0 <= i < decimal(n).len() ==> '0' <= #[trigger] decimal(n)[i] <= '9',
    decreases n,
{
    if n >= 10 {
        lemma_decimal_is_digits(n / 10);
        let front = decimal(n / 10);
        assert forall|i: int| 0 <= i < decimal(n).len() implies '0' <= #[trigger] decimal(n)[i]
            <= '9' by {
            if i < front.len() {
                assert(decimal(n)[i] == front[i]);
            }
        }
    }
}

/// Stale content for a number of seconds.
fn stale_while_revalidate(seconds: u32) -> (r: HeaderValue)
    ensures
        r@ == "stale-while-revalidate="@ + decimal(seconds as nat),
{
    let mut text: String = "stale-while-revalidate=".to_owned();
    text.append(to_decimal(seconds as u64).as_str());
    proof {
        reveal_strlit("stale-while-revalidate=");
        lemma_decimal_is_digits(seconds as nat);
        let word = "stale-while-revalidate="@;
        assert forall|i: int| 0 <= i < text@.len() implies ' ' <= #[trigger] text@[i] <= '~' by {
            if i >= word.len() {
                assert(text@[i] == decimal(seconds as nat)[i - word.len()]);
            } else {
                assert(text@[i] == word[i]);
            }
        }
        lemma_ascii_header_text(text@);
    }
    match HeaderValue::parse(text) {
        Ok(value) => value,
        Err(_) => unreached(),
    }
}

fn cached_forever_in_cdn(surrogate_keys: &SurrogateKeys, enabled: bool, target_cdn: TargetCdn) -> (r:
    ResponseCacheHeaders)
    ensures
        r@ == forever_in_cdn(surrogate_keys@, enabled, target_cdn),
{
    if enabled {
        let policy: ResponseCacheHeaders = match target_cdn {
            TargetCdn::Fastly => forever_in_fastly_cdn(),
            TargetCdn::CloudFront => forever_in_cloudfront_cdn(),
        };
        ResponseCacheHeaders { surrogate_keys: Some(surrogate_keys.clone()), ..policy }
    } else {
        no_caching()
    }
}

impl CachePolicy {
    /// The headers that a policy means for a CDN.
    pub fn render(&self, config: &Config, target_cdn: TargetCdn) -> (r: ResponseCacheHeaders)
        ensures
            r@ == self@.rendered(*config, target_cdn),
    {
        let enabled: bool = config.cache_invalidatable_responses;
        let headers: ResponseCacheHeaders = match self {
            CachePolicy::NoCaching => no_caching(),
            CachePolicy::NoStoreMustRevalidate => no_store_must_revalidate(),
            CachePolicy::ShortInCdnAndBrowser => short(),
            CachePolicy::ForeverInCdnAndBrowser => forever_in_cdn_and_browser(),
            CachePolicy::ForeverInCdn(keys) => cached_forever_in_cdn(keys, enabled, target_cdn),
            CachePolicy::ForeverInCdnAndStaleInBrowser(keys) => {
                let in_cdn: ResponseCacheHeaders = cached_forever_in_cdn(keys, enabled, target_cdn);
                match config.cache_control_stale_while_revalidate {
                    Some(seconds) if enabled => ResponseCacheHeaders {
                        cache_control: Some(stale_while_revalidate(seconds)),
                        ..in_cdn
                    },
                    _ => in_cdn,
                }
            },
        };
        let keys: SurrogateKeys = match headers.surrogate_keys {
            Some(keys) => keys,
            None => SurrogateKeys::new(),
        };
        proof {
            reveal_strlit("all");
            lemma_ascii_header_text("all"@);
        }
        ResponseCacheHeaders {
            cache_control: headers.cache_control,
            surrogate_control: headers.surrogate_control,
            surrogate_keys: Some(keys.with(HeaderValue::from_static("all"))),
            needs_cdn_invalidation: headers.needs_cdn_invalidation,
        }
    }
}

/// Whether a response leaves caching to the policy.
pub open spec fn is_left_to_policy(sets_caching_headers: bool, status: u16, has_etag: bool) -> bool {
    !sets_caching_headers && (has_etag ==> status == 304 || 200 <= status < 300)
}

/// Whether a response leaves caching to the policy: a handler sets no caching headers of its own,
/// and only successful and not-modified responses have an etag.
pub fn leaves_caching_to_policy(sets_caching_headers: bool, status: u16, has_etag: bool) -> (r:
    bool)
    ensures
        r == is_left_to_policy(sets_caching_headers, status, has_etag),
{
    !sets_caching_headers && (!has_etag || status == 304 || (200 <= status && status < 300))
}

/// What a policy says, which is no caching where there is none.
pub open spec fn policy_or_none(policy: Option<&CachePolicy>) -> CachePolicyText {
    match policy {
        Some(p) => p@,
        None => CachePolicyText::NoCaching,
    }
}

/// The caching headers of a response. A handler names a policy for its successful responses;
/// a response without one is not cached.
pub fn response_cache_headers(
    policy: Option<&CachePolicy>,
    config: &Config,
    target_cdn: TargetCdn,
) -> (r: ResponseCacheHeaders)
    ensures
        r@ == policy_or_none(policy).rendered(*config, target_cdn),
        r@.surrogate_control is Some ==> target_cdn == TargetCdn::Fastly,
{
    match policy {
        Some(p) => p.render(config, target_cdn),
        None => CachePolicy::NoCaching.render(config, target_cdn),
    }
}

/// Only Fastly is given a `Surrogate-Control` header, which only it understands.
pub proof fn law_surrogate_control_is_for_fastly(
    policy: CachePolicyText,
    config: Config,
    target_cdn: TargetCdn,
)
    ensures
        policy.rendered(config, target_cdn).surrogate_control is Some ==> target_cdn
            == TargetCdn::Fastly,
{
}

/// Every response is tagged with the key by which everything can be purged, and no other tag is
/// lost or added.
pub proof fn law_every_response_is_tagged(
    policy: CachePolicyText,
    config: Config,
    target_cdn: TargetCdn,
)
    ensures
        policy.rendered(config, target_cdn).surrogate_keys is Some,
        forall|key: Seq<char>|
            policy.rendered(config, target_cdn).surrogate_keys.unwrap().contains(key) <==> (key
                == "all"@ || (config.cache_invalidatable_responses && policy.keys().contains(key))),
{
    let before = policy.headers(
        config.cache_invalidatable_responses,
        config.cache_control_stale_while_revalidate,
        target_cdn,
    ).surrogate_keys;
    let own = match before {
        Some(keys) => keys,
        None => Seq::<Seq<char>>::empty(),
    };
    let keys = with_key(own, "all"@);
    if !own.contains("all"@) {
        assert(keys[own.len() as int] == "all"@);
        assert forall|key: Seq<char>| keys.contains(key) <==> (key == "all"@ || own.contains(key)) by {
            if own.contains(key) {
                let i = choose|i: int| 0 <= i < own.len() && own[i] == key;
                assert(keys[i] == key);
            }
            if keys.contains(key) && key != "all"@ {
                let i = choose|i: int| 0 <= i < keys.len() && keys[i] == key;
                assert(own[i] == key);
            }
        }
    }
}

/// Without caching of what would have to be purged, a policy that relies on purging means no
/// caching, and no response asks for a purge.
pub proof fn law_nothing_to_invalidate_when_disabled(
    policy: CachePolicyText,
    config: Config,
    target_cdn: TargetCdn,
)
    requires
        !config.cache_invalidatable_responses,
    ensures
        !policy.rendered(config, target_cdn).needs_cdn_invalidation,
        policy is ForeverInCdn || policy is ForeverInCdnAndStaleInBrowser ==> policy.rendered(
            config,
            target_cdn,
        ) == CachePolicyText::NoCaching.rendered(config, target_cdn),
{
}

/// A response that is cached for ever in the CDN alone may be purged, and no other.
pub proof fn law_invalidation_is_for_forever_in_cdn(
    policy: CachePolicyText,
    config: Config,
    target_cdn: TargetCdn,
)
    ensures
        policy.rendered(config, target_cdn).needs_cdn_invalidation
            <==> config.cache_invalidatable_responses && (policy is ForeverInCdn
            || policy is ForeverInCdnAndStaleInBrowser),
{
}

/// Without a number of seconds for stale content, the two policies that cache for ever in the
/// CDN mean the same.
pub proof fn law_stale_without_seconds_is_forever_in_cdn(
    keys: Seq<Seq<char>>,
    config: Config,
    target_cdn: TargetCdn,
)
    requires
        config.cache_control_stale_while_revalidate is None,
    ensures
        CachePolicyText::ForeverInCdnAndStaleInBrowser(keys).rendered(config, target_cdn)
            == CachePolicyText::ForeverInCdn(keys).rendered(config, target_cdn),
{
}

/// A policy that does not rely on purging means the same for every CDN and with all settings.
pub proof fn law_policies_without_keys_are_the_same_everywhere(
    policy: CachePolicyText,
    config: Config,
    target_cdn: TargetCdn,
    other_config: Config,
    other_cdn: TargetCdn,
)
    requires
        !(policy is ForeverInCdn),
        !(policy is ForeverInCdnAndStaleInBrowser),
    ensures
        policy.rendered(config, target_cdn) == policy.rendered(other_config, other_cdn),
        policy.rendered(config, target_cdn).surrogate_keys == Some(seq!["all"@]),
        policy.rendered(config, target_cdn).cache_control is Some,
        policy.rendered(config, target_cdn).surrogate_control is None,
{
    let none = Seq::<Seq<char>>::empty();
    assert(with_key(none, "all"@) =~= seq!["all"@]);
}

/// Where caching for ever in the CDN is switched on, Fastly is told so in a header of its own and
/// the browser is told not to cache, as without caching. CloudFront is told nothing, so that it
/// caches as it is set up to.
pub proof fn law_forever_in_cdn_is_said_to_fastly(
    keys: Seq<Seq<char>>,
    config: Config,
    target_cdn: TargetCdn,
)
    requires
        config.cache_invalidatable_responses,
    ensures
        ({
            let headers = CachePolicyText::ForeverInCdn(keys).rendered(config, target_cdn);
            let uncached = CachePolicyText::NoCaching.rendered(config, target_cdn);
            &&& headers.surrogate_control is Some <==> target_cdn == TargetCdn::Fastly
            &&& target_cdn == TargetCdn::Fastly ==> headers.cache_control == uncached.cache_control
            &&& target_cdn == TargetCdn::CloudFront ==> headers.cache_control is None
            &&& headers.surrogate_keys == Some(with_key(keys, "all"@))
        }),
{
}

/// A browser may show stale content for as many seconds as are set, and for no other number. In
/// all else the policy is that of caching for ever in the CDN.
pub proof fn law_stale_content_is_shown_for_the_seconds_that_are_set(
    keys: Seq<Seq<char>>,
    config: Config,
    target_cdn: TargetCdn,
)
    requires
        config.cache_invalidatable_responses,
        config.cache_control_stale_while_revalidate is Some,
    ensures
        ({
            let seconds = config.cache_control_stale_while_revalidate.unwrap();
            let headers = CachePolicyText::ForeverInCdnAndStaleInBrowser(keys).rendered(
                config,
                target_cdn,
            );
            let forever = CachePolicyText::ForeverInCdn(keys).rendered(config, target_cdn);
            let word = "stale-while-revalidate="@;
            &&& headers.cache_control matches Some(value) && word.is_prefix_of(value)
                && digits_value(value.skip(word.len() as int)) == seconds
            &&& headers.surrogate_control == forever.surrogate_control
            &&& headers.surrogate_keys == forever.surrogate_keys
            &&& headers.needs_cdn_invalidation == forever.needs_cdn_invalidation
        }),
{
    let seconds = config.cache_control_stale_while_revalidate.unwrap();
    let word = "stale-while-revalidate="@;
    let value = word + decimal(seconds as nat);
    assert(value.take(word.len() as int) =~= word);
    assert(value.skip(word.len() as int) =~= decimal(seconds as nat));
    law_decimal_reads_back(seconds as nat);
}

/// The headers that are set on a response are those that a policy means, each under its own name,
/// and no others.
pub proof fn law_fields_are_the_headers(headers: ResponseCacheHeadersText, value: Seq<char>)
    ensures
        headers.fields().contains(("cache-control"@, value)) <==> headers.cache_control == Some(
            value,
        ),
        headers.fields().contains(("surrogate-control"@, value)) <==> headers.surrogate_control
            == Some(value),
        headers.fields().contains(("surrogate-key"@, value)) <==> headers.surrogate_keys is Some
            && keys_text(headers.surrogate_keys.unwrap()) == value,
        headers.fields().len() == (if headers.cache_control is Some {
            1int
        } else {
            0
        }) + (if headers.surrogate_control is Some {
            1int
        } else {
            0
        }) + (if headers.surrogate_keys is Some {
            1int
        } else {
            0
        }),
{
    reveal_strlit("cache-control");
    reveal_strlit("surrogate-control");
    reveal_strlit("surrogate-key");
    let fields = headers.fields();
    assert("cache-control"@[0] == 'c' && "surrogate-control"@[0] == 's' && "surrogate-key"@[0] == 's');
    assert("surrogate-control"@.len() == 17 && "surrogate-key"@.len() == 13);
    let a = if headers.cache_control is Some {
        1int
    } else {
        0
    };
    let b = if headers.surrogate_control is Some {
        1int
    } else {
        0
    };
    if let Some(v) = headers.cache_control {
        assert(fields[0] == ("cache-control"@, v));
    }
    if let Some(v) = headers.surrogate_control {
        assert(fields[a] == ("surrogate-control"@, v));
    }
    if let Some(keys) = headers.surrogate_keys {
        assert(fields[a + b] == ("surrogate-key"@, keys_text(keys)));
    }
}

/// A handler may set no caching header. It may set an etag for what is not modified and for what
/// is a success, which begins with a two, and for nothing else.
pub proof fn law_etags_are_for_successes(sets_caching_headers: bool, status: u16, has_etag: bool)
    ensures
        sets_caching_headers ==> !is_left_to_policy(sets_caching_headers, status, has_etag),
        !sets_caching_headers && !has_etag ==> is_left_to_policy(
            sets_caching_headers,
            status,
            has_etag,
        ),
        !sets_caching_headers && has_etag ==> (is_left_to_policy(
            sets_caching_headers,
            status,
            has_etag,
        ) <==> status == 304 || status as int / 100 == 2),
{
}

/// A response without a policy is sent like one that must not be cached, and one with a policy as
/// that policy says.
pub proof fn law_responses_without_a_policy_are_not_cached(
    policy: CachePolicy,
    config: Config,
    target_cdn: TargetCdn,
)
    ensures
        policy_or_none(None).rendered(config, target_cdn) == CachePolicyText::NoCaching.rendered(
            config,
            target_cdn,
        ),
        policy_or_none(Some(&policy)).rendered(config, target_cdn) == policy@.rendered(
            config,
            target_cdn,
        ),
        !policy_or_none(None).rendered(config, target_cdn).needs_cdn_invalidation,
{
}

} // verus!
