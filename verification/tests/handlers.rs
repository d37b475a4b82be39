use docs_rs::cache::{CachePolicy, TargetCdn};
use docs_rs::config::Config;
use docs_rs::downloads::{
    archive_access_failed, badge_redirect, locate_archive, redirect_to_badge, static_asset_path, ArchiveEvent,
    ArchiveState, JsonEvent, JsonRequest, JsonState,
};
use docs_rs::error::{Answer, AxumNope, Failure};
use docs_rs::escaped_uri::EscapedURI;
use docs_rs::header::{HeaderValue, SurrogateKeys};
use docs_rs::percent::encode_url_path;
use docs_rs::redirection::Redirection;
use docs_rs::redirector::{RedirectorEvent, RedirectorRequest, RedirectorState};
use docs_rs::release::{CrateDetails, MatchedRelease, Release};
use docs_rs::rustdoc_page::{
    is_documentation_root, FileStep, HtmlEvent, HtmlRequest, HtmlState, LatestRelease, RustdocPage,
};
use docs_rs::rustdoc_params::{MetaData, RustdocParams};
use docs_rs::rustdoc_path::get_file_extension;
use docs_rs::target_redirect::{
    path_for_version, TargetRedirectEvent, TargetRedirectRequest, TargetRedirectState,
};
use docs_rs::uri::Uri;
use docs_rs::version::{ReqVersion, Version};

const HOST: &str = "x86_64-unknown-linux-gnu";

#[derive(Clone)]
struct Fake {
    name: String,
    version: String,
    default_target: String,
    targets: Vec<String>,
    files: Vec<String>,
    has_docs: bool,
    build_succeeded: bool,
    yanked: bool,
    archive: bool,
}

fn fake(name: &str, version: &str) -> Fake {
    Fake {
        name: name.into(),
        version: version.into(),
        default_target: HOST.into(),
        targets: vec![HOST.into()],
        files: vec![format!("{}/index.html", name.replace('-', "_"))],
        has_docs: true,
        build_succeeded: true,
        yanked: false,
        archive: true,
    }
}

impl Fake {
    fn file(mut self, path: &str) -> Fake {
        self.files.push(path.into());
        self
    }
    fn target(mut self, target: &str) -> Fake {
        self.targets.push(target.into());
        let index = format!("{target}/{}/index.html", self.name.replace('-', "_"));
        self.files.push(index);
        self
    }
    fn default_target(mut self, target: &str) -> Fake {
        self.default_target = target.into();
        self.targets = vec![target.into()];
        self
    }
    fn failed(mut self) -> Fake {
        self.has_docs = false;
        self.build_succeeded = false;
        self
    }
    fn binary(mut self) -> Fake {
        self.has_docs = false;
        self
    }
    fn yanked(mut self) -> Fake {
        self.yanked = true;
        self
    }
    fn without_archive(mut self) -> Fake {
        self.archive = false;
        self
    }
    fn semver(&self) -> semver::Version {
        semver::Version::parse(&self.version).unwrap()
    }
}

/// What a request is answered.
#[derive(Debug)]
enum Response {
    Redirect(u16, String, CachePolicy),
    Page(RustdocPage),
    File(String),
    Error(u16, String),
}

impl Response {
    fn status(&self) -> u16 {
        match self {
            Response::Redirect(status, _, _) => *status,
            Response::Page(_) | Response::File(_) => 200,
            Response::Error(status, _) => *status,
        }
    }
    fn location(&self) -> &str {
        match self {
            Response::Redirect(_, location, _) => location,
            other => panic!("no redirect: {other:?}"),
        }
    }
    fn page(&self) -> &RustdocPage {
        match self {
            Response::Page(page) => page,
            other => panic!("no page: {other:?}"),
        }
    }
    fn policy(&self) -> CachePolicy {
        match self {
            Response::Redirect(_, _, policy) => policy.clone(),
            Response::Page(page) => page.head(&keys()).cache_policy,
            Response::File(_) => CachePolicy::ForeverInCdnAndBrowser,
            Response::Error(_, _) => CachePolicy::NoCaching,
        }
    }
    fn is_forever_in_cdn(&self) -> bool {
        matches!(self.policy(), CachePolicy::ForeverInCdn(_))
    }
    fn is_stale_in_browser(&self) -> bool {
        matches!(self.policy(), CachePolicy::ForeverInCdnAndStaleInBrowser(_))
    }
}

fn keys() -> SurrogateKeys {
    SurrogateKeys::from_key(HeaderValue::parse("krate".into()).unwrap())
}

/// A site with some releases, whose requests are answered by the library.
#[derive(Default)]
struct Site {
    releases: Vec<Fake>,
    /// What lies at the root of the storage.
    root: Vec<String>,
    /// The JSON files in the storage.
    json: Vec<String>,
}

type Handled = Result<Response, AxumNope>;

fn decoded(s: &str) -> String {
    docs_rs::percent::url_decode(s).unwrap()
}

fn same_crate(a: &str, b: &str) -> bool {
    a.replace('-', "_") == b.replace('-', "_")
}

fn redirect(to: Redirection) -> Handled {
    match to.location() {
        Ok(uri) => Err(AxumNope::Redirect(EscapedURI::from_uri(uri), to.cache_policy)),
        Err(_) => Err(AxumNope::InternalError("error parsing URL".into())),
    }
}

impl Site {
    fn with(releases: Vec<Fake>) -> Site {
        Site {
            releases,
            ..Site::default()
        }
    }

    fn config(&self) -> Config {
        Config {
            cache_invalidatable_responses: true,
            cache_control_stale_while_revalidate: Some(86400),
            max_file_size: 1024,
            max_file_size_html: 128,
            s3_static_root_path: "https://static.docs.rs".into(),
        }
    }

    fn newest(&self, name: &str) -> Option<&Fake> {
        let mut all: Vec<&Fake> = self.releases.iter().filter(|r| r.name == name).collect();
        all.sort_by_key(|r| r.semver());
        all.iter().rev().find(|r| !r.yanked).copied()
    }

    fn match_version(&self, name: &str, req: &ReqVersion) -> Result<MatchedRelease, AxumNope> {
        let krate = self
            .releases
            .iter()
            .find(|r| r.name == name)
            .or_else(|| self.releases.iter().find(|r| same_crate(&r.name, name)))
            .ok_or(AxumNope::CrateNotFound)?;
        let found = match req {
            ReqVersion::Exact(v) => self
                .releases
                .iter()
                .find(|r| r.name == krate.name && r.version == v.to_text()),
            ReqVersion::Latest => self.newest(&krate.name),
            ReqVersion::Semver(req) => {
                let req = semver::VersionReq::parse(req).unwrap();
                let mut all: Vec<&Fake> = self
                    .releases
                    .iter()
                    .filter(|r| r.name == krate.name && !r.yanked && req.matches(&r.semver()))
                    .collect();
                all.sort_by_key(|r| r.semver());
                all.last().copied()
            }
        }
        .ok_or(AxumNope::VersionNotFound)?;
        Ok(MatchedRelease {
            name: name.to_owned(),
            corrected_name: (krate.name != name).then_some(krate.name.clone()),
            req_version: req.clone(),
            release: Release {
                version: Version::parse(&found.version).unwrap(),
                build_succeeded: found.build_succeeded,
                rustdoc_status: found.has_docs,
                target_name: found.has_docs.then_some(found.name.replace('-', "_")),
            },
        })
    }

    fn find(&self, release: &MatchedRelease) -> &Fake {
        let version = release.release.version.to_text();
        self.releases
            .iter()
            .find(|r| same_crate(&r.name, &release.name) && r.version == version)
            .unwrap()
    }

    fn details(&self, release: &MatchedRelease) -> CrateDetails {
        let found = self.find(release);
        CrateDetails {
            name: found.name.clone(),
            version: Version::parse(&found.version).unwrap(),
            target_name: found.has_docs.then_some(found.name.replace('-', "_")),
            metadata: MetaData {
                default_target: found.has_docs.then_some(found.default_target.clone()),
                target_name: found.has_docs.then_some(found.name.replace('-', "_")),
                doc_targets: Some(found.targets.clone()),
            },
        }
    }

    fn get(&self, url: &str) -> Response {
        match self.handle(url) {
            Ok(response) => response,
            Err(nope) => match nope.into_answer() {
                Answer::Redirect(to) => {
                    Response::Redirect(302, to.location.as_str().to_owned(), to.cache_policy)
                }
                Answer::ErrorPage(info) => Response::Error(info.status, info.title.to_owned()),
                Answer::EmptySearch(title, status) => Response::Error(status, title.to_owned()),
            },
        }
    }

    fn handle(&self, url: &str) -> Handled {
        let uri = Uri::parse(url).unwrap();
        let parts: Vec<String> = uri.path().split('/').skip(1).map(decoded).collect();
        let parts: Vec<&str> = parts.iter().map(|s| s.as_str()).collect();
        let version = |s: &str| match ReqVersion::parse(s) {
            Ok(v) => Ok(v),
            Err(_) => Err(AxumNope::BadRequest("invalid version".into())),
        };
        match parts.as_slice() {
            ["crate", name, v, "target-redirect", path @ ..] => {
                if path.is_empty() {
                    return Err(AxumNope::ResourceNotFound);
                }
                self.target_redirect(name, version(v)?, &path.join("/"))
            }
            ["crate", name, v, "download"] => self.download(name, version(v)?),
            ["crate", name, v, rest @ ..]
                if rest.iter().any(|s| *s == "json" || s.starts_with("json.")) =>
            {
                self.json(name, version(v)?, rest, uri.path())
            }
            [_, "badge.svg"] => {
                let to = badge_redirect(parts[0], None)?;
                Ok(Response::Redirect(to.status, to.location, to.cache_policy))
            }
            [name] | [name, ""] => self.redirector(name, None, None, &uri),
            [name, v] | [name, v, ""] => self.redirector(name, Some(version(v)?), None, &uri),
            [name, v, page]
                if !matches!(
                    *page,
                    "help.html" | "settings.html" | "all.html" | "scrape-examples-help.html"
                ) =>
            {
                self.redirector(name, Some(version(v)?), Some(page), &uri)
            }
            [name, v, ..] => self.html(name, version(v)?, &uri),
            [] => panic!("no path"),
        }
    }

    fn redirector(
        &self,
        name: &str,
        version: Option<ReqVersion>,
        target: Option<&str>,
        uri: &Uri,
    ) -> Handled {
        let request = RedirectorRequest {
            name: name.to_owned(),
            version,
            target: target.map(|t| t.to_owned()),
            uri_path: uri.path().to_owned(),
            query: uri.query().map(|q| q.to_owned()),
            query_pairs: url::form_urlencoded::parse(uri.query().unwrap_or("").as_bytes())
                .into_owned()
                .collect(),
        };
        let mut state = RedirectorState::start(request, &keys());
        let mut served = String::new();
        let found = |files: &[String], path: &str| match files.iter().any(|f| f == path) {
            true => RedirectorEvent::FileFound,
            false => RedirectorEvent::FileFailed(Failure::PathNotFound),
        };
        loop {
            let event = match &state {
                RedirectorState::MatchRelease {
                    crate_name,
                    version,
                    ..
                } => RedirectorEvent::Release(self.match_version(crate_name, version)),
                RedirectorState::FetchCrateAsset { release, path } => {
                    served = path.clone();
                    found(&self.find(release).files, path)
                }
                RedirectorState::FetchLegacyAsset { path } => {
                    served = path.clone();
                    found(&self.root, path)
                }
                _ => break,
            };
            state = state.proceed(event, &keys());
        }
        match state {
            RedirectorState::Redirect(to) => redirect(to),
            RedirectorState::Fail(nope) => Err(nope),
            RedirectorState::ServeFile => Ok(Response::File(served)),
            other => panic!("no answer: {other:?}"),
        }
    }

    fn html(&self, name: &str, version: ReqVersion, uri: &Uri) -> Handled {
        let mut state = HtmlState::start(name.to_owned(), version, uri);
        let mut files: &[String] = &[];
        let mut served = String::new();
        loop {
            let event = match &state {
                HtmlState::MatchRelease { request } => {
                    HtmlEvent::Release(self.match_version(&request.name, &request.version))
                }
                HtmlState::LoadDetails { release, .. } => {
                    files = &self.find(release).files;
                    HtmlEvent::Details(Ok(self.details(release)))
                }
                HtmlState::FetchFile { file, .. } => {
                    served = file.storage_path.clone();
                    match files.contains(&file.storage_path) {
                        true => HtmlEvent::FileFound,
                        false => HtmlEvent::FileMissing,
                    }
                }
                HtmlState::CheckIndex { index_path, .. } => {
                    HtmlEvent::Index(Ok(files.contains(index_path)))
                }
                HtmlState::LoadLatest { krate, .. } => {
                    let newest = self.newest(&krate.name).unwrap();
                    HtmlEvent::Latest(Ok(LatestRelease {
                        version: Version::parse(&newest.version).unwrap(),
                        build_succeeded: newest.build_succeeded,
                    }))
                }
                _ => break,
            };
            state = state.proceed(event, &keys());
        }
        match state {
            HtmlState::Redirect(to) => redirect(to),
            HtmlState::Fail(nope) => Err(nope),
            HtmlState::ServeFile => Ok(Response::File(served)),
            HtmlState::ServePage(page, _) => Ok(Response::Page(page)),
            other => panic!("no answer: {other:?}"),
        }
    }

    fn target_redirect(&self, name: &str, version: ReqVersion, path: &str) -> Handled {
        let mut state = TargetRedirectState::MatchRelease {
            request: TargetRedirectRequest {
                name: name.to_owned(),
                req_version: version,
                req_path: path.to_owned(),
            },
        };
        let mut files: &[String] = &[];
        loop {
            let event = match &state {
                TargetRedirectState::MatchRelease { request } => TargetRedirectEvent::Release(
                    self.match_version(&request.name, &request.req_version),
                ),
                TargetRedirectState::LoadDetails { release, .. } => {
                    files = &self.find(release).files;
                    TargetRedirectEvent::Details(Ok(self.details(release)))
                }
                TargetRedirectState::CheckFile { location, .. } => {
                    TargetRedirectEvent::Exists(Ok(files.contains(location)))
                }
                _ => break,
            };
            state = state.proceed(event, &keys());
        }
        match state {
            TargetRedirectState::Redirect(to) => redirect(to),
            TargetRedirectState::Fail(nope) => Err(nope),
            other => panic!("no answer: {other:?}"),
        }
    }

    fn download(&self, name: &str, version: ReqVersion) -> Handled {
        let root = self.config().s3_static_root_path;
        let mut state = ArchiveState::MatchRelease {
            name: name.to_owned(),
            version,
        };
        let mut public = Err(Failure::PathNotFound);
        loop {
            let event = match &state {
                ArchiveState::MatchRelease { name, version } => {
                    let release = self.match_version(name, version);
                    if let Ok(release) = &release {
                        if self.find(release).archive {
                            public = Ok(false);
                        }
                    }
                    ArchiveEvent::Release(release)
                }
                ArchiveState::ReadAccess { .. } => {
                    ArchiveEvent::IsPublic(std::mem::replace(&mut public, Ok(true)))
                }
                ArchiveState::SetPublic { .. } => ArchiveEvent::MadePublic(Ok(())),
                _ => break,
            };
            state = state.proceed(event, &root, &keys());
        }
        match state {
            ArchiveState::Redirect(to) => redirect(to),
            ArchiveState::Fail(nope) => Err(nope),
            other => panic!("no answer: {other:?}"),
        }
    }

    fn json(&self, name: &str, version: ReqVersion, rest: &[&str], uri_path: &str) -> Handled {
        let root = self.config().s3_static_root_path;
        let extension = get_file_extension(uri_path)
            .filter(|e| e.chars().next().is_some_and(|c| c.is_ascii_alphabetic()));
        let at = rest
            .iter()
            .position(|s| *s == "json" || s.starts_with("json."))
            .unwrap();
        let request = JsonRequest {
            name: name.to_owned(),
            version,
            target: (at == 1).then(|| rest[0].to_owned()),
            format_version: rest.get(at + 1).map(|s| s.to_string()),
        };
        let mut state = JsonState::start(request, extension);
        loop {
            let event = match &state {
                JsonState::MatchRelease { request, .. } => {
                    JsonEvent::Release(self.match_version(&request.name, &request.version))
                }
                JsonState::LoadDetails { release, .. } => {
                    JsonEvent::Details(Ok(self.details(release)))
                }
                JsonState::CheckFile { files } => {
                    JsonEvent::Exists(Ok(self.json.contains(&files.path)))
                }
                JsonState::CheckFallback { path } => {
                    JsonEvent::Exists(Ok(self.json.contains(path)))
                }
                _ => break,
            };
            state = state.proceed(event, &root, &keys());
        }
        match state {
            JsonState::Redirect(to) => redirect(to),
            JsonState::Fail(nope) => Err(nope),
            other => panic!("no answer: {other:?}"),
        }
    }

    fn assert_redirect(&self, url: &str, location: &str) -> Response {
        let response = self.get(url);
        assert_eq!(response.location(), location, "{url}");
        assert!(self.get(location).status() < 400, "{location}");
        response
    }

    fn assert_redirect_unchecked(&self, url: &str, location: &str) -> Response {
        let response = self.get(url);
        assert_eq!(response.location(), location, "{url}");
        response
    }

    fn latest_version_redirect(&self, url: &str) -> String {
        let response = self.get(url);
        assert!(response.is_stale_in_browser());
        let link = response.page().latest_path.clone();
        let target = self.get(&link);
        if link.contains("/target-redirect/") {
            assert!(target.is_forever_in_cdn());
        }
        link
    }
}

#[test]
fn help_html() {
    let site = Site::with(vec![fake("krate", "0.1.0").file("help.html")]);
    assert!(site.get("/krate/0.1.0/help.html").is_stale_in_browser());
    assert_eq!(site.get("/krate/0.1.0/help.html").page().inner_path, "help.html");
}

#[test]
fn settings_html() {
    let site = Site::with(vec![
        fake("buggy", "0.1.0")
            .file("settings.html")
            .file("scrape-examples-help.html")
            .file("directory_1/index.html")
            .file("directory_2.html/index.html")
            .file("all.html")
            .file("directory_3/.gitignore")
            .file("directory_4/empty_file_no_ext"),
        fake("buggy", "0.2.0").failed(),
    ]);
    for path in [
        "/buggy/0.1.0/directory_1/index.html",
        "/buggy/0.1.0/directory_2.html/index.html",
        "/buggy/0.1.0/settings.html",
        "/buggy/0.1.0/scrape-examples-help.html",
        "/buggy/0.1.0/all.html",
    ] {
        assert!(site.get(path).is_stale_in_browser(), "{path}");
    }
    for path in [
        "/buggy/0.1.0/directory_3/.gitignore",
        "/buggy/0.1.0/directory_4/empty_file_no_ext",
    ] {
        let response = site.get(path);
        assert!(matches!(response, Response::File(_)));
        assert!(matches!(
            response.policy(),
            CachePolicy::ForeverInCdnAndBrowser
        ));
    }
}

#[test]
fn default_target_redirects_to_base() {
    let mut site = Site::with(vec![fake("dummy", "0.1.0")]);
    // no explicit default-target
    let base = "/dummy/0.1.0/dummy/";
    assert!(site.get(base).is_stale_in_browser());
    assert!(site
        .assert_redirect("/dummy/0.1.0/x86_64-unknown-linux-gnu/dummy/", base)
        .is_forever_in_cdn());
    assert_eq!(site.get("/dummy/latest/dummy/").status(), 200);

    // an explicit target that requires cross-compile
    site.releases
        .push(fake("dummy", "0.2.0").default_target("x86_64-pc-windows-msvc"));
    let base = "/dummy/0.2.0/dummy/";
    assert_eq!(site.get(base).status(), 200);
    site.assert_redirect("/dummy/0.2.0/x86_64-pc-windows-msvc/dummy/", base);

    // an explicit target without cross-compile
    site.releases
        .push(fake("dummy", "0.3.0").file("all.html").default_target(HOST));
    let base = "/dummy/0.3.0/dummy/";
    assert_eq!(site.get(base).status(), 200);
    site.assert_redirect("/dummy/0.3.0/x86_64-unknown-linux-gnu/dummy/", base);
    site.assert_redirect(
        "/dummy/0.3.0/x86_64-unknown-linux-gnu/all.html",
        "/dummy/0.3.0/all.html",
    );
    site.assert_redirect("/dummy/0.3.0/", base);
    site.assert_redirect("/dummy/0.3.0/index.html", base);
}

#[test]
fn latest_url() {
    let site = Site::with(vec![fake("dummy", "0.1.0")]);
    let response = site.get("/dummy/latest/dummy/");
    assert_eq!(response.status(), 200);
    assert!(response.is_forever_in_cdn());
    let params = RustdocParams::new("dummy").with_version(ReqVersion::Latest);
    assert_eq!(params.source_url().to_text(), "/crate/dummy/latest/source/");
    assert_eq!(params.crate_details_url().to_text(), "/crate/dummy/latest");
    assert_eq!(
        response.page().permalink_path,
        "/dummy/0.1.0/dummy/index.html"
    );
}

#[test]
fn cache_headers_on_version() {
    let site = Site::with(vec![fake("dummy", "0.1.0")]);
    let config = Config {
        cache_control_stale_while_revalidate: Some(2592000),
        ..site.config()
    };

    let response = site.get("/dummy/latest/dummy/");
    assert!(response.is_forever_in_cdn());
    let headers = response.policy().render(&config, TargetCdn::CloudFront);
    assert!(headers.cache_control.is_none());

    let response = site.get("/dummy/0.1.0/dummy/");
    assert!(response.is_stale_in_browser());
    let headers = response.policy().render(&config, TargetCdn::CloudFront);
    assert_eq!(
        headers.cache_control.unwrap().as_str(),
        "stale-while-revalidate=2592000"
    );
}

#[test]
fn go_to_latest_version() {
    let site = Site::with(vec![
        fake("dummy", "0.1.0")
            .file("dummy/blah/index.html")
            .file("dummy/blah/blah.html")
            .file("dummy/struct.will-be-deleted.html"),
        fake("dummy", "0.2.0")
            .file("dummy/blah/index.html")
            .file("dummy/blah/blah.html"),
    ]);
    for (path, page) in [
        ("/dummy/0.1.0/dummy/", "dummy/index.html"),
        ("/dummy/0.1.0/dummy/blah/", "dummy/blah/index.html"),
        ("/dummy/0.1.0/dummy/blah/blah.html", "dummy/blah/blah.html"),
        (
            "/dummy/0.1.0/dummy/struct.will-be-deleted.html",
            "dummy/struct.will-be-deleted.html",
        ),
    ] {
        assert_eq!(
            site.latest_version_redirect(path),
            format!("/crate/dummy/latest/target-redirect/x86_64-unknown-linux-gnu/{page}")
        );
    }
}

#[test]
fn go_to_latest_version_keeps_platform() {
    let windows = "x86_64-pc-windows-msvc";
    let site = Site::with(vec![
        fake("dummy", "0.1.0")
            .target(windows)
            .file("x86_64-pc-windows-msvc/dummy/struct.Blah.html"),
        fake("dummy", "0.2.0").target(windows),
    ]);
    for (path, page) in [
        ("/dummy/0.1.0/x86_64-pc-windows-msvc/dummy/index.html", "index.html"),
        ("/dummy/0.1.0/x86_64-pc-windows-msvc/dummy/", "index.html"),
        (
            "/dummy/0.1.0/x86_64-pc-windows-msvc/dummy/struct.Blah.html",
            "struct.Blah.html",
        ),
    ] {
        assert_eq!(
            site.latest_version_redirect(path),
            format!("/crate/dummy/latest/target-redirect/x86_64-pc-windows-msvc/dummy/{page}")
        );
    }
}

#[test]
fn redirect_latest_goes_to_crate_if_build_failed() {
    let site = Site::with(vec![fake("dummy", "0.1.0"), fake("dummy", "0.2.0").failed()]);
    let response = site.get("/dummy/0.1.0/dummy/");
    assert_eq!(response.page().latest_path, "/crate/dummy/latest");
    assert!(response.page().use_direct_platform_links());
    assert_eq!(response.page().current_target, "");
}

#[test]
fn redirect_latest_does_not_go_to_yanked_versions() {
    let site = Site::with(vec![
        fake("dummy", "0.1.0"),
        fake("dummy", "0.2.0"),
        fake("dummy", "0.2.1").yanked(),
    ]);
    for path in ["/dummy/0.1.0/dummy/", "/dummy/0.2.1/dummy/"] {
        assert_eq!(
            site.latest_version_redirect(path),
            "/crate/dummy/latest/target-redirect/x86_64-unknown-linux-gnu/dummy/index.html"
        );
        assert_eq!(
            site.get(path).page().permalink_path,
            "/dummy/0.2.0/dummy/index.html"
        );
    }
}

#[test]
fn badges_are_urlencoded() {
    let site = Site::with(vec![fake("zstd", "0.5.1+zstd.1.4.4")]);
    let response = site.assert_redirect_unchecked(
        "/zstd/badge.svg",
        "https://img.shields.io/docsrs/zstd/latest",
    );
    assert_eq!(response.status(), 301);
    assert!(matches!(
        response.policy(),
        CachePolicy::ForeverInCdnAndBrowser
    ));
    // the URL is normalized
    let version = ReqVersion::parse("0.1").unwrap();
    assert_eq!(
        badge_redirect("a b", Some(version)).unwrap().location,
        "https://img.shields.io/docsrs/a%20b/^0.1"
    );
}

#[test]
fn crate_name_percent_decoded_redirect() {
    let site = Site::with(vec![fake("fake-crate", "0.0.1")]);
    site.assert_redirect("/fake%2Dcrate", "/fake-crate/latest/fake_crate/");
}

#[test]
fn base_redirect_handles_mismatched_separators() {
    let mut site = Site::default();
    for name in ["dummy-dash", "dummy_underscore", "dummy_mixed-separators"] {
        site.releases.push(fake(name, "0.1.0"));
        site.releases.push(fake(name, "0.2.0"));
    }
    for (from, to) in [
        ("/dummy_dash", "/dummy-dash/latest/dummy_dash/"),
        ("/dummy_dash/*", "/dummy-dash/latest/dummy_dash/"),
        ("/dummy_dash/0.1.0", "/dummy-dash/0.1.0/dummy_dash/"),
        ("/dummy-underscore", "/dummy_underscore/latest/dummy_underscore/"),
        ("/dummy-underscore/*", "/dummy_underscore/latest/dummy_underscore/"),
        ("/dummy-underscore/0.1.0", "/dummy_underscore/0.1.0/dummy_underscore/"),
        (
            "/dummy-mixed_separators",
            "/dummy_mixed-separators/latest/dummy_mixed_separators/",
        ),
        (
            "/dummy_mixed_separators/*",
            "/dummy_mixed-separators/latest/dummy_mixed_separators/",
        ),
        (
            "/dummy-mixed-separators/0.1.0",
            "/dummy_mixed-separators/0.1.0/dummy_mixed_separators/",
        ),
    ] {
        site.assert_redirect(from, to);
    }
}

#[test]
fn specific_pages_do_not_handle_mismatched_separators() {
    let site = Site::with(vec![fake("dummy-dash", "0.1.0")]);
    assert_eq!(
        site.get("/dummy-dash/0.1.0/dummy_dash/index.html").status(),
        200
    );
    let response = site.assert_redirect(
        "/dummy_dash/0.1.0/dummy_dash/index.html",
        "/dummy-dash/0.1.0/dummy_dash/index.html",
    );
    assert!(matches!(response.policy(), CachePolicy::NoCaching));
}

#[test]
fn requirements_redirect_to_the_version_that_meets_them() {
    let site = Site::with(vec![fake("dummy", "0.1.0"), fake("dummy", "0.1.2")]);
    let response = site.assert_redirect(
        "/dummy/0.1/dummy/index.html?search=x",
        "/dummy/0.1.2/dummy/index.html",
    );
    assert!(response.is_forever_in_cdn());
    site.assert_redirect("/dummy/*/dummy/index.html", "/dummy/latest/dummy/index.html");
}

#[test]
fn nonexistent_crate_404s() {
    assert_eq!(Site::default().get("/dummy").status(), 404);
}

#[test]
fn no_target_target_redirect_404s() {
    let site = Site::default();
    assert_eq!(site.get("/crate/dummy/0.1.0/target-redirect").status(), 404);
    assert_eq!(site.get("/crate/dummy/0.1.0/target-redirect/").status(), 404);
}

fn assert_platform_links(site: &Site, path: &str, links: &[(&str, &str)]) {
    let page = site.get(path);
    let page = page.page();
    let name = &page.krate.name;
    let version = path.split('/').nth(2).unwrap();
    let targets = page.metadata.doc_targets.as_ref().unwrap();
    assert_eq!(targets.len(), links.len());
    for (target, link) in links {
        assert!(targets.contains(&target.to_string()));
        site.assert_redirect(
            &format!(
                "/crate/{name}/{version}/target-redirect/{target}/{}",
                page.inner_path
            ),
            link,
        );
    }
}

#[test]
fn platform_links_go_to_current_path() {
    let mut site = Site::with(vec![
        fake("dummy", "0.1.0").file("dummy/struct.Dummy.html"),
    ]);
    let check = |site: &Site, version: &str, target: &str| {
        for version in [version, "latest"] {
            for (page, to) in [
                ("dummy/", "dummy/index.html"),
                ("dummy/index.html", "dummy/index.html"),
                ("dummy/struct.Dummy.html", "dummy/struct.Dummy.html"),
            ] {
                assert_platform_links(
                    site,
                    &format!("/dummy/{version}/{page}"),
                    &[(target, &format!("/dummy/{version}/{to}"))],
                );
            }
        }
    };
    // no explicit default-target
    check(&site, "0.1.0", HOST);
    // an explicit target that requires cross-compile
    let windows = "x86_64-pc-windows-msvc";
    site.releases.push(
        fake("dummy", "0.2.0")
            .default_target(windows)
            .file("dummy/struct.Dummy.html"),
    );
    check(&site, "0.2.0", windows);
    // an explicit target without cross-compile
    site.releases.push(
        fake("dummy", "0.3.0")
            .default_target(HOST)
            .file("dummy/struct.Dummy.html"),
    );
    check(&site, "0.3.0", HOST);

    // multiple targets
    site.releases.push(
        fake("dummy", "0.4.0")
            .file("settings.html")
            .file("dummy/struct.Dummy.html")
            .file("dummy/struct.DefaultOnly.html")
            .file("x86_64-pc-windows-msvc/settings.html")
            .file("x86_64-pc-windows-msvc/dummy/struct.Dummy.html")
            .file("x86_64-pc-windows-msvc/dummy/struct.WindowsOnly.html")
            .target(windows),
    );
    for (path, on_windows, on_linux) in [
        (
            "/dummy/0.4.0/settings.html",
            "/dummy/0.4.0/x86_64-pc-windows-msvc/settings.html",
            "/dummy/0.4.0/settings.html",
        ),
        (
            "/dummy/latest/settings.html",
            "/dummy/latest/x86_64-pc-windows-msvc/settings.html",
            "/dummy/latest/settings.html",
        ),
        (
            "/dummy/0.4.0/dummy/",
            "/dummy/0.4.0/x86_64-pc-windows-msvc/dummy/index.html",
            "/dummy/0.4.0/dummy/index.html",
        ),
        (
            "/dummy/0.4.0/x86_64-pc-windows-msvc/dummy/index.html",
            "/dummy/0.4.0/x86_64-pc-windows-msvc/dummy/index.html",
            "/dummy/0.4.0/dummy/index.html",
        ),
        (
            "/dummy/0.4.0/dummy/index.html",
            "/dummy/0.4.0/x86_64-pc-windows-msvc/dummy/index.html",
            "/dummy/0.4.0/dummy/index.html",
        ),
        (
            "/dummy/0.4.0/dummy/struct.DefaultOnly.html",
            "/dummy/0.4.0/x86_64-pc-windows-msvc/dummy/?search=DefaultOnly",
            "/dummy/0.4.0/dummy/struct.DefaultOnly.html",
        ),
        (
            "/dummy/0.4.0/dummy/struct.Dummy.html",
            "/dummy/0.4.0/x86_64-pc-windows-msvc/dummy/struct.Dummy.html",
            "/dummy/0.4.0/dummy/struct.Dummy.html",
        ),
        (
            "/dummy/0.4.0/x86_64-pc-windows-msvc/dummy/struct.Dummy.html",
            "/dummy/0.4.0/x86_64-pc-windows-msvc/dummy/struct.Dummy.html",
            "/dummy/0.4.0/dummy/struct.Dummy.html",
        ),
        (
            "/dummy/0.4.0/x86_64-pc-windows-msvc/dummy/struct.WindowsOnly.html",
            "/dummy/0.4.0/x86_64-pc-windows-msvc/dummy/struct.WindowsOnly.html",
            "/dummy/0.4.0/dummy/?search=WindowsOnly",
        ),
    ] {
        assert_platform_links(&site, path, &[(windows, on_windows), (HOST, on_linux)]);
    }
}

#[test]
fn test_target_redirect_with_corrected_name() {
    let site = Site::with(vec![fake("foo_ab", "0.0.1")]);
    site.assert_redirect_unchecked(
        "/crate/foo-ab/0.0.1/target-redirect/x86_64-unknown-linux-gnu",
        "/foo-ab/0.0.1/foo_ab/",
    );
    // `-` becomes `_` but we keep the query arguments.
    site.assert_redirect_unchecked(
        "/foo-ab/0.0.1/foo_ab/?search=a",
        "/foo_ab/0.0.1/foo_ab/?search=a",
    );
}

#[test]
fn test_target_redirect_not_found() {
    let response = Site::default()
        .get("/crate/fdsafdsafdsafdsa/0.1.0/target-redirect/x86_64-apple-darwin/");
    assert_eq!(response.status(), 404);
}

#[test]
fn target_redirects_need_a_version_and_a_default_target() {
    let site = Site::with(vec![fake("dummy", "0.1.0"), fake("dummy", "0.2.0").failed()]);
    let response = site.get("/crate/dummy/0.1/target-redirect/x86_64-apple-darwin/");
    assert_eq!(response.status(), 404);
    let response = site.get("/crate/dummy/0.2.0/target-redirect/x86_64-apple-darwin/");
    assert_eq!(response.status(), 404);
}

#[test]
fn test_redirect_to_latest_302() {
    let site = Site::with(vec![fake("dummy", "1.0.0")]);
    let response = site.assert_redirect("/dummy", "/dummy/latest/dummy/");
    assert_eq!(response.status(), 302);
    let headers = response
        .policy()
        .render(&site.config(), TargetCdn::CloudFront);
    assert!(headers.cache_control.is_none());
}

#[test]
fn test_fully_yanked_crate_404s() {
    let site = Site::with(vec![fake("dummy", "1.0.0").yanked()]);
    assert_eq!(site.get("/dummy/").status(), 404);
}

#[test]
fn test_no_trailing_target_slash() {
    let mut site = Site::with(vec![fake("dummy", "0.1.0")]);
    site.assert_redirect(
        "/crate/dummy/0.1.0/target-redirect/x86_64-apple-darwin",
        "/dummy/0.1.0/dummy/",
    );
    site.releases
        .push(fake("dummy", "0.2.0").target("x86_64-apple-darwin"));
    site.assert_redirect(
        "/crate/dummy/0.2.0/target-redirect/x86_64-apple-darwin",
        "/dummy/0.2.0/x86_64-apple-darwin/dummy/",
    );
    site.assert_redirect(
        "/crate/dummy/0.2.0/target-redirect/platform-that-does-not-exist",
        "/dummy/0.2.0/dummy/",
    );
}

#[test]
fn test_redirect_crate_coloncolon_path() {
    let site = Site::with(vec![
        fake("some_random_crate", "1.0.0"),
        fake("some_other_crate", "1.0.0"),
    ]);

    site.assert_redirect(
        "/some_random_crate::somepath",
        "/some_random_crate/latest/some_random_crate/?search=somepath",
    );
    site.assert_redirect(
        "/some_random_crate::some::path",
        "/some_random_crate/latest/some_random_crate/?search=some%3A%3Apath",
    );
    site.assert_redirect(
        "/some_random_crate::some::path?go_to_first=true",
        "/some_random_crate/latest/some_random_crate/?go_to_first=true&search=some%3A%3Apath",
    );
    site.assert_redirect_unchecked(
        "/std::some::path",
        "https://doc.rust-lang.org/stable/std/?search=some%3A%3Apath",
    );
}

#[test]
fn the_search_of_a_request_wins() {
    let site = Site::with(vec![fake("krate", "1.0.0")]);
    site.assert_redirect_unchecked(
        "/krate::a?zeta=1&search=b&alpha=2",
        "/krate/latest/krate/?alpha=2&search=b&zeta=1",
    );
}

#[test]
fn official_crates() {
    let site = Site::default();
    for (name, to) in [
        ("alloc", "https://doc.rust-lang.org/stable/alloc/"),
        ("liballoc", "https://doc.rust-lang.org/stable/alloc/"),
        ("core", "https://doc.rust-lang.org/stable/core/"),
        ("libcore", "https://doc.rust-lang.org/stable/core/"),
        ("proc_macro", "https://doc.rust-lang.org/stable/proc_macro/"),
        ("libproc_macro", "https://doc.rust-lang.org/stable/proc_macro/"),
        ("proc-macro", "https://doc.rust-lang.org/stable/proc_macro/"),
        ("libproc-macro", "https://doc.rust-lang.org/stable/proc_macro/"),
        ("std", "https://doc.rust-lang.org/stable/std/"),
        ("libstd", "https://doc.rust-lang.org/stable/std/"),
        ("test", "https://doc.rust-lang.org/stable/test/"),
        ("libtest", "https://doc.rust-lang.org/stable/test/"),
        ("rustc", "https://doc.rust-lang.org/nightly/nightly-rustc/"),
        ("rustdoc", "https://doc.rust-lang.org/nightly/nightly-rustc/rustdoc/"),
    ] {
        let response = site.assert_redirect_unchecked(&format!("/{name}"), to);
        assert!(response.is_stale_in_browser());
    }
}

#[test]
fn icons_are_shared() {
    let response =
        Site::default().assert_redirect_unchecked("/favicon.ico", "/-/static/favicon.ico");
    assert!(matches!(
        response.policy(),
        CachePolicy::ForeverInCdnAndBrowser
    ));
}

#[test]
fn test_no_trailing_rustdoc_slash() {
    let site = Site::with(vec![fake("tokio", "0.2.21").file("tokio/time/index.html")]);
    site.assert_redirect(
        "/tokio/0.2.21/tokio/time",
        "/tokio/0.2.21/tokio/time/index.html",
    );
}

#[test]
fn test_non_ascii() {
    let path = "const_unit_poc/units/constant.Ω.html";
    let site = Site::with(vec![fake("const_unit_poc", "1.0.0").file(path)]);
    let response = site.get(&encode_url_path(&format!("/const_unit_poc/1.0.0/{path}")));
    assert_eq!(response.page().inner_path, path);
}

#[test]
fn test_latest_version_keeps_query() {
    let site = Site::with(vec![
        fake("tungstenite", "0.10.0"),
        fake("tungstenite", "0.11.0"),
    ]);
    assert_eq!(
        site.latest_version_redirect(
            "/tungstenite/0.10.0/tungstenite/?search=String%20-%3E%20Message"
        ),
        "/crate/tungstenite/latest/target-redirect/x86_64-unknown-linux-gnu/tungstenite/index.html?search=String%20-%3E%20Message",
    );
}

#[test]
fn latest_version_works_when_source_deleted() {
    let site = Site::with(vec![
        fake("pyo3", "0.2.7").file("src/pyo3/objects/exc.rs.html"),
        fake("pyo3", "0.13.2"),
    ]);
    let target_redirect = "/crate/pyo3/latest/target-redirect/x86_64-unknown-linux-gnu/src/pyo3/objects/exc.rs.html";
    assert_eq!(
        site.latest_version_redirect("/pyo3/0.2.7/src/pyo3/objects/exc.rs.html"),
        target_redirect
    );
    site.assert_redirect(target_redirect, "/pyo3/latest/pyo3/?search=exc");
}

#[test]
fn test_missing_target_redirects_to_search() {
    let site = Site::with(vec![
        fake("winapi", "0.3.9").file("winapi/macro.ENUM.html")
    ]);
    site.assert_redirect(
        "/winapi/0.3.9/x86_64-unknown-linux-gnu/winapi/macro.ENUM.html",
        "/winapi/0.3.9/winapi/macro.ENUM.html",
    );
    let response = site.get("/winapi/0.3.9/winapi/struct.not_here.html");
    assert_eq!(response.status(), 404);
}

#[test]
fn test_redirect_source_not_rust() {
    let site = Site::with(vec![
        fake("winapi", "0.3.8").file("src/winapi/docs.md.html"),
        fake("winapi", "0.3.9"),
    ]);
    assert_eq!(
        site.get("/winapi/0.3.8/src/winapi/docs.md.html").status(),
        200
    );
    // people can end up here from clicking "go to latest" while in source view
    site.assert_redirect(
        "/crate/winapi/0.3.9/target-redirect/src/winapi/docs.md.html",
        "/winapi/0.3.9/winapi/",
    );
}

#[test]
fn noindex_nonlatest() {
    let site = Site::with(vec![fake("dummy", "0.1.0")]);
    assert!(site
        .get("/dummy/0.1.0/dummy/")
        .page()
        .head(&keys())
        .robots_tag
        .unwrap()
        .contains("noindex"));
    let head = site.get("/dummy/latest/dummy/").page().head(&keys());
    assert!(head.robots_tag.is_none());
    assert_eq!(head.status, 200);
}

#[test]
fn download_unknown_version_404() {
    let response = Site::default().get("/crate/dummy/0.1.0/download");
    assert!(matches!(response.policy(), CachePolicy::NoCaching));
    assert_eq!(response.status(), 404);
}

#[test]
fn download_old_storage_version_404() {
    let site = Site::with(vec![fake("dummy", "0.1.0").without_archive()]);
    let response = site.get("/crate/dummy/0.1.0/download");
    assert!(matches!(response.policy(), CachePolicy::NoCaching));
    assert_eq!(response.status(), 404);
}

#[test]
fn download_semver() {
    let site = Site::with(vec![fake("dummy", "0.1.0")]);
    let response = site.assert_redirect_unchecked(
        "/crate/dummy/0.1/download",
        "https://static.docs.rs/rustdoc/dummy/0.1.0.zip",
    );
    assert!(response.is_forever_in_cdn());
    let release = site
        .match_version("dummy", &ReqVersion::parse("0.1").unwrap())
        .unwrap();
    assert_eq!(
        locate_archive("dummy", release).unwrap(),
        "rustdoc/dummy/0.1.0.zip"
    );
}

#[test]
fn download_specific_version() {
    let site = Site::with(vec![fake("dummy", "0.1.0")]);
    let response = site.assert_redirect_unchecked(
        "/crate/dummy/0.1.0/download",
        "https://static.docs.rs/rustdoc/dummy/0.1.0.zip",
    );
    assert!(response.is_forever_in_cdn());
    let release = site
        .match_version("dummy", &ReqVersion::parse("0.1.0").unwrap())
        .unwrap();
    assert_eq!(
        locate_archive("dummy", release).unwrap(),
        "rustdoc/dummy/0.1.0.zip"
    );
}

#[test]
fn download_latest_version() {
    let site = Site::with(vec![fake("dummy", "0.1.0"), fake("dummy", "0.2.0")]);
    let response = site.assert_redirect_unchecked(
        "/crate/dummy/latest/download",
        "https://static.docs.rs/rustdoc/dummy/0.2.0.zip",
    );
    assert!(response.is_forever_in_cdn());
    let release = site.match_version("dummy", &ReqVersion::Latest).unwrap();
    assert_eq!(
        locate_archive("dummy", release).unwrap(),
        "rustdoc/dummy/0.2.0.zip"
    );
}

#[test]
fn downloads_need_the_exact_name() {
    let site = Site::with(vec![fake("dummy-a", "0.1.0")]);
    assert_eq!(site.get("/crate/dummy_a/0.1.0/download").status(), 404);
    assert_eq!(site.get("/crate/dummy_a/0.1.0/json").status(), 404);
}

#[test]
fn an_archive_whose_access_is_unknown() {
    let nope = archive_access_failed(Failure::Other("timeout".into()));
    let info = nope.into_error_info();
    assert_eq!((info.status, info.message.as_str()), (500, "reading public access for archive"));
}

#[test]
fn serve_release_specific_static_assets() {
    for name in ["something.js", "something.css"] {
        let site = Site::with(vec![fake("dummy", "0.1.0").file(name)]);
        let response = site.get(&format!("/dummy/0.1.0/{name}"));
        assert!(matches!(response, Response::File(path) if path == name));
    }
}

#[test]
fn fallback_to_root_storage_for_some_js_assets() {
    for path in ["search-1234.js", "settings-1234.js"] {
        let mut site = Site::with(vec![fake("dummy", "0.1.0")]);
        site.root = vec!["asset.js".into(), path.into()];

        assert_eq!(site.get("/dummy/0.1.0/asset.js").status(), 404);
        assert_eq!(site.get("/asset.js").status(), 200);

        assert_eq!(site.get(&format!("/{path}")).status(), 200);
        let response = site.get(&format!("/dummy/0.1.0/{path}"));
        assert!(matches!(response, Response::File(found) if found == path));
    }
}

#[test]
fn redirect_with_encoded_chars_in_path() {
    let site = Site::with(vec![fake("clap", "2.24.0")]);
    let response = site.assert_redirect_unchecked(
        "/clap/2.24.0/i686-pc-windows-gnu/clap/which%20is%20a%20part%20of%20%5B%60Display%60%5D",
        "/crate/clap/2.24.0/target-redirect/i686-pc-windows-gnu/clap/which%20is%20a%20part%20of%20[%60Display%60]",
    );
    assert!(response.is_forever_in_cdn());
}

#[test]
fn search_with_encoded_chars_in_path() {
    let site = Site::with(vec![fake("clap", "2.24.0")]);
    let response = site.assert_redirect_unchecked(
        "/clap/latest/clapproc%20macro%20%60Parser%60%20not%20expanded:%20Cannot%20create%20expander%20for",
        "/clap/latest/clapproc%20macro%20%60Parser%60%20not%20expanded:%20Cannot%20create%20expander%20for/clap/",
    );
    assert!(response.is_forever_in_cdn());
}

#[test]
fn rustdoc_page_from_failed_build_redirects_to_crate() {
    let site = Site::with(vec![fake("something", "1.2.3").failed()]);
    for (path, expected) in [
        ("/something/1.2.3/some_path/", "/crate/something/1.2.3"),
        ("/something/latest/some_path/", "/crate/something/latest"),
    ] {
        let response = site.assert_redirect_unchecked(path, expected);
        assert!(response.is_forever_in_cdn());
    }
}

#[test]
fn test_redirect_with_query_args() {
    let site = Site::with(vec![fake("fake", "0.0.1").binary()]);
    site.assert_redirect_unchecked("/fake?a=b", "/crate/fake/latest?a=b");
}

fn json_site() -> Site {
    let mut site = Site::default();
    for version in ["0.1.0", "0.2.0"] {
        site.releases
            .push(fake("dummy", version).target("i686-pc-windows-msvc"));
        for target in [HOST, "i686-pc-windows-msvc"] {
            for format in ["latest", "42"] {
                for ext in ["zst", "gz"] {
                    site.json.push(format!(
                        "rustdoc-json/dummy/{version}/{target}/dummy_{version}_{target}_{format}.json.{ext}"
                    ));
                }
            }
        }
    }
    site
}

#[test]
fn json_download() {
    let site = json_site();
    let windows = "i686-pc-windows-msvc";
    for (suffix, version, target, format, ext) in [
        ("latest/json", "0.2.0", HOST, "latest", "zst"),
        ("latest/json.gz", "0.2.0", HOST, "latest", "gz"),
        ("0.1/json", "0.1.0", HOST, "latest", "zst"),
        ("0.1.0/json", "0.1.0", HOST, "latest", "zst"),
        ("latest/json/latest", "0.2.0", HOST, "latest", "zst"),
        ("latest/json/latest.gz", "0.2.0", HOST, "latest", "gz"),
        ("latest/json/42", "0.2.0", HOST, "42", "zst"),
        ("latest/i686-pc-windows-msvc/json", "0.2.0", windows, "latest", "zst"),
        ("latest/i686-pc-windows-msvc/json.gz", "0.2.0", windows, "latest", "gz"),
        ("latest/i686-pc-windows-msvc/json/42", "0.2.0", windows, "42", "zst"),
        ("latest/i686-pc-windows-msvc/json/42.gz", "0.2.0", windows, "42", "gz"),
        ("latest/i686-pc-windows-msvc/json/42.zst", "0.2.0", windows, "42", "zst"),
    ] {
        let response = site.assert_redirect_unchecked(
            &format!("/crate/dummy/{suffix}"),
            &format!(
                "https://static.docs.rs/rustdoc-json/dummy/{version}/{target}/\
                 dummy_{version}_{target}_{format}.json.{ext}"
            ),
        );
        assert!(response.is_forever_in_cdn());
    }
}

#[test]
fn test_json_download_fallback_to_old_files_without_compression_extension() {
    for ext in ["", ".zst"] {
        let mut site = Site::with(vec![fake("dummy", "0.1.0")]);
        let old = format!("rustdoc-json/dummy/0.1.0/{HOST}/dummy_0.1.0_{HOST}_latest.json");
        site.json.push(old.clone());
        site.assert_redirect_unchecked(
            &format!("/crate/dummy/latest/json{ext}"),
            &format!("https://static.docs.rs/{old}"),
        );
        // only zstd was stored like this
        assert_eq!(site.get("/crate/dummy/latest/json.gz").status(), 404);
    }
}

#[test]
fn json_download_not_found() {
    let mut site = json_site();
    site.releases[0] = site.releases[0].clone().binary();
    for suffix in [
        "0.1.0/json",
        "0.2.0/unknown-target/json",
        "0.2.0/json/99",
        "0.42.0/json",
    ] {
        let response = site.get(&format!("/crate/dummy/{suffix}"));
        assert_eq!(response.status(), 404, "{suffix}");
    }
    assert!(matches!(
        site.get("/crate/dummy/0.2.0/unknown-target/json"),
        Response::Error(404, title) if title == "The requested target does not exist"
    ));
}

#[test]
fn json_requests_that_make_no_sense() {
    let site = json_site();
    assert_eq!(site.get("/crate/dummy/latest/json.rar").status(), 400);
    assert_eq!(site.get("/crate/dummy/latest/json/x").status(), 500);
    assert_eq!(site.get("/crate/dummy/latest/json/65536").status(), 500);
}

#[test]
fn static_assets() {
    assert_eq!(
        static_asset_path("/rustdoc-static/", "main.css"),
        "/rustdoc-static/main.css"
    );
}

#[test]
fn check_404_page_content_crate() {
    let response = Site::default().get("/crate-which-doesnt-exist");
    assert!(matches!(
        response,
        Response::Error(404, title) if title == "The requested crate does not exist"
    ));
}

#[test]
fn check_404_page_content_resource() {
    let response = Site::default().get("/resource-which-doesnt-exist.js");
    assert!(matches!(
        response,
        Response::Error(404, title) if title == "The requested resource does not exist"
    ));
}

#[test]
fn check_400_page_content_not_semver_version() {
    let site = Site::with(vec![fake("dummy", "0.1.0")]);
    let response = site.get("/dummy/not-semver");
    assert_eq!(response.status(), 400);
    assert!(matches!(
        response,
        Response::Error(_, title) if title == "Bad request"
    ));
}

#[test]
fn check_404_page_content_nonexistent_version() {
    let site = Site::with(vec![fake("dummy", "1.0.0")]);
    assert!(matches!(
        site.get("/dummy/2.0"),
        Response::Error(404, title) if title == "The requested version does not exist"
    ));
}

#[test]
fn check_404_page_content_any_version_all_yanked() {
    let site = Site::with(vec![fake("dummy", "1.0.0").yanked()]);
    assert!(matches!(
        site.get("/dummy/*"),
        Response::Error(404, title) if title == "The requested version does not exist"
    ));
}

#[test]
fn what_fails_is_answered_as_it_is() {
    let request = || RedirectorRequest {
        name: "krate".into(),
        version: None,
        target: None,
        uri_path: "/krate".into(),
        query: None,
        query_pairs: vec![],
    };
    let state = RedirectorState::start(request(), &keys());
    let state = state.proceed(
        RedirectorEvent::Release(Err(AxumNope::InternalError("db".into()))),
        &keys(),
    );
    assert!(matches!(state, RedirectorState::Fail(AxumNope::InternalError(_))));
    let state = RedirectorState::FetchLegacyAsset { path: "a.js".into() };
    let state = state.proceed(RedirectorEvent::FileFailed(Failure::Other("s3".into())), &keys());
    assert!(matches!(state, RedirectorState::Fail(AxumNope::InternalError(m)) if m == "s3"));
    let uri = Uri::parse("/krate/latest/krate/").unwrap();
    let state = HtmlState::start("krate".into(), ReqVersion::Latest, &uri);
    let state = state.proceed(HtmlEvent::Release(Err(AxumNope::CrateNotFound)), &keys());
    assert!(matches!(state, HtmlState::Fail(AxumNope::CrateNotFound)));
    let state = ArchiveState::SetPublic { path: "p".into() };
    let state = state.proceed(
        ArchiveEvent::MadePublic(Err(AxumNope::InternalError("s3".into()))),
        "root",
        &keys(),
    );
    assert!(matches!(state, ArchiveState::Fail(_)));
    let state = ArchiveState::ReadAccess { path: "p".into() };
    let state = state.proceed(ArchiveEvent::IsPublic(Ok(true)), "https://root", &keys());
    let ArchiveState::Redirect(to) = state else {
        panic!("no redirect")
    };
    assert_eq!(to.location().unwrap().to_text(), "https://root/p");
}

#[test]
fn paths_that_are_not_utf8() {
    let uri = Uri::parse("/krate/1.0.0/a%ff/").unwrap();
    let nope = HtmlRequest::new("krate".into(), ReqVersion::Latest, &uri).unwrap_err();
    let info = nope.into_error_info();
    assert_eq!(info.status, 400);
    assert_eq!(info.message, "invalid utf-8 sequence of 1 bytes from index 14");
}

#[test]
fn the_start_page_of_a_redirect_is_the_index() {
    let uri = Uri::parse("/krate/latest/my-target/krate/").unwrap();
    let request = HtmlRequest::new("krate".into(), ReqVersion::Latest, &uri).unwrap();
    assert_eq!(request.components, vec!["my-target", "krate", ""]);
    let site = Site::with(vec![fake("krate", "1.0.0").target("my-target")]);
    let krate = site.details(&site.match_version("krate", &ReqVersion::Latest).unwrap());
    let FileStep::Fetch(file) = request.loaded(&krate, &keys()) else {
        panic!("a redirect")
    };
    assert_eq!(file.storage_path, "my-target/krate/index.html");
    assert_eq!(file.components.join("/"), file.storage_path);
    assert!(is_documentation_root("krate/index.html", "krate"));
    assert!(!is_documentation_root(&file.storage_path, "krate"));
}

#[test]
fn pages_know_their_target_and_version() {
    let site = Site::with(vec![
        fake("krate", "1.0.0-rc.1").target("my-target"),
        fake("krate", "1.0.0").target("my-target"),
    ]);
    let response = site.get("/krate/1.0.0-rc.1/my-target/krate/?a=b");
    let page = response.page();
    assert!(page.is_prerelease);
    assert!(!page.is_latest_version);
    assert!(!page.is_latest_url);
    assert_eq!(page.current_target, "my-target");
    assert_eq!(page.inner_path, "krate/index.html");
    assert_eq!(
        page.latest_path,
        "/crate/krate/latest/target-redirect/my-target/krate/index.html?a=b"
    );
    assert_eq!(page.permalink_path, "/krate/1.0.0/krate/index.html?a=b");
    assert!(!page.use_direct_platform_links());
    let response = site.get("/krate/latest/krate/");
    assert!(response.page().is_latest_version);
    assert!(response.page().is_latest_url);
    assert!(!response.page().is_prerelease);
    assert_eq!(response.page().current_target, HOST);
}

#[test]
fn where_to_search_in_place_of_a_page() {
    let site = Site::with(vec![fake("krate", "1.0.0").target("my-target")]);
    let krate = site.details(&site.match_version("krate", &ReqVersion::Latest).unwrap());
    for (path, start, search) in [
        (vec!["krate", "module", "index.html"], "krate/", Some("module")),
        (vec!["index.html"], "krate/", None),
        (vec!["my-target"], "my-target/krate/", None),
        (vec!["my-target", "krate", "struct.S.html"], "my-target/krate/", Some("S")),
        (vec!["my-target", "src", "krate", "m.rs.html"], "my-target/krate/", Some("m")),
        (vec!["src", "krate", "m.rs.html"], "krate/", Some("m")),
        (vec!["src", "krate", "m.md.html"], "krate/", None),
        (vec![""], "krate/", None),
    ] {
        let (found, query) = path_for_version(&path, &krate);
        assert_eq!(found, start);
        let expected: Vec<(String, String)> = search
            .map(|s: &str| ("search".to_owned(), s.to_owned()))
            .into_iter()
            .collect();
        assert_eq!(query, expected, "{path:?}");
    }
}

#[test]
fn asset_of_a_crate_without_details_is_an_error() {
    let state = RedirectorState::FetchCrateAsset {
        release: MatchedRelease {
            name: "krate".into(),
            corrected_name: None,
            req_version: ReqVersion::Latest,
            release: Release {
                version: Version::parse("1.0.0").unwrap(),
                build_succeeded: true,
                rustdoc_status: true,
                target_name: Some("krate".into()),
            },
        },
        path: "search-index.js".into(),
    };
    let state = state.proceed(
        RedirectorEvent::DetailsFailed(AxumNope::CrateNotFound),
        &keys(),
    );
    assert!(matches!(
        state,
        RedirectorState::Fail(AxumNope::CrateNotFound)
    ));
}

#[test]
fn badge_without_a_url_is_an_error() {
    let to = redirect_to_badge(Some("https://img.shields.io/docsrs/a/latest".into())).unwrap();
    assert_eq!(to.status, 301);
    assert_eq!(to.location, "https://img.shields.io/docsrs/a/latest");
    assert!(matches!(
        redirect_to_badge(None),
        Err(AxumNope::InternalError(message)) if message == "could not parse URL"
    ));
}

#[test]
fn a_page_whose_path_is_not_utf8_is_a_bad_request() {
    let uri = Uri::parse("/krate/latest/a%ff").unwrap();
    let state = HtmlState::start("krate".into(), ReqVersion::Latest, &uri);
    assert!(matches!(
        state,
        HtmlState::Fail(AxumNope::BadRequest(message))
            if message == "invalid utf-8 sequence of 1 bytes from index 15"
    ));
}
