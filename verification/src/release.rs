//! Releases of crates, as requests are matched against them.
use crate::error::AxumNope;
use crate::rustdoc_params::{
    MetaData, ParsedRustdocParams, RustdocParams, RustdocParamsText,
};
use crate::text::{as_deref, maybe_str, maybe_text, owned_texts, same_text};
use crate::version::{ReqVersion, ReqVersionText, Version, VersionText};
use vstd::prelude::*;

verus! {

/// The target that documentation is built on, and for where nothing else is said.
pub open spec fn host_target() -> Seq<char> {
    "x86_64-unknown-linux-gnu"@
}

/// A release of a crate.
#[derive(Debug)]
pub struct Release {
    pub version: Version,
    /// Whether the build was a success.
    pub build_succeeded: bool,
    /// Whether there is documentation.
    pub rustdoc_status: bool,
    /// The name that the documentation is filed under.
    pub target_name: Option<String>,
}

impl Release {
    /// What is filed has a name.
    pub open spec fn valid(self) -> bool {
        self.rustdoc_status ==> self.target_name is Some
    }
}

/// The release that was found for a name and a version in a URL.
#[derive(Debug)]
pub struct MatchedRelease {
    /// The name that was asked for.
    pub name: String,
    /// The name of the crate, where it differs from what was asked for in its dashes and
    /// underscores.
    pub corrected_name: Option<String>,
    /// The version that was asked for.
    pub req_version: ReqVersion,
    /// The release.
    pub release: Release,
}

/// The version to ask for in a URL: any version is the newest, and a requirement is the version
/// that meets it.
pub open spec fn canonical_req_version(
    req_version: ReqVersionText,
    version: VersionText,
) -> ReqVersionText {
    match req_version {
        ReqVersionText::Semver(r) => if r == "*"@ {
            ReqVersionText::Latest
        } else {
            ReqVersionText::Exact(version)
        },
        _ => req_version,
    }
}

/// The name of the crate that was found instead of the one that was asked for.
#[derive(Debug)]
pub struct Misnamed {
    pub corrected_name: String,
    pub req_version: ReqVersion,
}

impl MatchedRelease {
    /// The name of the crate that was found.
    pub open spec fn exact_name(self) -> Seq<char> {
        match self.corrected_name {
            Some(n) => n@,
            None => self.name@,
        }
    }

    /// The release, where its name is the one that was asked for.
    pub fn assume_exact_name(self) -> (r: Result<MatchedRelease, AxumNope>)
        ensures
            r is Ok <==> self.corrected_name is None,
            r matches Ok(m) ==> m == self,
            r matches Err(e) ==> e is CrateNotFound,
    {
        if self.corrected_name.is_none() {
            Ok(self)
        } else {
            Err(AxumNope::CrateNotFound)
        }
    }

    /// The release under the name of its crate.
    pub fn into_exactly_named(self) -> (r: MatchedRelease)
        ensures
            r.name@ == self.exact_name(),
            r.corrected_name is None,
            r.req_version == self.req_version,
            r.release == self.release,
    {
        match self.corrected_name {
            Some(name) => MatchedRelease {
                name,
                corrected_name: None,
                req_version: self.req_version,
                release: self.release,
            },
            None => self,
        }
    }

    /// The release, where its name is the one that was asked for, else the name of its crate.
    pub fn exactly_named(self) -> (r: Result<MatchedRelease, Misnamed>)
        ensures
            r is Ok <==> self.corrected_name is None,
            r matches Ok(m) ==> m == self,
            r matches Err(e) ==> Some(e.corrected_name) == self.corrected_name && e.req_version
                == self.req_version,
    {
        match self.corrected_name {
            Some(corrected_name) => Err(
                Misnamed { corrected_name, req_version: self.req_version },
            ),
            None => Ok(self),
        }
    }

    /// The release under the version that URLs ask for.
    pub fn into_canonical_req_version(self) -> (r: MatchedRelease)
        ensures
            r.req_version@ == canonical_req_version(self.req_version@, self.release.version@),
            r.name == self.name,
            r.corrected_name == self.corrected_name,
            r.release == self.release,
    {
        let req_version: ReqVersion = match self.req_version {
            ReqVersion::Semver(r) => {
                if same_text(r.as_str(), "*") {
                    ReqVersion::Latest
                } else {
                    ReqVersion::Exact(self.release.version.clone())
                }
            },
            other => other,
        };
        MatchedRelease {
            name: self.name,
            corrected_name: self.corrected_name,
            req_version,
            release: self.release,
        }
    }

    /// The release, where the version that was asked for is the one that URLs ask for, else that
    /// version.
    pub fn canonically_versioned(self) -> (r: Result<MatchedRelease, ReqVersion>)
        ensures
            r is Ok <==> canonical_req_version(self.req_version@, self.release.version@)
                == self.req_version@,
            r matches Ok(m) ==> m.req_version@ == self.req_version@ && m.name == self.name
                && m.corrected_name == self.corrected_name && m.release == self.release,
            r matches Err(v) ==> v@ == canonical_req_version(
                self.req_version@,
                self.release.version@,
            ),
    {
        let original: ReqVersion = self.req_version.clone();
        let canonical: MatchedRelease = self.into_canonical_req_version();
        if canonical.req_version == original {
            Ok(canonical)
        } else {
            Err(canonical.req_version)
        }
    }

    /// The version that was found.
    pub fn into_version(self) -> (r: Version)
        ensures
            r == self.release.version,
    {
        self.release.version
    }

    /// Whether there is documentation.
    pub fn rustdoc_status(&self) -> (r: bool)
        ensures
            r == self.release.rustdoc_status,
    {
        self.release.rustdoc_status
    }

    /// The name that the documentation is filed under.
    pub fn target_name(&self) -> (r: Option<&str>)
        ensures
            maybe_str(r) == maybe_text(self.release.target_name),
    {
        as_deref(&self.release.target_name)
    }

    /// Whether the newest version was asked for.
    pub fn is_latest_url(&self) -> (r: bool)
        ensures
            r == (self.req_version@ == ReqVersionText::Latest),
    {
        self.req_version.is_latest()
    }
}

/// Asking for the version that URLs ask for asks for the same again.
pub proof fn law_canonical_version_is_stable(req_version: ReqVersionText, version: VersionText)
    ensures
        canonical_req_version(canonical_req_version(req_version, version), version)
            == canonical_req_version(req_version, version),
{
}

/// Why no parameters can be made from a release: it has no documentation to file.
#[derive(Clone, Copy, Debug, PartialEq, Eq, Structural)]
pub struct MissingTargetName;

impl MissingTargetName {
    /// What is reported.
    pub fn message(&self) -> (r: &'static str)
        ensures
            r@ == "default target missing in release"@,
    {
        "default target missing in release"
    }
}

impl TryFrom<MatchedRelease> for ParsedRustdocParams {
    type Error = MissingTargetName;

    fn try_from(release: MatchedRelease) -> (r: Result<ParsedRustdocParams, MissingTargetName>)
        ensures
            r is Ok <==> release.release.target_name is Some,
            r matches Ok(p) ==> p@ == (RustdocParamsText {
                version: release.req_version@,
                ..RustdocParamsText::new(release.name@)
            }).parsed(
                Some(host_target()),
                maybe_text(release.release.target_name),
                seq![host_target()],
            ),
    {
        match release.release.target_name {
            Some(target_name) => {
                let targets: Vec<String> = vec!["x86_64-unknown-linux-gnu".to_owned()];
                assert(owned_texts(targets@) =~= seq![host_target()]);
                Ok(
                    RustdocParams::new(release.name.as_str()).with_version(
                        release.req_version,
                    ).parse(
                        Some("x86_64-unknown-linux-gnu".to_owned()),
                        Some(target_name),
                        targets,
                    ),
                )
            },
            None => Err(MissingTargetName),
        }
    }
}

impl vstd::std_specs::convert::TryFromSpecImpl<MatchedRelease> for ParsedRustdocParams {
    open spec fn obeys_try_from_spec() -> bool {
        false
    }

    open spec fn try_from_spec(release: MatchedRelease) -> Result<
        ParsedRustdocParams,
        MissingTargetName,
    > {
        arbitrary()
    }
}

/// What is known of a crate and one of its releases.
#[derive(Clone, Debug)]
pub struct CrateDetails {
    pub name: String,
    pub version: Version,
    /// The name that the documentation is filed under.
    pub target_name: Option<String>,
    pub metadata: MetaData,
}

impl CrateDetails {
    /// Where there is documentation, it has a name, a default target and a list of targets.
    pub open spec fn has_docs(self) -> bool {
        &&& self.target_name is Some
        &&& self.metadata.default_target is Some
        &&& self.metadata.doc_targets is Some
    }
}

/// The version that URLs ask for is the newest or one version, and never a requirement. A version
/// that was asked for by itself stays, and a requirement that not every version meets becomes the
/// version that was found.
pub proof fn law_canonical_version_is_no_requirement(
    req_version: ReqVersionText,
    version: VersionText,
)
    ensures
        ({
            let canonical = canonical_req_version(req_version, version);
            &&& !(canonical is Semver)
            &&& !(req_version is Semver) ==> canonical.text() == req_version.text()
            &&& req_version is Semver ==> canonical.text() == if req_version.text() == "*"@ {
                "latest"@
            } else {
                version.text()
            }
        }),
{
}

/// A crate goes by its own name, which is the one that was asked for unless that was corrected.
pub proof fn law_corrected_name_is_the_name(release: MatchedRelease)
    ensures
        release.corrected_name matches Some(name) ==> release.exact_name() == name@,
        release.corrected_name is None ==> release.exact_name() == release.name@,
{
}

} // verus!
