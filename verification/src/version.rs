//! Versions of crates, and the versions that a request can ask for.
use crate::decimal::{decimal, law_decimal_reads_back, lemma_decimal_digits, to_decimal};
use crate::text::{
    first_index, lemma_chars_of_pieces, lemma_first_index, lemma_split_is_unique, pieces,
    same_text,
};
use vstd::prelude::*;
use vstd::string::StringExecFns;

verus! {

/// What a version holds.
#[verifier::ext_equal]
pub struct VersionText {
    pub major: u64,
    pub minor: u64,
    pub patch: u64,
    pub pre: Seq<char>,
    pub build: Seq<char>,
}

/// The characters of the identifiers in a version.
pub open spec fn is_identifier_char(c: char) -> bool {
    '0' <= c <= '9' || 'A' <= c <= 'Z' || 'a' <= c <= 'z' || c == '-'
}

/// Whether `s` is a list of identifiers with dots between them.
pub open spec fn is_identifiers(s: Seq<char>) -> bool {
    forall|i: int|
        0 <= i < pieces(s, '.').len() ==> (#[trigger] pieces(s, '.')[i]).len() > 0 && forall|j: int|
            0 <= j < pieces(s, '.')[i].len() ==> is_identifier_char(#[trigger] pieces(s, '.')[i][j])
}

/// Whether an identifier is a number that is written with a leading zero.
pub open spec fn has_leading_zero(s: Seq<char>) -> bool {
    s.len() > 1 && s[0] == '0' && forall|j: int| 0 <= j < s.len() ==> '0' <= #[trigger] s[j] <= '9'
}

impl VersionText {
    /// Whether the pre-release and the build are made of identifiers, with no leading zero in a
    /// numeric identifier of the pre-release. Either may be missing.
    pub open spec fn valid(self) -> bool {
        &&& self.pre.len() > 0 ==> is_identifiers(self.pre)
        &&& self.pre.len() > 0 ==> forall|i: int|
            0 <= i < pieces(self.pre, '.').len() ==> !has_leading_zero(
                #[trigger] pieces(self.pre, '.')[i],
            )
        &&& self.build.len() > 0 ==> is_identifiers(self.build)
    }

    /// The version as text.
    pub open spec fn text(self) -> Seq<char> {
        decimal(self.major as nat) + "."@ + decimal(self.minor as nat) + "."@ + decimal(
            self.patch as nat,
        ) + (if self.pre.len() == 0 {
            Seq::empty()
        } else {
            "-"@ + self.pre
        }) + (if self.build.len() == 0 {
            Seq::empty()
        } else {
            "+"@ + self.build
        })
    }
}

/// Whether `text` is how some version is written.
pub open spec fn is_version_text(text: Seq<char>) -> bool {
    exists|v: VersionText| v.valid() && #[trigger] v.text() == text
}

/// A version of a crate.
#[derive(Debug, Eq, Hash)]
pub struct Version {
    pub major: u64,
    pub minor: u64,
    pub patch: u64,
    pub pre: String,
    pub build: String,
}

impl View for Version {
    type V = VersionText;

    open spec fn view(&self) -> VersionText {
        VersionText {
            major: self.major,
            minor: self.minor,
            patch: self.patch,
            pre: self.pre@,
            build: self.build@,
        }
    }
}

impl Clone for Version {
    fn clone(&self) -> (r: Self)
        ensures
            r == *self,
    {
        Version {
            major: self.major,
            minor: self.minor,
            patch: self.patch,
            pre: self.pre.clone(),
            build: self.build.clone(),
        }
    }
}

impl PartialEq for Version {
    fn eq(&self, other: &Version) -> (r: bool) {
        let r: bool = self.major == other.major && self.minor == other.minor && self.patch
            == other.patch && same_text(self.pre.as_str(), other.pre.as_str()) && same_text(
            self.build.as_str(),
            other.build.as_str(),
        );
        r
    }
}

impl vstd::std_specs::cmp::PartialEqSpecImpl for Version {
    open spec fn obeys_eq_spec() -> bool {
        true
    }

    open spec fn eq_spec(&self, other: &Version) -> bool {
        self@ == other@
    }
}

/// The error that `semver` gives.
#[verifier::external_type_specification]
#[verifier::external_body]
pub struct ExSemverError(semver::Error);

/// `semver::Version::parse` accepts exactly the texts that some version is written as, and gives
/// that version.
#[verifier::external_body]
fn parse_version(text: &str) -> (r: Result<Version, semver::Error>)
    ensures
        r is Ok <==> is_version_text(text@),
        r matches Ok(v) ==> v@.valid() && v@.text() == text@,
{
    semver::Version::parse(text).map(|v| Version {
        major: v.major,
        minor: v.minor,
        patch: v.patch,
        pre: v.pre.as_str().to_owned(),
        build: v.build.as_str().to_owned(),
    })
}

/// How `semver` writes the requirement that it reads from a text.
pub uninterp spec fn normalized_requirement(text: Seq<char>) -> Option<Seq<char>>;

/// `semver::VersionReq::parse` reads a version requirement, and its `Display` writes it in a
/// normal form. Which texts are requirements, and what the form is, is left open.
#[verifier::external_body]
fn parse_requirement(text: &str) -> (r: Result<String, semver::Error>)
    ensures
        r is Ok <==> normalized_requirement(text@) is Some,
        r matches Ok(s) ==> normalized_requirement(text@) == Some(s@),
{
    semver::VersionReq::parse(text).map(|v| v.to_string())
}

/// Why a text does not name a version.
#[derive(Clone, Copy, Debug, PartialEq, Eq, Structural)]
pub enum VersionError {
    /// It is neither a version nor, where one is allowed, a requirement.
    Invalid,
}

impl Version {
    /// Reads a version.
    pub fn parse(text: &str) -> (r: Result<Version, VersionError>)
        ensures
            r is Ok <==> is_version_text(text@),
            r matches Ok(v) ==> v@.valid() && v@.text() == text@,
            r matches Err(e) ==> e == VersionError::Invalid,
    {
        match parse_version(text) {
            Ok(v) => Ok(v),
            Err(_) => Err(VersionError::Invalid),
        }
    }

    /// The version as text.
    pub fn to_text(&self) -> (r: String)
        ensures
            r@ == self@.text(),
    {
        let mut out: String = to_decimal(self.major);
        out.append(".");
        out.append(to_decimal(self.minor).as_str());
        out.append(".");
        out.append(to_decimal(self.patch).as_str());
        let ghost numbers = out@;
        if !self.pre.as_str().is_empty() {
            out.append("-");
            out.append(self.pre.as_str());
        }
        assert(out@ =~= numbers + if self.pre@.len() == 0 {
            Seq::empty()
        } else {
            "-"@ + self.pre@
        });
        let ghost with_pre = out@;
        if !self.build.as_str().is_empty() {
            out.append("+");
            out.append(self.build.as_str());
        }
        assert(out@ =~= with_pre + if self.build@.len() == 0 {
            Seq::empty()
        } else {
            "+"@ + self.build@
        });
        out
    }
}

impl core::str::FromStr for Version {
    type Err = VersionError;

    fn from_str(text: &str) -> (r: Result<Version, VersionError>)
        ensures
            r is Ok <==> is_version_text(text@),
            r matches Ok(v) ==> v@.valid() && v@.text() == text@,
    {
        Version::parse(text)
    }
}

/// What a requested version holds.
#[verifier::ext_equal]
pub enum ReqVersionText {
    Exact(VersionText),
    Semver(Seq<char>),
    Latest,
}

impl ReqVersionText {
    /// The requested version as it stands in a URL.
    pub open spec fn text(self) -> Seq<char> {
        match self {
            ReqVersionText::Exact(v) => v.text(),
            ReqVersionText::Semver(r) => r,
            ReqVersionText::Latest => "latest"@,
        }
    }
}

/// The version that a request asks for.
#[derive(Debug)]
pub enum ReqVersion {
    /// One version.
    Exact(Version),
    /// The best version that meets a requirement, which is kept in `semver`'s own notation.
    Semver(String),
    /// The newest version.
    Latest,
}

impl View for ReqVersion {
    type V = ReqVersionText;

    open spec fn view(&self) -> ReqVersionText {
        match self {
            ReqVersion::Exact(v) => ReqVersionText::Exact(v@),
            ReqVersion::Semver(r) => ReqVersionText::Semver(r@),
            ReqVersion::Latest => ReqVersionText::Latest,
        }
    }
}

impl Clone for ReqVersion {
    fn clone(&self) -> (r: Self)
        ensures
            r == *self,
    {
        match self {
            ReqVersion::Exact(v) => ReqVersion::Exact(v.clone()),
            ReqVersion::Semver(r) => ReqVersion::Semver(r.clone()),
            ReqVersion::Latest => ReqVersion::Latest,
        }
    }
}

impl PartialEq for ReqVersion {
    fn eq(&self, other: &ReqVersion) -> (r: bool) {
        match (self, other) {
            (ReqVersion::Exact(a), ReqVersion::Exact(b)) => *a == *b,
            (ReqVersion::Semver(a), ReqVersion::Semver(b)) => same_text(a.as_str(), b.as_str()),
            (ReqVersion::Latest, ReqVersion::Latest) => true,
            _ => false,
        }
    }
}

impl vstd::std_specs::cmp::PartialEqSpecImpl for ReqVersion {
    open spec fn obeys_eq_spec() -> bool {
        true
    }

    open spec fn eq_spec(&self, other: &ReqVersion) -> bool {
        self@ == other@
    }
}

impl Default for ReqVersion {
    fn default() -> (r: ReqVersion)
        ensures
            r == ReqVersion::Latest,
    {
        ReqVersion::Latest
    }
}

/// What a version in a URL asks for: the word `latest` the newest one, a full version that one,
/// nothing or the word `newest` any, and everything else what it requires.
pub open spec fn requested(text: Seq<char>, v: ReqVersionText) -> bool {
    if text == "latest"@ {
        v == ReqVersionText::Latest
    } else if is_version_text(text) {
        v matches ReqVersionText::Exact(e) && e.valid() && e.text() == text
    } else if text.len() == 0 || text == "newest"@ {
        v == ReqVersionText::Semver("*"@)
    } else {
        v matches ReqVersionText::Semver(r) && normalized_requirement(text) == Some(r)
    }
}

impl ReqVersion {
    /// Whether the newest version is asked for.
    pub fn is_latest(&self) -> (r: bool)
        ensures
            r == (self@ == ReqVersionText::Latest),
    {
        matches!(self, ReqVersion::Latest)
    }

    /// The requested version as it stands in a URL.
    pub fn to_text(&self) -> (r: String)
        ensures
            r@ == self@.text(),
    {
        match self {
            ReqVersion::Exact(v) => v.to_text(),
            ReqVersion::Semver(r) => r.clone(),
            ReqVersion::Latest => "latest".to_owned(),
        }
    }

    /// Reads the version that a URL asks for.
    pub fn parse(text: &str) -> (r: Result<ReqVersion, VersionError>)
        ensures
            r is Ok <==> (text@ == "latest"@ || is_version_text(text@) || text@.len() == 0 || text@
                == "newest"@ || normalized_requirement(text@) is Some),
            r matches Ok(v) ==> requested(text@, v@),
            r matches Err(e) ==> e == VersionError::Invalid,
    {
        if same_text(text, "latest") {
            return Ok(ReqVersion::Latest);
        }
        if let Ok(v) = Version::parse(text) {
            return Ok(ReqVersion::Exact(v));
        }
        if text.is_empty() || same_text(text, "newest") {
            return Ok(ReqVersion::Semver("*".to_owned()));
        }
        match parse_requirement(text) {
            Ok(r) => Ok(ReqVersion::Semver(r)),
            Err(_) => Err(VersionError::Invalid),
        }
    }
}

/// What comes before the first plus sign, or everything where there is none.
pub open spec fn before_build(text: Seq<char>) -> Seq<char> {
    match first_index(text, '+') {
        Some(i) => text.take(i),
        None => text,
    }
}

/// Behind its numbers a version has its pre-release and its build.
pub open spec fn version_tail(v: VersionText) -> Seq<char> {
    pre_text(v) + (if v.build.len() == 0 {
        Seq::empty()
    } else {
        "+"@ + v.build
    })
}

/// The pre-release behind a dash.
pub open spec fn pre_text(v: VersionText) -> Seq<char> {
    if v.pre.len() == 0 {
        Seq::empty()
    } else {
        "-"@ + v.pre
    }
}

proof fn lemma_pre_has_no_plus(v: VersionText)
    requires
        v.valid(),
    ensures
        forall|i: int| 0 <= i < pre_text(v).len() ==> #[trigger] pre_text(v)[i] != '+',
{
    reveal_strlit("-");
    if v.pre.len() > 0 {
        let kind = |c: char| is_identifier_char(c);
        let p = pieces(v.pre, '.');
        assert forall|i: int, j: int| 0 <= i < p.len() && 0 <= j < p[i].len() implies kind(
            #[trigger] p[i][j],
        ) by {
            assert(p[i].len() > 0);
            assert(is_identifier_char(p[i][j]));
        }
        lemma_chars_of_pieces(v.pre, '.', kind);
        assert forall|i: int| 0 <= i < pre_text(v).len() implies #[trigger] pre_text(v)[i] != '+' by {
            if i > 0 {
                assert(pre_text(v)[i] == v.pre[i - 1]);
                assert(v.pre[i - 1] == '.' || kind(v.pre[i - 1]));
            }
        }
    }
}

proof fn lemma_version_parts(v: VersionText)
    ensures
        v.text() == decimal(v.major as nat) + (seq!['.'] + (decimal(v.minor as nat) + (seq!['.'] + (
        decimal(v.patch as nat) + version_tail(v))))),
        version_tail(v).len() > 0 ==> version_tail(v)[0] == '-' || version_tail(v)[0] == '+',
{
    reveal_strlit(".");
    reveal_strlit("-");
    reveal_strlit("+");
    assert("."@ =~= seq!['.']);
    assert(v.text() =~= decimal(v.major as nat) + (seq!['.'] + (decimal(v.minor as nat) + (seq!['.']
        + (decimal(v.patch as nat) + version_tail(v))))));
}

/// Two versions are the same exactly where they are written alike.
pub proof fn law_version_text_is_unique(a: VersionText, b: VersionText)
    requires
        a.valid(),
        b.valid(),
    ensures
        a.text() == b.text() <==> a == b,
{
    if a.text() == b.text() {
        let digit = |c: char| '0' <= c <= '9';
        let not_plus = |c: char| c != '+';
        reveal_strlit("-");
        reveal_strlit("+");
        lemma_version_parts(a);
        lemma_version_parts(b);
        lemma_decimal_digits(a.major as nat);
        lemma_decimal_digits(b.major as nat);
        lemma_decimal_digits(a.minor as nat);
        lemma_decimal_digits(b.minor as nat);
        lemma_decimal_digits(a.patch as nat);
        lemma_decimal_digits(b.patch as nat);
        let a3 = decimal(a.patch as nat) + version_tail(a);
        let b3 = decimal(b.patch as nat) + version_tail(b);
        let a2 = decimal(a.minor as nat) + (seq!['.'] + a3);
        let b2 = decimal(b.minor as nat) + (seq!['.'] + b3);
        lemma_split_is_unique(
            decimal(a.major as nat),
            seq!['.'] + a2,
            decimal(b.major as nat),
            seq!['.'] + b2,
            digit,
        );
        assert(a2 =~= (seq!['.'] + a2).skip(1));
        assert(b2 =~= (seq!['.'] + b2).skip(1));
        lemma_split_is_unique(
            decimal(a.minor as nat),
            seq!['.'] + a3,
            decimal(b.minor as nat),
            seq!['.'] + b3,
            digit,
        );
        assert(a3 =~= (seq!['.'] + a3).skip(1));
        assert(b3 =~= (seq!['.'] + b3).skip(1));
        lemma_split_is_unique(
            decimal(a.patch as nat),
            version_tail(a),
            decimal(b.patch as nat),
            version_tail(b),
            digit,
        );
        law_decimal_reads_back(a.major as nat);
        law_decimal_reads_back(b.major as nat);
        law_decimal_reads_back(a.minor as nat);
        law_decimal_reads_back(b.minor as nat);
        law_decimal_reads_back(a.patch as nat);
        law_decimal_reads_back(b.patch as nat);
        lemma_pre_has_no_plus(a);
        lemma_pre_has_no_plus(b);
        let a_build = version_tail(a).skip(pre_text(a).len() as int);
        let b_build = version_tail(b).skip(pre_text(b).len() as int);
        assert(version_tail(a) =~= pre_text(a) + a_build);
        assert(version_tail(b) =~= pre_text(b) + b_build);
        lemma_split_is_unique(pre_text(a), a_build, pre_text(b), b_build, not_plus);
        assert(a.pre =~= b.pre) by {
            if a.pre.len() > 0 {
                assert(a.pre =~= pre_text(a).skip(1));
            }
            if b.pre.len() > 0 {
                assert(b.pre =~= pre_text(b).skip(1));
            }
        }
        assert(a.build =~= b.build) by {
            if a.build.len() > 0 {
                assert(a.build =~= a_build.skip(1));
            }
            if b.build.len() > 0 {
                assert(b.build =~= b_build.skip(1));
            }
        }
        assert(a =~= b);
    }
}

/// A version is a pre-release exactly where a dash stands in its text before any plus sign.
pub proof fn law_prerelease_is_seen_in_the_text(v: VersionText)
    requires
        v.valid(),
    ensures
        v.pre.len() > 0 <==> before_build(v.text()).contains('-'),
{
    reveal_strlit(".");
    reveal_strlit("-");
    reveal_strlit("+");
    let numbers = decimal(v.major as nat) + "."@ + decimal(v.minor as nat) + "."@ + decimal(
        v.patch as nat,
    );
    let text = v.text();
    let front = numbers + pre_text(v);
    lemma_decimal_digits(v.major as nat);
    lemma_decimal_digits(v.minor as nat);
    lemma_decimal_digits(v.patch as nat);
    lemma_pre_has_no_plus(v);
    lemma_first_index(text, '+');
    let d1 = decimal(v.major as nat);
    let d2 = decimal(v.minor as nat);
    let d3 = decimal(v.patch as nat);
    assert forall|i: int| 0 <= i < numbers.len() implies #[trigger] numbers[i] == '.' || '0'
        <= numbers[i] <= '9' by {
        if i < d1.len() {
            assert(numbers[i] == d1[i]);
        } else if d1.len() < i < d1.len() + 1 + d2.len() {
            assert(numbers[i] == d2[i - d1.len() - 1]);
        } else if i > d1.len() + 1 + d2.len() {
            assert(numbers[i] == d3[i - d1.len() - d2.len() - 2]);
        }
    }
    assert forall|i: int| 0 <= i < front.len() implies #[trigger] front[i] != '+' by {
        if i < numbers.len() {
            assert(front[i] == numbers[i]);
        } else {
            assert(front[i] == pre_text(v)[i - numbers.len()]);
        }
    }
    assert(text.take(front.len() as int) =~= front);
    assert(before_build(text) =~= front) by {
        if v.build.len() > 0 {
            assert(text[front.len() as int] == '+');
            assert(text.contains(text[front.len() as int]));
            assert forall|i: int| 0 <= i < front.len() implies text[i] != '+' by {
                assert(text[i] == front[i]);
            }
        } else {
            assert(text =~= front);
            if text.contains('+') {
                let k = choose|k: int| 0 <= k < text.len() && text[k] == '+';
                assert(front[k] == '+');
            }
        }
    }
    if v.pre.len() > 0 {
        assert(front[numbers.len() as int] == '-');
    } else if front.contains('-') {
        let k = choose|k: int| 0 <= k < front.len() && front[k] == '-';
        assert(numbers[k] == '-');
    }
}

/// A version begins with a digit, which no word does.
pub proof fn lemma_version_begins_with_a_digit(v: VersionText)
    ensures
        v.text().len() > 0,
        '0' <= v.text()[0] <= '9',
{
    lemma_version_parts(v);
    lemma_decimal_digits(v.major as nat);
    assert(v.text()[0] == decimal(v.major as nat)[0]);
}

/// A version in a URL asks for that version and for no other, and what is asked for by a version
/// or by the word for the newest stands in a URL as it was given.
pub proof fn law_exact_versions_are_asked_for_as_they_are(v: VersionText, req_version: ReqVersionText)
    requires
        v.valid(),
        requested(v.text(), req_version),
    ensures
        req_version == ReqVersionText::Exact(v),
        req_version.text() == v.text(),
{
    reveal_strlit("latest");
    lemma_version_begins_with_a_digit(v);
    assert(is_version_text(v.text()));
    law_version_text_is_unique(req_version->Exact_0, v);
}

/// What a URL asks for is the newest exactly where it says so, one version only where it is
/// written as one, and stands in the URL that is made of it as it was given, unless it is a
/// requirement.
pub proof fn law_requested_versions_keep_their_text(text: Seq<char>, req_version: ReqVersionText)
    requires
        requested(text, req_version),
    ensures
        req_version is Latest <==> text == "latest"@,
        req_version is Exact <==> is_version_text(text),
        !(req_version is Semver) ==> req_version.text() == text,
        text.len() == 0 || text == "newest"@ ==> req_version.text() == "*"@,
        req_version is Semver && text.len() > 0 && text != "newest"@ ==> normalized_requirement(
            text,
        ) == Some(req_version.text()),
{
    reveal_strlit("latest");
    reveal_strlit("newest");
    assert("latest"@[0] == 'l' && "newest"@[0] == 'n');
    if is_version_text(text) {
        let v = choose|v: VersionText| v.valid() && #[trigger] v.text() == text;
        lemma_version_begins_with_a_digit(v);
    }
}

/// No slash stands in a version.
pub proof fn law_version_text_has_no_slash(v: VersionText)
    requires
        v.valid(),
    ensures
        !v.text().contains('/'),
{
    reveal_strlit(".");
    reveal_strlit("-");
    reveal_strlit("+");
    let kind = |c: char| is_identifier_char(c);
    lemma_version_parts(v);
    lemma_decimal_digits(v.major as nat);
    lemma_decimal_digits(v.minor as nat);
    lemma_decimal_digits(v.patch as nat);
    if v.pre.len() > 0 {
        lemma_identifier_chars(v.pre);
    }
    if v.build.len() > 0 {
        lemma_identifier_chars(v.build);
    }
    let d1 = decimal(v.major as nat);
    let d2 = decimal(v.minor as nat);
    let d3 = decimal(v.patch as nat);
    let p = pre_text(v);
    let b = version_tail(v).skip(p.len() as int);
    assert forall|i: int| 0 <= i < p.len() implies #[trigger] p[i] != '/' by {
        if i > 0 {
            assert(p[i] == v.pre[i - 1]);
        }
    }
    assert forall|i: int| 0 <= i < b.len() implies #[trigger] b[i] != '/' by {
        if i > 0 {
            assert(b[i] == v.build[i - 1]);
        }
    }
    let dot = seq!['.'];
    assert(v.text() =~= d1 + dot + d2 + dot + d3 + p + b);
    if v.text().contains('/') {
        assert(d1.contains('/') || dot.contains('/') || d2.contains('/') || d3.contains('/')
            || p.contains('/') || b.contains('/')) by {
            let t = v.text();
            let k = choose|k: int| 0 <= k < t.len() && t[k] == '/';
            let n1 = d1.len() as int;
            let n2 = n1 + 1 + d2.len();
            let n3 = n2 + 1 + d3.len();
            let n4 = n3 + p.len();
            if k < n1 {
                assert(d1[k] == '/');
            } else if k == n1 || k == n2 {
                assert(dot[0] == '/');
            } else if k < n2 {
                assert(d2[k - n1 - 1] == '/');
            } else if k < n3 {
                assert(d3[k - n2 - 1] == '/');
            } else if k < n4 {
                assert(p[k - n3] == '/');
            } else {
                assert(b[k - n4] == '/');
            }
        }
    }
}

proof fn lemma_identifier_chars(s: Seq<char>)
    requires
        is_identifiers(s),
    ensures
        forall|i: int| 0 <= i < s.len() ==> #[trigger] s[i] == '.' || is_identifier_char(s[i]),
{
    let kind = |c: char| is_identifier_char(c);
    let p = pieces(s, '.');
    assert forall|i: int, j: int| 0 <= i < p.len() && 0 <= j < p[i].len() implies kind(
        #[trigger] p[i][j],
    ) by {
        assert(p[i].len() > 0);
        assert(is_identifier_char(p[i][j]));
    }
    lemma_chars_of_pieces(s, '.', kind);
    assert forall|i: int| 0 <= i < s.len() implies #[trigger] s[i] == '.' || is_identifier_char(
        s[i],
    ) by {
        assert(s[i] == '.' || kind(s[i]));
    }
}

} // verus!
