//! What is asked of the registry, and what is made of its answers.
use crate::text::{joined, lemma_pieces_of_joined, owned_texts, pieces, texts};
use crate::url_text::{
    extend_path_segments, extended_url, is_url_sized, requeried_url, set_url_query,
};
use crate::version::{law_version_text_is_unique, Version, VersionText};
use vstd::prelude::*;
use vstd::string::StringExecFns;

verus! {

/// What the registry knows of a crate.
#[derive(Debug)]
pub struct CrateData {
    pub owners: Vec<CrateOwner>,
}

/// What the registry knows of a release. The type of the time is left to the caller.
#[derive(Debug, PartialEq)]
pub struct ReleaseData<T> {
    pub release_time: T,
    pub yanked: bool,
    pub downloads: i32,
}

impl<T> ReleaseData<T> {
    /// What is taken for a release that the registry does not know, at the time that it is now.
    pub fn unknown_at(now: T) -> (r: ReleaseData<T>)
        ensures
            r.release_time == now,
            !r.yanked,
            r.downloads == 0,
    {
        ReleaseData { release_time: now, yanked: false, downloads: 0 }
    }
}

/// An owner of a crate.
#[derive(Clone, Debug)]
pub struct CrateOwner {
    pub avatar: String,
    pub login: String,
    pub kind: OwnerKind,
}

/// What an owner of a crate holds.
#[verifier::ext_equal]
pub struct CrateOwnerText {
    pub avatar: Seq<char>,
    pub login: Seq<char>,
    pub kind: OwnerKind,
}

impl View for CrateOwner {
    type V = CrateOwnerText;

    open spec fn view(&self) -> CrateOwnerText {
        CrateOwnerText { avatar: self.avatar@, login: self.login@, kind: self.kind }
    }
}

/// Whether an owner is a person or a group of them.
#[derive(Clone, Copy, Debug, PartialEq, Eq, PartialOrd, Ord, Structural)]
pub enum OwnerKind {
    User,
    Team,
}

impl OwnerKind {
    /// The kind as it is written.
    pub fn to_text(&self) -> (r: &'static str)
        ensures
            r@ == (match self {
                OwnerKind::User => "user"@,
                OwnerKind::Team => "team"@,
            }),
    {
        match self {
            OwnerKind::User => "user",
            OwnerKind::Team => "team",
        }
    }
}

/// A crate that a search found.
#[derive(Debug)]
pub struct SearchCrate {
    pub name: String,
}

/// Where the results of a search go on.
#[derive(Debug)]
pub struct SearchMeta {
    pub next_page: Option<String>,
    pub prev_page: Option<String>,
}

/// The results of a search.
#[derive(Debug)]
pub struct Search {
    pub crates: Vec<SearchCrate>,
    pub meta: SearchMeta,
}

/// Why the registry cannot be asked, or gave no answer.
#[derive(Debug)]
pub enum RegistryError {
    /// The base of the API's URLs is no URL that a path can be added to.
    InvalidApiUrl,
    /// The release is not in the registry's list of releases.
    VersionMissing,
    /// The registry reports errors, one on a line.
    Reported(String),
    /// The answer to a search lists no crates.
    ReleasesMissing,
    /// The answer to a search does not say where its results go on.
    MetadataMissing,
}

impl RegistryError {
    /// What is reported.
    pub open spec fn text(self) -> Seq<char> {
        match self {
            RegistryError::InvalidApiUrl => "Invalid API url"@,
            RegistryError::VersionMissing => "Could not find version in response"@,
            RegistryError::Reported(messages) => "got error from crates.io: "@ + messages@,
            RegistryError::ReleasesMissing => "missing releases in crates.io response"@,
            RegistryError::MetadataMissing => "missing metadata in crates.io response"@,
        }
    }

    /// What is reported.
    pub fn message(&self) -> (r: String)
        ensures
            r@ == self.text(),
    {
        match self {
            RegistryError::InvalidApiUrl => "Invalid API url".to_owned(),
            RegistryError::VersionMissing => "Could not find version in response".to_owned(),
            RegistryError::Reported(messages) => {
                let mut out: String = "got error from crates.io: ".to_owned();
                out.append(messages.as_str());
                out
            },
            RegistryError::ReleasesMissing => "missing releases in crates.io response".to_owned(),
            RegistryError::MetadataMissing => "missing metadata in crates.io response".to_owned(),
        }
    }
}

/// The path, below the base of the API, of what there is on a crate.
pub open spec fn crate_segments(name: Seq<char>, what: Seq<char>) -> Seq<Seq<char>> {
    seq!["api"@, "v1"@, "crates"@, name, what]
}

/// The URL of what there is on a crate.
fn crate_api_url(api_base: &str, name: &str, what: &str) -> (r: Result<String, RegistryError>)
    requires
        is_url_sized(api_base@.len() + name@.len() + what@.len() + 16),
    ensures
        r is Ok <==> extended_url(api_base@, crate_segments(name@, what@)) is Some,
        r matches Ok(url) ==> extended_url(api_base@, crate_segments(name@, what@)) == Some(url@),
        r matches Err(e) ==> e is InvalidApiUrl,
{
    let segments: Vec<&str> = vec!["api", "v1", "crates", name, what];
    proof {
        let s = texts(segments@);
        assert(s =~= crate_segments(name@, what@));
        reveal_strlit("api");
        reveal_strlit("v1");
        reveal_strlit("crates");
        reveal_strlit("/");
        reveal_with_fuel(joined, 6);
        assert(s.drop_last() =~= seq!["api"@, "v1"@, "crates"@, name@]);
        assert(s.drop_last().drop_last() =~= seq!["api"@, "v1"@, "crates"@]);
        assert(s.drop_last().drop_last().drop_last() =~= seq!["api"@, "v1"@]);
        assert(s.drop_last().drop_last().drop_last().drop_last() =~= seq!["api"@]);
        assert(joined(s, "/"@).len() == name@.len() + what@.len() + 15);
    }
    match extend_path_segments(api_base, &segments) {
        Some(url) => Ok(url),
        None => Err(RegistryError::InvalidApiUrl),
    }
}

/// The URL of the list of a crate's releases.
pub fn versions_url(api_base: &str, name: &str) -> (r: Result<String, RegistryError>)
    requires
        is_url_sized(api_base@.len() + name@.len() + 32),
    ensures
        r is Ok <==> extended_url(api_base@, crate_segments(name@, "versions"@)) is Some,
        r matches Ok(url) ==> extended_url(api_base@, crate_segments(name@, "versions"@)) == Some(
            url@,
        ),
        r matches Err(e) ==> e is InvalidApiUrl,
{
    proof {
        reveal_strlit("versions");
    }
    crate_api_url(api_base, name, "versions")
}

/// The URL of the list of a crate's owners.
pub fn owners_url(api_base: &str, name: &str) -> (r: Result<String, RegistryError>)
    requires
        is_url_sized(api_base@.len() + name@.len() + 32),
    ensures
        r is Ok <==> extended_url(api_base@, crate_segments(name@, "owners"@)) is Some,
        r matches Ok(url) ==> extended_url(api_base@, crate_segments(name@, "owners"@)) == Some(
            url@,
        ),
        r matches Err(e) ==> e is InvalidApiUrl,
{
    proof {
        reveal_strlit("owners");
    }
    crate_api_url(api_base, name, "owners")
}

/// The path, below the base of the API, of the search.
pub open spec fn search_segments() -> Seq<Seq<char>> {
    seq!["api"@, "v1"@, "crates"@]
}

/// The URL of a search. Only the end of a query before a fragment is counted in 32 bits.
pub fn search_url(api_base: &str, query_params: &str) -> (r: Result<String, RegistryError>)
    requires
        is_url_sized(api_base@.len() + 16),
        api_base@.contains('#') ==> is_url_sized(api_base@.len() + query_params@.len() + 16),
    ensures
        r is Ok <==> requeried_url(api_base@, search_segments(), query_params@) is Some,
        r matches Ok(url) ==> requeried_url(api_base@, search_segments(), query_params@) == Some(
            url@,
        ),
        r matches Err(e) ==> e is InvalidApiUrl,
{
    let segments: Vec<&str> = vec!["api", "v1", "crates"];
    proof {
        let s = texts(segments@);
        assert(s =~= search_segments());
        reveal_strlit("api");
        reveal_strlit("v1");
        reveal_strlit("crates");
        reveal_strlit("/");
        reveal_with_fuel(joined, 4);
        assert(s.drop_last() =~= seq!["api"@, "v1"@]);
        assert(s.drop_last().drop_last() =~= seq!["api"@]);
    }
    match set_url_query(api_base, &segments, query_params) {
        Some(url) => Ok(url),
        None => Err(RegistryError::InvalidApiUrl),
    }
}

/// What to make of the status of the answer to a question about a crate's releases.
#[derive(Clone, Copy, Debug, PartialEq, Eq, Structural)]
pub enum ReleaseAnswer {
    /// The answer lists releases.
    Listed,
    /// The registry does not know the crate.
    Unknown,
    /// The registry failed.
    Failed,
}

/// What to make of the status of the answer to a question about a crate's releases.
pub open spec fn answer_for(status: u16) -> ReleaseAnswer {
    if status == 404 {
        ReleaseAnswer::Unknown
    } else if 400 <= status < 600 {
        ReleaseAnswer::Failed
    } else {
        ReleaseAnswer::Listed
    }
}

/// What to make of the status of the answer to a question about a crate's releases.
pub fn release_answer(status: u16) -> (r: ReleaseAnswer)
    ensures
        r == answer_for(status),
{
    if status == 404 {
        ReleaseAnswer::Unknown
    } else if 400 <= status && status < 600 {
        ReleaseAnswer::Failed
    } else {
        ReleaseAnswer::Listed
    }
}

/// A release in the registry's list.
#[derive(Debug)]
pub struct VersionData<T> {
    pub num: Version,
    pub created_at: T,
    pub yanked: bool,
    pub downloads: i32,
}

/// Whether a list of releases holds a version at `i`, and not before.
pub open spec fn first_with_version<T>(
    versions: Seq<VersionData<T>>,
    version: VersionText,
    i: int,
) -> bool {
    &&& 0 <= i < versions.len()
    &&& versions[i].num@ == version
    &&& forall|j: int| 0 <= j < i ==> (#[trigger] versions[j]).num@ != version
}

/// Whether `data` is what a list says of the first release with a version.
pub open spec fn is_picked<T>(
    data: ReleaseData<T>,
    versions: Seq<VersionData<T>>,
    version: VersionText,
) -> bool {
    exists|i: int| #[trigger]
        first_with_version(versions, version, i) && data.release_time == versions[i].created_at
            && data.yanked == versions[i].yanked && data.downloads == versions[i].downloads
}

/// Picks a release out of the registry's list: the first one with its version.
pub fn pick_release<T>(versions: Vec<VersionData<T>>, version: &Version) -> (r: Result<
    ReleaseData<T>,
    RegistryError,
>)
    ensures
        r is Ok <==> exists|i: int| first_with_version(versions@, version@, i),
        r matches Ok(data) ==> is_picked(data, versions@, version@),
        r is Err <==> forall|i: int|
            0 <= i < versions@.len() ==> (#[trigger] versions@[i]).num@ != version@,
        r matches Err(e) ==> e is VersionMissing,
{
    let n: usize = versions.len();
    let mut i: usize = 0;
    while i < n && versions[i].num != *version
        invariant
            n == versions@.len(),
            i <= n,
            forall|j: int| 0 <= j < i ==> (#[trigger] versions@[j]).num@ != version@,
        decreases n - i,
    {
        i = i + 1;
    }
    if i == n {
        return Err(RegistryError::VersionMissing);
    }
    assert(first_with_version(versions@, version@, i as int));
    let mut versions: Vec<VersionData<T>> = versions;
    let data: VersionData<T> = versions.remove(i);
    Ok(
        ReleaseData {
            release_time: data.created_at,
            yanked: data.yanked,
            downloads: data.downloads,
        },
    )
}

/// An owner in the registry's list.
#[derive(Debug)]
pub struct OwnerData {
    pub avatar: Option<String>,
    pub login: Option<String>,
    pub kind: Option<OwnerKind>,
}

/// The text of an optional value, empty where there is none.
pub open spec fn or_empty(o: Option<String>) -> Seq<char> {
    match o {
        Some(s) => s@,
        None => Seq::empty(),
    }
}

fn unwrap_or_empty(o: Option<String>) -> (r: String)
    ensures
        r@ == or_empty(o),
{
    match o {
        Some(s) => s,
        None => String::new(),
    }
}

/// What is taken from an owner in the registry's list. What is missing is empty, and an owner is
/// a user.
pub open spec fn owner_of(data: OwnerData) -> CrateOwnerText {
    CrateOwnerText {
        avatar: or_empty(data.avatar),
        login: or_empty(data.login),
        kind: match data.kind {
            Some(kind) => kind,
            None => OwnerKind::User,
        },
    }
}

/// The owners that are taken from the registry's list: all but those whose login is given as
/// empty.
pub open spec fn owners_of(users: Seq<OwnerData>) -> Seq<CrateOwnerText>
    decreases users.len(),
{
    if users.len() == 0 {
        Seq::empty()
    } else {
        let front = owners_of(users.drop_last());
        let last = users.last();
        if last.login matches Some(login) && login@.len() == 0 {
            front
        } else {
            front.push(owner_of(last))
        }
    }
}

/// What a list of owners holds.
pub open spec fn owner_texts(owners: Seq<CrateOwner>) -> Seq<CrateOwnerText> {
    owners.map_values(|o: CrateOwner| o@)
}

/// Takes the owners of a crate from the registry's list.
pub fn take_owners(users: Vec<OwnerData>) -> (r: CrateData)
    ensures
        owner_texts(r.owners@) == owners_of(users@),
{
    let ghost all = users@;
    let mut rest: Vec<OwnerData> = users;
    let mut owners: Vec<CrateOwner> = Vec::new();
    let n: usize = rest.len();
    assert(all.take(0) =~= Seq::<OwnerData>::empty());
    assert(owner_texts(owners@) =~= Seq::<CrateOwnerText>::empty());
    let mut i: usize = 0;
    while i < n
        invariant
            n == all.len(),
            i <= n,
            rest@ == all.skip(i as int),
            owner_texts(owners@) == owners_of(all.take(i as int)),
        decreases n - i,
    {
        let data: OwnerData = rest.remove(0);
        let ghost before = owners@;
        proof {
            assert(data == all[i as int]);
            assert(rest@ =~= all.skip(i + 1));
            assert(all.take(i + 1).drop_last() =~= all.take(i as int));
            assert(all.take(i + 1).last() == data);
        }
        let nameless: bool = match &data.login {
            Some(login) => login.as_str().is_empty(),
            None => false,
        };
        if !nameless {
            let kind: OwnerKind = match data.kind {
                Some(kind) => kind,
                None => OwnerKind::User,
            };
            let owner: CrateOwner = CrateOwner {
                avatar: unwrap_or_empty(data.avatar),
                login: unwrap_or_empty(data.login),
                kind,
            };
            assert(owner@ =~= owner_of(data));
            owners.push(owner);
            assert(owner_texts(owners@) =~= owner_texts(before).push(owner@));
        }
        i = i + 1;
    }
    assert(all.take(n as int) =~= all);
    CrateData { owners }
}

/// What the registry answers to a search.
#[derive(Debug)]
pub struct SearchResponse {
    pub crates: Option<Vec<SearchCrate>>,
    pub meta: Option<SearchMeta>,
    /// What went wrong, each with a detailed message.
    pub errors: Option<Vec<String>>,
}

/// Whether `r` is what is made of the answer to a search.
pub open spec fn is_search_result(response: SearchResponse, r: Result<Search, RegistryError>) -> bool {
    &&& r is Ok <==> response.errors is None && response.crates is Some && response.meta is Some
    &&& r matches Ok(search) ==> response.crates == Some(search.crates) && response.meta == Some(
        search.meta,
    )
    &&& response.errors matches Some(errors) ==> (r matches Err(RegistryError::Reported(messages))
        && messages@ == joined(owned_texts(errors@), "\n"@))
    &&& response.errors is None && response.crates is None ==> (r matches Err(e)
        && e is ReleasesMissing)
    &&& response.errors is None && response.crates is Some && response.meta is None ==> (
    r matches Err(e) && e is MetadataMissing)
}

/// The results in the answer to a search.
pub fn search_results(response: SearchResponse) -> (r: Result<Search, RegistryError>)
    ensures
        is_search_result(response, r),
{
    if let Some(errors) = response.errors {
        assert(owned_texts(errors@).skip(0) =~= owned_texts(errors@));
        return Err(RegistryError::Reported(crate::text::join_from(&errors, 0, "\n")));
    }
    match response.crates {
        Some(crates) => match response.meta {
            Some(meta) => Ok(Search { crates, meta }),
            None => Err(RegistryError::MetadataMissing),
        },
        None => Err(RegistryError::ReleasesMissing),
    }
}

/// Owners keep the order of the registry's list, and none is added.
pub proof fn law_owners_are_no_more_than_listed(users: Seq<OwnerData>)
    ensures
        owners_of(users).len() <= users.len(),
        forall|i: int|
            0 <= i < owners_of(users).len() ==> exists|j: int|
                0 <= j < users.len() && #[trigger] owners_of(users)[i] == owner_of(
                    #[trigger] users[j],
                ),
    decreases users.len(),
{
    if users.len() > 0 {
        let front = users.drop_last();
        law_owners_are_no_more_than_listed(front);
        assert forall|i: int| 0 <= i < owners_of(users).len() implies exists|j: int|
            0 <= j < users.len() && #[trigger] owners_of(users)[i] == owner_of(
                #[trigger] users[j],
            ) by {
            if i < owners_of(front).len() {
                let j = choose|j: int|
                    0 <= j < front.len() && owners_of(front)[i] == owner_of(#[trigger] front[j]);
                assert(users[j] == front[j]);
            } else {
                assert(users[users.len() - 1] == users.last());
            }
        }
    }
}

/// A crate is unknown exactly where the registry does not find it. Every other error of the client
/// or of the server, whose statuses begin with a four or a five, is a failure.
pub proof fn law_only_missing_crates_are_unknown(status: u16)
    ensures
        answer_for(status) == ReleaseAnswer::Unknown <==> status == 404,
        answer_for(status) == ReleaseAnswer::Failed <==> status != 404 && (status as int / 100 == 4
            || status as int / 100 == 5),
{
}

/// What is picked is what the list says of the version that was asked for, and of no other: where
/// the list names a version once, it is that entry, wherever it stands.
pub proof fn law_picked_release_is_of_the_version<T>(
    data: ReleaseData<T>,
    versions: Seq<VersionData<T>>,
    version: VersionText,
    k: int,
)
    requires
        is_picked(data, versions, version),
        0 <= k < versions.len(),
        versions[k].num@.text() == version.text(),
        version.valid(),
        forall|i: int| 0 <= i < versions.len() ==> (#[trigger] versions[i]).num@.valid(),
        forall|i: int| 0 <= i < k ==> (#[trigger] versions[i]).num@.text() != version.text(),
    ensures
        data.release_time == versions[k].created_at,
        data.yanked == versions[k].yanked,
        data.downloads == versions[k].downloads,
{
    let i = choose|i: int| #[trigger]
        first_with_version(versions, version, i) && data.release_time == versions[i].created_at
            && data.yanked == versions[i].yanked && data.downloads == versions[i].downloads;
    assert(versions[k].num@.valid());
    law_version_text_is_unique(versions[k].num@, version);
    if k < i {
        assert(versions[k].num@ != version);
    }
    if i < k {
        assert(versions[i].num@.text() != version.text());
    }
}

/// Whether an owner in the registry's list is left out.
pub open spec fn is_nameless(data: OwnerData) -> bool {
    data.login matches Some(login) && login@.len() == 0
}

/// Owners are taken one list behind the other: each is taken or left out by itself, so that none
/// with a login is lost and the order stays.
pub proof fn law_owners_are_taken_one_by_one(users: Seq<OwnerData>, more: Seq<OwnerData>)
    ensures
        owners_of(users + more) == owners_of(users) + owners_of(more),
    decreases more.len(),
{
    if more.len() == 0 {
        assert(users + more =~= users);
        assert(owners_of(users) + owners_of(more) =~= owners_of(users));
    } else {
        law_owners_are_taken_one_by_one(users, more.drop_last());
        assert((users + more).drop_last() =~= users + more.drop_last());
        assert((users + more).last() == more.last());
        assert(owners_of(users + more) =~= owners_of(users) + owners_of(more));
    }
}

/// An owner is left out exactly where the login is given as empty. What is kept of every other one
/// is what the list says, and an owner of whom no kind is said is a user.
pub proof fn law_every_owner_with_a_login_is_kept(user: OwnerData)
    ensures
        is_nameless(user) ==> owners_of(seq![user]).len() == 0,
        !is_nameless(user) ==> owners_of(seq![user]).len() == 1 && ({
            let owner = owners_of(seq![user])[0];
            &&& user.login matches Some(login) ==> owner.login == login@
            &&& user.avatar matches Some(avatar) ==> owner.avatar == avatar@
            &&& user.kind matches Some(kind) ==> owner.kind == kind
            &&& user.login is None ==> owner.login.len() == 0
            &&& user.avatar is None ==> owner.avatar.len() == 0
            &&& user.kind is None ==> owner.kind == OwnerKind::User
        }),
{
    let one = seq![user];
    assert(one.drop_last() =~= Seq::<OwnerData>::empty());
    assert(owners_of(one.drop_last()) =~= Seq::<CrateOwnerText>::empty());
}

/// What is asked of the registry names the crate and what is asked, so that no two questions share
/// a path.
pub proof fn law_questions_to_the_registry_differ(
    name: Seq<char>,
    what: Seq<char>,
    other_name: Seq<char>,
    other_what: Seq<char>,
)
    ensures
        crate_segments(name, what) == crate_segments(other_name, other_what) <==> name == other_name
            && what == other_what,
        search_segments().is_prefix_of(crate_segments(name, what)),
        crate_segments(name, what)[3] == name,
        crate_segments(name, what).last() == what,
{
    let a = crate_segments(name, what);
    let b = crate_segments(other_name, other_what);
    if a == b {
        assert(a[3] == b[3] && a[4] == b[4]);
    }
    assert(a.take(3) =~= search_segments());
}

/// A search that the registry reports errors of has no results, whatever else its answer holds, and
/// every error is reported on a line of its own. Otherwise the results are those of the answer.
pub proof fn law_reported_errors_are_no_results(
    response: SearchResponse,
    r: Result<Search, RegistryError>,
)
    requires
        is_search_result(response, r),
        response.errors matches Some(errors) ==> errors@.len() > 0 && forall|i: int|
            0 <= i < errors@.len() ==> !(#[trigger] errors@[i])@.contains('\n'),
    ensures
        response.errors is Some ==> r is Err,
        response.errors matches Some(errors) ==> (r matches Err(RegistryError::Reported(messages))
            && pieces(messages@, '\n') == owned_texts(errors@)),
        response.errors is None && response.crates is Some && response.meta is Some ==> (
        r matches Ok(search) && search.crates == response.crates.unwrap() && search.meta
            == response.meta.unwrap()),
        response.crates is None || response.meta is None ==> r is Err,
        r matches Err(RegistryError::Reported(_)) <==> response.errors is Some,
        r matches Err(e) ==> !(e is InvalidApiUrl) && !(e is VersionMissing),
{
    if let Some(errors) = response.errors {
        reveal_strlit("\n");
        assert("\n"@ =~= seq!['\n']);
        let messages = owned_texts(errors@);
        assert forall|i: int| 0 <= i < messages.len() implies !(#[trigger] messages[i]).contains(
            '\n',
        ) by {
            assert(messages[i] == errors@[i]@);
        }
        lemma_pieces_of_joined(messages, '\n');
    }
}

/// What the registry reported is what is reported of it, behind words of our own.
pub proof fn law_reported_messages_are_passed_on(messages: String, other: String)
    ensures
        messages@.is_suffix_of(RegistryError::Reported(messages).text()),
        RegistryError::Reported(messages).text() == RegistryError::Reported(other).text()
            <==> messages@ == other@,
{
    let head = "got error from crates.io: "@;
    let a = RegistryError::Reported(messages).text();
    let b = RegistryError::Reported(other).text();
    assert(a.skip(a.len() - messages@.len()) =~= messages@);
    assert(a.skip(head.len() as int) =~= messages@);
    assert(b.skip(head.len() as int) =~= other@);
}

} // verus!
