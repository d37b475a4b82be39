//! The commands of the administration tool. A command is a conversation: it asks for one operation
//! at a time, and goes on with what the operation gave.
use crate::decimal::{signed_decimal, to_signed_decimal};
use crate::registry_api::CrateData;
use crate::text::{
    align_right, join_from, joined, lemma_pieces_of_joined, owned_texts, pieces, right_aligned,
};
use vstd::prelude::*;
use vstd::string::StringExecFns;

verus! {

/// A command on the build queue.
#[derive(Debug)]
pub enum QueueSubcommand {
    /// Add a crate to the build queue.
    Add { crate_name: String, crate_version: String, build_priority: i32 },
    /// Interactions with build queue priorities.
    DefaultPriority { subcommand: PrioritySubcommand },
    /// Get the registry watcher's last seen reference.
    GetLastSeenReference,
    /// Set the registry watcher's last seen reference, to one that is given or to the current
    /// head of the index.
    SetLastSeenReference { reference: Option<String>, head: bool },
}

/// A command on the priorities in the build queue.
#[derive(Debug)]
pub enum PrioritySubcommand {
    /// Get the priority of a crate.
    Get { crate_name: String },
    /// List the priorities for all patterns.
    List,
    /// Set all crates that match a pattern to a priority.
    SetPriority { pattern: String, priority: i32 },
    /// Remove the priority for a pattern.
    Remove { pattern: String },
}

/// A command on the database. The types of paths and of durations are left to the caller.
#[derive(Debug)]
#[allow(inconsistent_fields)]
pub enum DatabaseSubcommand<P, D> {
    /// Run database migrations.
    Migrate { version: Option<i64> },
    /// Update what the newest version of each crate is.
    UpdateLatestVersionId,
    /// Update the statistics of the crates' repositories.
    UpdateRepositoryFields,
    /// Fill in missing statistics of the crates' repositories.
    BackfillRepositoryStats,
    /// Update what the registry knows of a crate.
    UpdateCrateRegistryFields { name: String },
    /// Add a file or a directory.
    AddDirectory { directory: P },
    /// Remove documentation.
    Delete { command: DeleteSubcommand },
    /// Blacklist operations.
    Blacklist { command: BlacklistSubcommand },
    /// Limit overrides operations.
    Limits { command: LimitsSubcommand<D> },
    /// Compare the database with the index, and resolve inconsistencies.
    Synchronize { dry_run: bool },
}

/// A command that deletes documentation.
#[derive(Debug)]
pub enum DeleteSubcommand {
    /// Delete a whole crate.
    Crate { name: String },
    /// Delete a single version of a crate.
    Version { name: String, version: String },
}

/// A command on the blacklist.
#[derive(Debug)]
pub enum BlacklistSubcommand {
    /// List all crates on the blacklist.
    List,
    /// Add a crate to the blacklist.
    Add { crate_name: String },
    /// Remove a crate from the blacklist.
    Remove { crate_name: String },
}

/// A command on the limits that are set for crates.
#[derive(Debug)]
pub enum LimitsSubcommand<D> {
    /// Get the limits that are set for a crate.
    Get { crate_name: String },
    /// List the limits that are set for all crates.
    List,
    /// Set limits for a crate.
    SetLimits {
        crate_name: String,
        memory: Option<usize>,
        targets: Option<usize>,
        timeout: Option<D>,
    },
    /// Remove the limits that are set for a crate.
    Remove { crate_name: String },
}

/// The limits that are set for a crate.
#[derive(Debug)]
pub struct Overrides<D> {
    pub memory: Option<usize>,
    pub targets: Option<usize>,
    pub timeout: Option<D>,
}

/// What the limits of a crate are loaded for.
#[derive(Debug)]
pub enum OverridesUse<D> {
    /// To show them.
    Show,
    /// To show them before they are replaced.
    Replace(Overrides<D>),
    /// To show them after they were replaced.
    ShowNew,
    /// To show them before they are removed.
    Remove,
}

/// The operation that a command asks for.
#[derive(Debug)]
#[allow(inconsistent_fields)]
pub enum Action<P, D> {
    /// None: the command is done.
    Finish,
    /// Add a crate to the queue, from a registry or, where none is given, from crates.io.
    AddToQueue {
        crate_name: String,
        crate_version: String,
        build_priority: i32,
        registry_url: Option<String>,
    },
    LoadLastSeenReference,
    /// Look up the head of the index.
    FetchHead,
    SaveLastSeenReference { reference: String },
    ListPriorities,
    FindPriority { crate_name: String },
    SavePriority { pattern: String, priority: i32 },
    RemovePriority { pattern: String },
    Migrate { version: Option<i64> },
    /// Get the next crate in the database, in the order of their names.
    NextCrate,
    UpdateLatestVersion { crate_id: i32 },
    UpdateRepositories,
    BackfillRepositories,
    FetchCrateData { name: String },
    SaveCrateData { name: String, data: CrateData },
    AddDirectory { directory: P },
    DeleteCrate { name: String },
    DeleteVersion { name: String, version: String },
    ListBlacklist,
    AddToBlacklist { crate_name: String },
    RemoveFromBlacklist { crate_name: String },
    LoadOverrides { crate_name: String, then_do: OverridesUse<D> },
    ListOverrides,
    SaveOverrides { crate_name: String, overrides: Overrides<D> },
    RemoveOverrides { crate_name: String },
    Synchronize { dry_run: bool },
}

/// What an operation gave.
#[derive(Debug)]
pub enum Reply {
    /// Nothing more than that it is done.
    Done,
    Reference(Option<String>),
    Head(String),
    Priorities(Vec<(String, i32)>),
    Priority(Option<(String, i32)>),
    RemovedPriority(Option<i32>),
    /// The next crate, by its number and its name, or none where there are no more.
    Crate(Option<(i32, String)>),
    CrateData(CrateData),
    Blacklist(Vec<String>),
    /// The limits of a crate, as they are shown.
    Overrides(String),
    /// The limits of all crates, as they are shown.
    AllOverrides(Vec<(String, String)>),
}

/// One turn of a command: what it prints, and then what it asks for.
#[derive(Debug)]
pub struct Turn<P, D> {
    pub lines: Vec<String>,
    pub action: Action<P, D>,
}

impl<P, D> Action<P, D> {
    /// Whether `reply` is what the operation gives.
    pub open spec fn accepts(self, reply: Reply) -> bool {
        match self {
            Action::Finish => false,
            Action::LoadLastSeenReference => reply is Reference,
            Action::FetchHead => reply is Head,
            Action::ListPriorities => reply is Priorities,
            Action::FindPriority { .. } => reply is Priority,
            Action::RemovePriority { .. } => reply is RemovedPriority,
            Action::NextCrate => reply is Crate,
            Action::FetchCrateData { .. } => reply is CrateData,
            Action::ListBlacklist => reply is Blacklist,
            Action::LoadOverrides { .. } => reply is Overrides,
            Action::ListOverrides => reply is AllOverrides,
            _ => reply is Done,
        }
    }

    /// What a command asks for after an operation.
    pub open spec fn next(self, reply: Reply) -> Action<P, D> {
        match (self, reply) {
            (Action::FetchHead, Reply::Head(reference)) => Action::SaveLastSeenReference {
                reference,
            },
            (Action::NextCrate, Reply::Crate(Some((crate_id, _)))) => Action::UpdateLatestVersion {
                crate_id,
            },
            (Action::UpdateLatestVersion { .. }, _) => Action::NextCrate,
            (Action::FetchCrateData { name }, Reply::CrateData(data)) => Action::SaveCrateData {
                name,
                data,
            },
            (Action::LoadOverrides { crate_name, then_do }, _) => match then_do {
                OverridesUse::Replace(overrides) => Action::SaveOverrides { crate_name, overrides },
                OverridesUse::Remove => Action::RemoveOverrides { crate_name },
                _ => Action::Finish,
            },
            (Action::SaveOverrides { crate_name, .. }, _) => Action::LoadOverrides {
                crate_name,
                then_do: OverridesUse::ShowNew,
            },
            _ => Action::Finish,
        }
    }

    /// What a command prints after an operation.
    pub open spec fn printed(self, reply: Reply) -> Seq<Seq<char>> {
        match (self, reply) {
            (Action::LoadLastSeenReference, Reply::Reference(Some(reference))) => seq![
                "Last seen reference: "@ + reference@,
            ],
            (Action::LoadLastSeenReference, Reply::Reference(None)) => seq![
                "No last seen reference available"@,
            ],
            (Action::SaveLastSeenReference { reference }, _) => seq![
                "Set last seen reference: "@ + reference@,
            ],
            (Action::ListPriorities, Reply::Priorities(all)) => all@.map_values(
                |p: (String, i32)| priority_line(p.0@, p.1 as int),
            ),
            (Action::FindPriority { .. }, Reply::Priority(Some((pattern, priority)))) => seq![
                pattern@ + " : "@ + signed_decimal(priority as int),
            ],
            (Action::FindPriority { crate_name }, Reply::Priority(None)) => seq![
                "No priority found for "@ + crate_name@,
            ],
            (Action::SavePriority { pattern, priority }, _) => seq![
                "Set pattern '"@ + pattern@ + "' to priority "@ + signed_decimal(priority as int),
            ],
            (Action::RemovePriority { pattern }, Reply::RemovedPriority(Some(priority))) => seq![
                "Removed pattern '"@ + pattern@ + "' with priority "@ + signed_decimal(
                    priority as int,
                ),
            ],
            (Action::RemovePriority { pattern }, Reply::RemovedPriority(None)) => seq![
                "Pattern '"@ + pattern@ + "' did not exist and so was not removed"@,
            ],
            (Action::NextCrate, Reply::Crate(Some((_, name)))) => seq!["handling crate "@ + name@],
            (Action::ListBlacklist, Reply::Blacklist(crates)) => seq![
                joined(owned_texts(crates@), "\n"@),
            ],
            (Action::LoadOverrides { crate_name, then_do }, Reply::Overrides(overrides)) => seq![
                overrides_heading(then_do) + crate_name@ + " = "@ + overrides@,
            ],
            (Action::ListOverrides, Reply::AllOverrides(all)) => all@.map_values(
                |o: (String, String)| "sandbox limit overrides for "@ + o.0@ + " = "@ + o.1@,
            ),
            _ => Seq::empty(),
        }
    }

    /// What a failure of the operation is reported as, where there is more to say than why it
    /// failed.
    pub open spec fn failure(self) -> Option<Seq<char>> {
        match self {
            Action::SavePriority { .. } => Some("Could not set pattern's priority"@),
            Action::RemovePriority { .. } => Some("Could not remove pattern's priority"@),
            Action::Migrate { .. } => Some("Failed to run database migrations"@),
            Action::NextCrate => Some("Failed to update latest version id"@),
            Action::UpdateLatestVersion { .. } => Some("Failed to update latest version id"@),
            Action::AddDirectory { .. } => Some("Failed to add directory into database"@),
            Action::DeleteVersion { .. } => Some("failed to delete the version"@),
            Action::DeleteCrate { .. } => Some("failed to delete the crate"@),
            Action::ListBlacklist => Some("failed to list crates on blacklist"@),
            Action::AddToBlacklist { .. } => Some("failed to add crate to blacklist"@),
            Action::RemoveFromBlacklist { .. } => Some("failed to remove crate from blacklist"@),
            _ => None,
        }
    }

    /// What a failure of the operation is reported as, where there is more to say than why it
    /// failed.
    pub fn failure_context(&self) -> (r: Option<&'static str>)
        ensures
            (match r {
                Some(s) => Some(s@),
                None => None,
            }) == self.failure(),
    {
        match self {
            Action::SavePriority { .. } => Some("Could not set pattern's priority"),
            Action::RemovePriority { .. } => Some("Could not remove pattern's priority"),
            Action::Migrate { .. } => Some("Failed to run database migrations"),
            Action::NextCrate => Some("Failed to update latest version id"),
            Action::UpdateLatestVersion { .. } => Some("Failed to update latest version id"),
            Action::AddDirectory { .. } => Some("Failed to add directory into database"),
            Action::DeleteVersion { .. } => Some("failed to delete the version"),
            Action::DeleteCrate { .. } => Some("failed to delete the crate"),
            Action::ListBlacklist => Some("failed to list crates on blacklist"),
            Action::AddToBlacklist { .. } => Some("failed to add crate to blacklist"),
            Action::RemoveFromBlacklist { .. } => Some("failed to remove crate from blacklist"),
            _ => None,
        }
    }

    /// Goes on with what the operation gave.
    pub fn proceed(self, reply: Reply) -> (r: Turn<P, D>)
        requires
            self.accepts(reply),
        ensures
            r.action == self.next(reply),
            owned_texts(r.lines@) == self.printed(reply),
    {
        proof {
            reveal_strlit("");
        }
        match (self, reply) {
            (Action::LoadLastSeenReference, Reply::Reference(Some(reference))) => finish_with(
                concat("Last seen reference: ", reference.as_str(), "", ""),
            ),
            (Action::LoadLastSeenReference, Reply::Reference(None)) => finish_with(
                "No last seen reference available".to_owned(),
            ),
            (Action::FetchHead, Reply::Head(reference)) => silent(
                Action::SaveLastSeenReference { reference },
            ),
            (Action::SaveLastSeenReference { reference }, _) => finish_with(
                concat("Set last seen reference: ", reference.as_str(), "", ""),
            ),
            (Action::ListPriorities, Reply::Priorities(all)) => Turn {
                lines: priority_lines(&all),
                action: Action::Finish,
            },
            (Action::FindPriority { .. }, Reply::Priority(Some((pattern, priority)))) => {
                finish_with(
                    concat("", pattern.as_str(), " : ", to_signed_decimal(priority).as_str()),
                )
            },
            (Action::FindPriority { crate_name }, Reply::Priority(None)) => finish_with(
                concat("No priority found for ", crate_name.as_str(), "", ""),
            ),
            (Action::SavePriority { pattern, priority }, _) => finish_with(
                concat(
                    "Set pattern '",
                    pattern.as_str(),
                    "' to priority ",
                    to_signed_decimal(priority).as_str(),
                ),
            ),
            (Action::RemovePriority { pattern }, Reply::RemovedPriority(Some(priority))) => {
                finish_with(
                    concat(
                        "Removed pattern '",
                        pattern.as_str(),
                        "' with priority ",
                        to_signed_decimal(priority).as_str(),
                    ),
                )
            },
            (Action::RemovePriority { pattern }, Reply::RemovedPriority(None)) => finish_with(
                concat(
                    "Pattern '",
                    pattern.as_str(),
                    "' did not exist and so was not removed",
                    "",
                ),
            ),
            (Action::NextCrate, Reply::Crate(Some((crate_id, name)))) => saying(
                concat("handling crate ", name.as_str(), "", ""),
                Action::UpdateLatestVersion { crate_id },
            ),
            (Action::UpdateLatestVersion { .. }, _) => silent(Action::NextCrate),
            (Action::FetchCrateData { name }, Reply::CrateData(data)) => silent(
                Action::SaveCrateData { name, data },
            ),
            (Action::ListBlacklist, Reply::Blacklist(crates)) => {
                assert(owned_texts(crates@).skip(0) =~= owned_texts(crates@));
                finish_with(join_from(&crates, 0, "\n"))
            },
            (Action::LoadOverrides { crate_name, then_do }, Reply::Overrides(overrides)) => {
                let heading: &'static str = heading_of(&then_do);
                let line: String = concat(
                    heading,
                    crate_name.as_str(),
                    " = ",
                    overrides.as_str(),
                );
                let action: Action<P, D> = match then_do {
                    OverridesUse::Replace(overrides) => Action::SaveOverrides {
                        crate_name,
                        overrides,
                    },
                    OverridesUse::Remove => Action::RemoveOverrides { crate_name },
                    _ => Action::Finish,
                };
                saying(line, action)
            },
            (Action::SaveOverrides { crate_name, .. }, _) => silent(
                Action::LoadOverrides { crate_name, then_do: OverridesUse::ShowNew },
            ),
            (Action::ListOverrides, Reply::AllOverrides(all)) => Turn {
                lines: overrides_lines(&all),
                action: Action::Finish,
            },
            _ => silent(Action::Finish),
        }
    }
}

/// How a list shows a pattern and its priority.
pub open spec fn priority_line(pattern: Seq<char>, priority: int) -> Seq<char> {
    right_aligned(pattern, 20) + " : "@ + right_aligned(signed_decimal(priority), 3)
}

/// What limits are shown as.
pub open spec fn overrides_heading<D>(then_do: OverridesUse<D>) -> Seq<char> {
    match then_do {
        OverridesUse::Show => "sandbox limit overrides for "@,
        OverridesUse::Replace(_) => "previous sandbox limit overrides for "@,
        OverridesUse::ShowNew => "new sandbox limit overrides for "@,
        OverridesUse::Remove => "previous overrides for "@,
    }
}

fn heading_of<D>(then_do: &OverridesUse<D>) -> (r: &'static str)
    ensures
        r@ == overrides_heading(*then_do),
{
    match then_do {
        OverridesUse::Show => "sandbox limit overrides for ",
        OverridesUse::Replace(_) => "previous sandbox limit overrides for ",
        OverridesUse::ShowNew => "new sandbox limit overrides for ",
        OverridesUse::Remove => "previous overrides for ",
    }
}

fn concat(a: &str, b: &str, c: &str, d: &str) -> (r: String)
    ensures
        r@ == a@ + b@ + c@ + d@,
        a@.len() == 0 ==> r@ == b@ + c@ + d@,
        d@.len() == 0 ==> r@ == a@ + b@ + c@,
        c@.len() == 0 && d@.len() == 0 ==> r@ == a@ + b@,
{
    let mut out: String = a.to_owned();
    out.append(b);
    out.append(c);
    out.append(d);
    assert(a@.len() == 0 ==> out@ =~= b@ + c@ + d@);
    assert(d@.len() == 0 ==> out@ =~= a@ + b@ + c@);
    assert(c@.len() == 0 && d@.len() == 0 ==> out@ =~= a@ + b@);
    out
}

fn silent<P, D>(action: Action<P, D>) -> (r: Turn<P, D>)
    ensures
        r.action == action,
        owned_texts(r.lines@) == Seq::<Seq<char>>::empty(),
{
    let lines: Vec<String> = Vec::new();
    assert(owned_texts(lines@) =~= Seq::<Seq<char>>::empty());
    Turn { lines, action }
}

fn saying<P, D>(line: String, action: Action<P, D>) -> (r: Turn<P, D>)
    ensures
        r.action == action,
        owned_texts(r.lines@) == seq![line@],
{
    let lines: Vec<String> = vec![line];
    assert(owned_texts(lines@) =~= seq![line@]);
    Turn { lines, action }
}

fn finish_with<P, D>(line: String) -> (r: Turn<P, D>)
    ensures
        r.action == Action::<P, D>::Finish,
        owned_texts(r.lines@) == seq![line@],
{
    saying(line, Action::Finish)
}

fn priority_lines(all: &Vec<(String, i32)>) -> (r: Vec<String>)
    ensures
        owned_texts(r@) == all@.map_values(|p: (String, i32)| priority_line(p.0@, p.1 as int)),
{
    let mut lines: Vec<String> = Vec::new();
    let n: usize = all.len();
    for i in 0..n
        invariant
            n == all@.len(),
            lines@.len() == i,
            forall|j: int|
                0 <= j < i ==> (#[trigger] lines@[j])@ == priority_line(
                    all@[j].0@,
                    all@[j].1 as int,
                ),
    {
        let pattern: String = align_right(all[i].0.as_str(), 20);
        let priority: String = align_right(to_signed_decimal(all[i].1).as_str(), 3);
        let mut line: String = pattern;
        line.append(" : ");
        line.append(priority.as_str());
        lines.push(line);
    }
    assert(owned_texts(lines@) =~= all@.map_values(
        |p: (String, i32)| priority_line(p.0@, p.1 as int),
    ));
    lines
}

fn overrides_lines(all: &Vec<(String, String)>) -> (r: Vec<String>)
    ensures
        owned_texts(r@) == all@.map_values(
            |o: (String, String)| "sandbox limit overrides for "@ + o.0@ + " = "@ + o.1@,
        ),
{
    let mut lines: Vec<String> = Vec::new();
    let n: usize = all.len();
    for i in 0..n
        invariant
            n == all@.len(),
            lines@.len() == i,
            forall|j: int|
                0 <= j < i ==> (#[trigger] lines@[j])@ == "sandbox limit overrides for "@
                    + all@[j].0@ + " = "@ + all@[j].1@,
    {
        lines.push(
            concat("sandbox limit overrides for ", all[i].0.as_str(), " = ", all[i].1.as_str()),
        );
    }
    assert(owned_texts(lines@) =~= all@.map_values(
        |o: (String, String)| "sandbox limit overrides for "@ + o.0@ + " = "@ + o.1@,
    ));
    lines
}

impl QueueSubcommand {
    /// A reference is set either to one that is given or to the head, and not to both.
    pub open spec fn valid(self) -> bool {
        self matches QueueSubcommand::SetLastSeenReference { reference, head } ==> (reference is Some
            <==> !head)
    }

    /// What a command asks for first.
    pub open spec fn first<P, D>(self, registry_url: Option<String>) -> Action<P, D> {
        match self {
            QueueSubcommand::Add { crate_name, crate_version, build_priority } =>
                Action::AddToQueue { crate_name, crate_version, build_priority, registry_url },
            QueueSubcommand::DefaultPriority { subcommand } => subcommand.first(),
            QueueSubcommand::GetLastSeenReference => Action::LoadLastSeenReference,
            QueueSubcommand::SetLastSeenReference { reference, .. } => match reference {
                Some(reference) => Action::SaveLastSeenReference { reference },
                None => Action::FetchHead,
            },
        }
    }

    /// What a command prints first.
    pub open spec fn first_printed(self) -> Seq<Seq<char>> {
        match self {
            QueueSubcommand::SetLastSeenReference { head: true, .. } => seq![
                "Fetching changes to set reference to HEAD"@,
            ],
            _ => Seq::empty(),
        }
    }

    /// Begins a command. Crates come from the registry that is given.
    pub fn handle_args<P, D>(self, registry_url: Option<String>) -> (r: Turn<P, D>)
        requires
            self.valid(),
        ensures
            r.action == self.first::<P, D>(registry_url),
            owned_texts(r.lines@) == self.first_printed(),
    {
        match self {
            QueueSubcommand::Add { crate_name, crate_version, build_priority } => silent(
                Action::AddToQueue { crate_name, crate_version, build_priority, registry_url },
            ),
            QueueSubcommand::DefaultPriority { subcommand } => subcommand.handle_args(),
            QueueSubcommand::GetLastSeenReference => silent(Action::LoadLastSeenReference),
            QueueSubcommand::SetLastSeenReference { reference, head: _ } => match reference {
                Some(reference) => silent(Action::SaveLastSeenReference { reference }),
                None => saying(
                    "Fetching changes to set reference to HEAD".to_owned(),
                    Action::FetchHead,
                ),
            },
        }
    }
}

impl PrioritySubcommand {
    /// What a command asks for first.
    pub open spec fn first<P, D>(self) -> Action<P, D> {
        match self {
            PrioritySubcommand::Get { crate_name } => Action::FindPriority { crate_name },
            PrioritySubcommand::List => Action::ListPriorities,
            PrioritySubcommand::SetPriority { pattern, priority } => Action::SavePriority {
                pattern,
                priority,
            },
            PrioritySubcommand::Remove { pattern } => Action::RemovePriority { pattern },
        }
    }

    /// Begins a command.
    pub fn handle_args<P, D>(self) -> (r: Turn<P, D>)
        ensures
            r.action == self.first::<P, D>(),
            owned_texts(r.lines@) == Seq::<Seq<char>>::empty(),
    {
        match self {
            PrioritySubcommand::Get { crate_name } => silent(Action::FindPriority { crate_name }),
            PrioritySubcommand::List => silent(Action::ListPriorities),
            PrioritySubcommand::SetPriority { pattern, priority } => silent(
                Action::SavePriority { pattern, priority },
            ),
            PrioritySubcommand::Remove { pattern } => silent(Action::RemovePriority { pattern }),
        }
    }
}

impl<D> LimitsSubcommand<D> {
    /// What a command asks for first.
    pub open spec fn first<P>(self) -> Action<P, D> {
        match self {
            LimitsSubcommand::Get { crate_name } => Action::LoadOverrides {
                crate_name,
                then_do: OverridesUse::Show,
            },
            LimitsSubcommand::List => Action::ListOverrides,
            LimitsSubcommand::SetLimits { crate_name, memory, targets, timeout } =>
                Action::LoadOverrides {
                    crate_name,
                    then_do: OverridesUse::Replace(Overrides { memory, targets, timeout }),
                },
            LimitsSubcommand::Remove { crate_name } => Action::LoadOverrides {
                crate_name,
                then_do: OverridesUse::Remove,
            },
        }
    }

    /// Begins a command.
    pub fn handle_args<P>(self) -> (r: Turn<P, D>)
        ensures
            r.action == self.first::<P>(),
            owned_texts(r.lines@) == Seq::<Seq<char>>::empty(),
    {
        match self {
            LimitsSubcommand::Get { crate_name } => silent(
                Action::LoadOverrides { crate_name, then_do: OverridesUse::Show },
            ),
            LimitsSubcommand::List => silent(Action::ListOverrides),
            LimitsSubcommand::SetLimits { crate_name, memory, targets, timeout } => silent(
                Action::LoadOverrides {
                    crate_name,
                    then_do: OverridesUse::Replace(Overrides { memory, targets, timeout }),
                },
            ),
            LimitsSubcommand::Remove { crate_name } => silent(
                Action::LoadOverrides { crate_name, then_do: OverridesUse::Remove },
            ),
        }
    }
}

impl BlacklistSubcommand {
    /// What a command asks for first.
    pub open spec fn first<P, D>(self) -> Action<P, D> {
        match self {
            BlacklistSubcommand::List => Action::ListBlacklist,
            BlacklistSubcommand::Add { crate_name } => Action::AddToBlacklist { crate_name },
            BlacklistSubcommand::Remove { crate_name } => Action::RemoveFromBlacklist {
                crate_name,
            },
        }
    }

    /// Begins a command.
    pub fn handle_args<P, D>(self) -> (r: Turn<P, D>)
        ensures
            r.action == self.first::<P, D>(),
            owned_texts(r.lines@) == Seq::<Seq<char>>::empty(),
    {
        match self {
            BlacklistSubcommand::List => silent(Action::ListBlacklist),
            BlacklistSubcommand::Add { crate_name } => silent(
                Action::AddToBlacklist { crate_name },
            ),
            BlacklistSubcommand::Remove { crate_name } => silent(
                Action::RemoveFromBlacklist { crate_name },
            ),
        }
    }
}

impl<P, D> DatabaseSubcommand<P, D> {
    /// What a command asks for first.
    pub open spec fn first(self) -> Action<P, D> {
        match self {
            DatabaseSubcommand::Migrate { version } => Action::Migrate { version },
            DatabaseSubcommand::UpdateLatestVersionId => Action::NextCrate,
            DatabaseSubcommand::UpdateRepositoryFields => Action::UpdateRepositories,
            DatabaseSubcommand::BackfillRepositoryStats => Action::BackfillRepositories,
            DatabaseSubcommand::UpdateCrateRegistryFields { name } => Action::FetchCrateData {
                name,
            },
            DatabaseSubcommand::AddDirectory { directory } => Action::AddDirectory { directory },
            DatabaseSubcommand::Delete { command } => match command {
                DeleteSubcommand::Crate { name } => Action::DeleteCrate { name },
                DeleteSubcommand::Version { name, version } => Action::DeleteVersion {
                    name,
                    version,
                },
            },
            DatabaseSubcommand::Blacklist { command } => command.first(),
            DatabaseSubcommand::Limits { command } => command.first(),
            DatabaseSubcommand::Synchronize { dry_run } => Action::Synchronize { dry_run },
        }
    }

    /// Begins a command.
    pub fn handle_args(self) -> (r: Turn<P, D>)
        ensures
            r.action == self.first(),
            owned_texts(r.lines@) == Seq::<Seq<char>>::empty(),
    {
        match self {
            DatabaseSubcommand::Migrate { version } => silent(Action::Migrate { version }),
            DatabaseSubcommand::UpdateLatestVersionId => silent(Action::NextCrate),
            DatabaseSubcommand::UpdateRepositoryFields => silent(Action::UpdateRepositories),
            DatabaseSubcommand::BackfillRepositoryStats => silent(Action::BackfillRepositories),
            DatabaseSubcommand::UpdateCrateRegistryFields { name } => silent(
                Action::FetchCrateData { name },
            ),
            DatabaseSubcommand::AddDirectory { directory } => silent(
                Action::AddDirectory { directory },
            ),
            DatabaseSubcommand::Delete { command } => match command {
                DeleteSubcommand::Crate { name } => silent(Action::DeleteCrate { name }),
                DeleteSubcommand::Version { name, version } => silent(
                    Action::DeleteVersion { name, version },
                ),
            },
            DatabaseSubcommand::Blacklist { command } => command.handle_args(),
            DatabaseSubcommand::Limits { command } => command.handle_args(),
            DatabaseSubcommand::Synchronize { dry_run } => silent(Action::Synchronize { dry_run }),
        }
    }
}

/// How many operations a command can still ask for, where it is not walking through all crates.
pub open spec fn operations_left<P, D>(action: Action<P, D>) -> nat {
    match action {
        Action::Finish => 0,
        Action::FetchHead => 2,
        Action::FetchCrateData { .. } => 2,
        Action::LoadOverrides { then_do: OverridesUse::Replace(_), .. } => 3,
        Action::LoadOverrides { then_do: OverridesUse::Remove, .. } => 2,
        Action::SaveOverrides { .. } => 2,
        _ => 1,
    }
}

/// Every command comes to an end: one that does not walk through all crates has fewer operations
/// left after each, and one that does is done when there are no more crates.
pub proof fn law_commands_end<P, D>(action: Action<P, D>, reply: Reply)
    requires
        action.accepts(reply),
    ensures
        !(action is NextCrate) && !(action is UpdateLatestVersion) ==> operations_left(
            action.next(reply),
        ) < operations_left(action),
        action is NextCrate ==> (action.next(reply) is Finish <==> reply == Reply::Crate(None)),
{
}

/// Limits are replaced between being shown and being shown again.
pub proof fn law_limits_are_shown_around_a_change<P, D>(
    command: LimitsSubcommand<D>,
    before: String,
    after: String,
)
    requires
        command is SetLimits,
    ensures
        ({
            let load = command.first::<P>();
            let save = load.next(Reply::Overrides(before));
            let reload = save.next(Reply::Done);
            &&& load.printed(Reply::Overrides(before)).len() == 1
            &&& save == Action::<P, D>::SaveOverrides {
                crate_name: command->SetLimits_crate_name,
                overrides: Overrides {
                    memory: command->memory,
                    targets: command->targets,
                    timeout: command->timeout,
                },
            }
            &&& reload.printed(Reply::Overrides(after)).len() == 1
            &&& reload.next(Reply::Overrides(after)) is Finish
        }),
{
}

/// A command on the builds. The type of paths is left to the caller.
#[derive(Debug)]
pub enum BuildSubcommand<P> {
    /// Build the documentation for a crate, by its name and version or from a path.
    Crate { crate_name: Option<String>, crate_version: Option<String>, local: Option<P> },
    /// Update the toolchain that is installed.
    UpdateToolchain {
        /// Only if none was installed before.
        only_first_time: bool,
    },
    /// Add the files that come with the version of the compiler that is installed.
    AddEssentialFiles,
    /// Use another toolchain.
    SetToolchain { toolchain_name: String },
    /// Prevent the daemon from building new crates.
    Lock,
    /// Let the daemon go on building crates.
    Unlock,
}

/// The operation that a command on the builds asks for.
#[derive(Debug)]
pub enum BuildAction<P> {
    /// None: the command is done.
    Finish,
    BuildLocal { path: P },
    /// Build a crate, from a registry or, where none is given, from crates.io.
    BuildPackage { crate_name: String, crate_version: String, registry_url: Option<String> },
    /// Look up the version of the compiler that is installed.
    LoadRustcVersion { only_first_time: bool },
    UpdateToolchain,
    PurgeCaches,
    AddEssentialFiles,
    SaveToolchain { toolchain_name: String },
    Lock,
    Unlock,
}

/// Why there is nothing to build.
#[derive(Clone, Copy, Debug, PartialEq, Eq, Structural)]
pub enum BuildError {
    MissingName,
    MissingVersion,
}

impl BuildError {
    /// What is reported.
    pub fn message(&self) -> (r: &'static str)
        ensures
            r@ == (match self {
                BuildError::MissingName => "must specify name if not local"@,
                BuildError::MissingVersion => "must specify version if not local"@,
            }),
    {
        match self {
            BuildError::MissingName => "must specify name if not local",
            BuildError::MissingVersion => "must specify version if not local",
        }
    }
}

impl<P> BuildSubcommand<P> {
    /// What a command asks for first.
    pub open spec fn first(self, registry_url: Option<String>) -> Result<
        BuildAction<P>,
        BuildError,
    > {
        match self {
            BuildSubcommand::Crate { crate_name, crate_version, local } => match (
                local,
                crate_name,
                crate_version,
            ) {
                (Some(path), _, _) => Ok(BuildAction::BuildLocal { path }),
                (None, None, _) => Err(BuildError::MissingName),
                (None, Some(_), None) => Err(BuildError::MissingVersion),
                (None, Some(crate_name), Some(crate_version)) => Ok(
                    BuildAction::BuildPackage { crate_name, crate_version, registry_url },
                ),
            },
            BuildSubcommand::UpdateToolchain { only_first_time } => Ok(
                BuildAction::LoadRustcVersion { only_first_time },
            ),
            BuildSubcommand::AddEssentialFiles => Ok(BuildAction::AddEssentialFiles),
            BuildSubcommand::SetToolchain { toolchain_name } => Ok(
                BuildAction::SaveToolchain { toolchain_name },
            ),
            BuildSubcommand::Lock => Ok(BuildAction::Lock),
            BuildSubcommand::Unlock => Ok(BuildAction::Unlock),
        }
    }

    /// Begins a command.
    pub fn handle_args(self, registry_url: Option<String>) -> (r: Result<
        BuildAction<P>,
        BuildError,
    >)
        ensures
            r == self.first(registry_url),
    {
        match self {
            BuildSubcommand::Crate { crate_name, crate_version, local } => {
                if let Some(path) = local {
                    return Ok(BuildAction::BuildLocal { path });
                }
                match crate_name {
                    Some(crate_name) => match crate_version {
                        Some(crate_version) => Ok(
                            BuildAction::BuildPackage { crate_name, crate_version, registry_url },
                        ),
                        None => Err(BuildError::MissingVersion),
                    },
                    None => Err(BuildError::MissingName),
                }
            },
            BuildSubcommand::UpdateToolchain { only_first_time } => Ok(
                BuildAction::LoadRustcVersion { only_first_time },
            ),
            BuildSubcommand::AddEssentialFiles => Ok(BuildAction::AddEssentialFiles),
            BuildSubcommand::SetToolchain { toolchain_name } => Ok(
                BuildAction::SaveToolchain { toolchain_name },
            ),
            BuildSubcommand::Lock => Ok(BuildAction::Lock),
            BuildSubcommand::Unlock => Ok(BuildAction::Unlock),
        }
    }
}

impl<P> BuildAction<P> {
    /// What a command asks for after an operation. `has_rustc_version` is what was looked up.
    pub open spec fn next(self, has_rustc_version: bool) -> BuildAction<P> {
        match self {
            BuildAction::LoadRustcVersion { only_first_time } => if only_first_time
                && has_rustc_version {
                BuildAction::Finish
            } else {
                BuildAction::UpdateToolchain
            },
            BuildAction::UpdateToolchain => BuildAction::PurgeCaches,
            BuildAction::PurgeCaches => BuildAction::AddEssentialFiles,
            _ => BuildAction::Finish,
        }
    }

    /// Goes on after an operation. `has_rustc_version` says, where that was looked up, whether a
    /// compiler is installed. A line to print may come with what is next.
    pub fn proceed(self, has_rustc_version: bool) -> (r: (Option<&'static str>, BuildAction<P>))
        ensures
            r.1 == self.next(has_rustc_version),
            (match r.0 {
                Some(line) => Some(line@),
                None => None,
            }) == (if self is LoadRustcVersion && self.next(has_rustc_version) is Finish {
                Some("update-toolchain was already called in the past, exiting"@)
            } else {
                None
            }),
    {
        match self {
            BuildAction::LoadRustcVersion { only_first_time } => {
                if only_first_time && has_rustc_version {
                    (
                        Some("update-toolchain was already called in the past, exiting"),
                        BuildAction::Finish,
                    )
                } else {
                    (None, BuildAction::UpdateToolchain)
                }
            },
            BuildAction::UpdateToolchain => (None, BuildAction::PurgeCaches),
            BuildAction::PurgeCaches => (None, BuildAction::AddEssentialFiles),
            _ => (None, BuildAction::Finish),
        }
    }

    /// What a failure of the operation is reported as, where there is more to say than why it
    /// failed.
    pub fn failure_context(&self) -> (r: Option<&'static str>)
        ensures
            (match r {
                Some(s) => Some(s@),
                None => None,
            }) == (match self {
                BuildAction::Finish => None,
                BuildAction::BuildLocal { .. } => Some("Building documentation failed"@),
                BuildAction::BuildPackage { .. } => Some("Building documentation failed"@),
                BuildAction::LoadRustcVersion { .. } => None,
                BuildAction::UpdateToolchain => Some("failed to update toolchain"@),
                BuildAction::PurgeCaches => Some("failed to purge caches"@),
                BuildAction::AddEssentialFiles => Some("failed to add essential files"@),
                BuildAction::SaveToolchain { .. } => Some("failed to set toolchain in database"@),
                BuildAction::Lock => Some("Failed to lock"@),
                BuildAction::Unlock => Some("Failed to unlock"@),
            }),
    {
        match self {
            BuildAction::Finish => None,
            BuildAction::BuildLocal { .. } => Some("Building documentation failed"),
            BuildAction::BuildPackage { .. } => Some("Building documentation failed"),
            BuildAction::LoadRustcVersion { .. } => None,
            BuildAction::UpdateToolchain => Some("failed to update toolchain"),
            BuildAction::PurgeCaches => Some("failed to purge caches"),
            BuildAction::AddEssentialFiles => Some("failed to add essential files"),
            BuildAction::SaveToolchain { .. } => Some("failed to set toolchain in database"),
            BuildAction::Lock => Some("Failed to lock"),
            BuildAction::Unlock => Some("Failed to unlock"),
        }
    }
}

/// A toolchain that is updated has its caches purged and its essential files added, in this
/// order, before the command is done.
pub proof fn law_update_toolchain_completes<P>(only_first_time: bool, has_rustc_version: bool)
    requires
        !(only_first_time && has_rustc_version),
    ensures
        ({
            let a0 = BuildAction::<P>::LoadRustcVersion { only_first_time };
            let a1 = a0.next(has_rustc_version);
            let a2 = a1.next(false);
            let a3 = a2.next(false);
            &&& a1 is UpdateToolchain
            &&& a2 is PurgeCaches
            &&& a3 is AddEssentialFiles
            &&& a3.next(false) is Finish
        }),
{
}

/// Synchronizing is a dry run exactly where the command says so.
pub proof fn law_synchronizing_is_as_dry_as_it_is_said<P, D>(dry_run: bool)
    ensures
        (DatabaseSubcommand::<P, D>::Synchronize { dry_run }).first()
            matches Action::Synchronize { dry_run: asked } && asked == dry_run,
        (DatabaseSubcommand::<P, D>::Synchronize { dry_run: true }).first() != (
        DatabaseSubcommand::<P, D>::Synchronize { dry_run: false }).first(),
{
}

/// Two commands on the database that ask for the same are the same: no part of a command is lost
/// or taken for another.
pub proof fn law_database_commands_are_told_apart<P, D>(
    command: DatabaseSubcommand<P, D>,
    other: DatabaseSubcommand<P, D>,
)
    requires
        command.first() == other.first(),
    ensures
        command == other,
{
    if let DatabaseSubcommand::Limits { command: a } = command {
        if let DatabaseSubcommand::Limits { command: b } = other {
            law_limits_commands_are_told_apart::<P, D>(a, b);
        }
    }
    if let DatabaseSubcommand::Blacklist { command: a } = command {
        if let DatabaseSubcommand::Blacklist { command: b } = other {
            law_blacklist_commands_are_told_apart::<P, D>(a, b);
        }
    }
}

/// Two commands on limits that ask for the same are the same.
pub proof fn law_limits_commands_are_told_apart<P, D>(
    command: LimitsSubcommand<D>,
    other: LimitsSubcommand<D>,
)
    requires
        command.first::<P>() == other.first::<P>(),
    ensures
        command == other,
{
}

/// Two commands on the blacklist that ask for the same are the same.
pub proof fn law_blacklist_commands_are_told_apart<P, D>(
    command: BlacklistSubcommand,
    other: BlacklistSubcommand,
)
    requires
        command.first::<P, D>() == other.first::<P, D>(),
    ensures
        command == other,
{
}

/// Two commands on priorities that ask for the same are the same.
pub proof fn law_priority_commands_are_told_apart<P, D>(
    command: PrioritySubcommand,
    other: PrioritySubcommand,
)
    requires
        command.first::<P, D>() == other.first::<P, D>(),
    ensures
        command == other,
{
}

/// Two commands on the queue that ask for the same are the same. A crate is added from the
/// registry that is given.
pub proof fn law_queue_commands_are_told_apart<P, D>(
    command: QueueSubcommand,
    other: QueueSubcommand,
    registry_url: Option<String>,
    other_registry_url: Option<String>,
)
    requires
        command.valid(),
        other.valid(),
        command.first::<P, D>(registry_url) == other.first::<P, D>(other_registry_url),
    ensures
        command == other,
        command is Add ==> registry_url == other_registry_url,
{
    if let QueueSubcommand::DefaultPriority { subcommand: a } = command {
        if let QueueSubcommand::DefaultPriority { subcommand: b } = other {
            law_priority_commands_are_told_apart::<P, D>(a, b);
        }
    }
}

/// The operation that a command is named after is the one that it comes to.
pub proof fn law_commands_come_to_what_they_say<P, D>(command: DatabaseSubcommand<P, D>)
    ensures
        command is Migrate <==> command.first() is Migrate,
        command is UpdateLatestVersionId <==> command.first() is NextCrate,
        command is UpdateRepositoryFields <==> command.first() is UpdateRepositories,
        command is BackfillRepositoryStats <==> command.first() is BackfillRepositories,
        command is UpdateCrateRegistryFields <==> command.first() is FetchCrateData,
        command is AddDirectory <==> command.first() is AddDirectory,
        command is Synchronize <==> command.first() is Synchronize,
        command matches DatabaseSubcommand::Delete { command: d } ==> (d is Crate
            <==> command.first() is DeleteCrate) && (d is Version
            <==> command.first() is DeleteVersion),
        command matches DatabaseSubcommand::Migrate { version } ==> (
        command.first() matches Action::Migrate { version: asked } && asked == version),
        command matches DatabaseSubcommand::AddDirectory { directory } ==> (
        command.first() matches Action::AddDirectory { directory: asked } && asked == directory),
        command matches DatabaseSubcommand::UpdateCrateRegistryFields { name } ==> (
        command.first() matches Action::FetchCrateData { name: asked } && asked == name),
        command matches DatabaseSubcommand::Delete {
            command: DeleteSubcommand::Crate { name },
        } ==> (command.first() matches Action::DeleteCrate { name: asked } && asked == name),
        command matches DatabaseSubcommand::Delete {
            command: DeleteSubcommand::Version { name, version },
        } ==> (command.first() matches Action::DeleteVersion { name: asked, version: of } && asked
            == name && of == version),
{
}

/// A crate is built from a path where one is given, else by its name and version, which both have
/// to be given, from the registry that is given.
pub proof fn law_builds_are_of_what_is_given<P>(
    crate_name: Option<String>,
    crate_version: Option<String>,
    local: Option<P>,
    registry_url: Option<String>,
)
    ensures
        ({
            let first = (BuildSubcommand::Crate { crate_name, crate_version, local }).first(
                registry_url,
            );
            &&& first is Err <==> local is None && (crate_name is None || crate_version is None)
            &&& first matches Err(e) ==> (e == BuildError::MissingName <==> crate_name is None)
            &&& first matches Ok(action) ==> match action {
                BuildAction::BuildLocal { path } => local == Some(path),
                BuildAction::BuildPackage {
                    crate_name: name,
                    crate_version: version,
                    registry_url: registry,
                } => local is None && crate_name == Some(name) && crate_version == Some(version)
                    && registry == registry_url,
                _ => false,
            }
        }),
{
}

/// Two commands on the builds, other than for a crate, that ask for the same are the same.
pub proof fn law_build_commands_are_told_apart<P>(
    command: BuildSubcommand<P>,
    other: BuildSubcommand<P>,
    registry_url: Option<String>,
)
    requires
        !(command is Crate),
        command.first(registry_url) == other.first(registry_url),
    ensures
        command == other,
{
}

/// What was looked up is what is used: the head that was found is saved, the crate that comes next
/// is updated, the data of a crate are saved for that crate, and limits are replaced by those that
/// were given, for the crate that they are for.
pub proof fn law_replies_are_used<P, D>(
    head: String,
    crate_id: i32,
    name: String,
    data: CrateData,
    overrides: Overrides<D>,
    shown: String,
)
    ensures
        Action::<P, D>::FetchHead.next(Reply::Head(head)) matches Action::SaveLastSeenReference {
            reference,
        } && reference == head,
        Action::<P, D>::NextCrate.next(
            Reply::Crate(Some((crate_id, name))),
        ) matches Action::UpdateLatestVersion { crate_id: updated } && updated == crate_id,
        (Action::<P, D>::UpdateLatestVersion { crate_id }).next(Reply::Done) is NextCrate,
        (Action::<P, D>::FetchCrateData { name }).next(
            Reply::CrateData(data),
        ) matches Action::SaveCrateData { name: of, data: saved } && of == name && saved == data,
        (Action::<P, D>::LoadOverrides {
            crate_name: name,
            then_do: OverridesUse::Replace(overrides),
        }).next(Reply::Overrides(shown)) matches Action::SaveOverrides {
            crate_name: of,
            overrides: saved,
        } && of == name && saved == overrides,
        (Action::<P, D>::LoadOverrides { crate_name: name, then_do: OverridesUse::Remove }).next(
            Reply::Overrides(shown),
        ) matches Action::RemoveOverrides { crate_name: of } && of == name,
        (Action::<P, D>::SaveOverrides { crate_name: name, overrides }).next(
            Reply::Done,
        ) matches Action::LoadOverrides { crate_name: of, then_do: OverridesUse::ShowNew } && of
            == name,
{
}

/// A list shows a line for each pattern, in order: the pattern comes before the colon, and behind
/// it the number, which ends the line. Nothing but spaces is added around them.
pub proof fn law_priorities_are_shown_in_lines<P, D>(all: Vec<(String, i32)>, i: int)
    requires
        0 <= i < all@.len(),
    ensures
        ({
            let lines = Action::<P, D>::ListPriorities.printed(Reply::Priorities(all));
            let line = lines[i];
            let pattern = all@[i].0@;
            let number = signed_decimal(all@[i].1 as int);
            let pattern_end = if pattern.len() < 20 {
                20
            } else {
                pattern.len() as int
            };
            &&& lines.len() == all@.len()
            &&& pattern.is_suffix_of(line.take(pattern_end))
            &&& number.is_suffix_of(line)
            &&& line.skip(pattern_end).take(3) == " : "@
            &&& line.len() == pattern_end + 3 + if number.len() < 3 {
                3
            } else {
                number.len() as int
            }
            &&& forall|k: int| 0 <= k < pattern_end - pattern.len() ==> line[k] == ' '
            &&& forall|k: int|
                pattern_end + 3 <= k < line.len() - number.len() ==> line[k] == ' '
        }),
{
    reveal_strlit(" : ");
    let lines = Action::<P, D>::ListPriorities.printed(Reply::Priorities(all));
    let line = lines[i];
    let pattern = all@[i].0@;
    let number = signed_decimal(all@[i].1 as int);
    let left = right_aligned(pattern, 20);
    let right = right_aligned(number, 3);
    assert(line == left + " : "@ + right);
    assert(line.take(left.len() as int) =~= left);
    assert(left.skip(left.len() - pattern.len()) =~= pattern);
    assert(line.skip(line.len() - number.len()) =~= number);
    assert(line.skip(left.len() as int).take(3) =~= " : "@);
}

/// What is printed of one pattern, of one crate or of one reference names it, and ends in what was
/// found or set.
pub proof fn law_lines_name_what_they_are_about<P, D>(
    pattern: String,
    priority: i32,
    name: String,
    shown: String,
    then_do: OverridesUse<D>,
)
    ensures
        ({
            let number = signed_decimal(priority as int);
            let found = (Action::<P, D>::FindPriority { crate_name: name }).printed(
                Reply::Priority(Some((pattern, priority))),
            );
            let missing = (Action::<P, D>::FindPriority { crate_name: name }).printed(
                Reply::Priority(None),
            );
            let set_to = (Action::<P, D>::SavePriority { pattern, priority }).printed(Reply::Done);
            let removed = (Action::<P, D>::RemovePriority { pattern }).printed(
                Reply::RemovedPriority(Some(priority)),
            );
            let loaded = (Action::<P, D>::LoadOverrides { crate_name: name, then_do }).printed(
                Reply::Overrides(shown),
            );
            let saved = (Action::<P, D>::SaveLastSeenReference { reference: name }).printed(
                Reply::Done,
            );
            let seen = Action::<P, D>::LoadLastSeenReference.printed(Reply::Reference(Some(name)));
            &&& found.len() == 1 && pattern@.is_prefix_of(found[0]) && number.is_suffix_of(found[0])
            &&& missing.len() == 1 && name@.is_suffix_of(missing[0])
            &&& set_to.len() == 1 && number.is_suffix_of(set_to[0])
            &&& removed.len() == 1 && number.is_suffix_of(removed[0])
            &&& loaded.len() == 1 && (name@ + " = "@ + shown@).is_suffix_of(loaded[0])
            &&& saved.len() == 1 && name@.is_suffix_of(saved[0])
            &&& seen.len() == 1 && name@.is_suffix_of(seen[0])
        }),
{
    let number = signed_decimal(priority as int);
    let found = pattern@ + " : "@ + number;
    assert(found.take(pattern@.len() as int) =~= pattern@);
    assert(found.skip(found.len() - number.len()) =~= number);
    let missing = "No priority found for "@ + name@;
    assert(missing.skip(missing.len() - name@.len()) =~= name@);
    let set_to = "Set pattern '"@ + pattern@ + "' to priority "@ + number;
    assert(set_to.skip(set_to.len() - number.len()) =~= number);
    let removed = "Removed pattern '"@ + pattern@ + "' with priority "@ + number;
    assert(removed.skip(removed.len() - number.len()) =~= number);
    let loaded = overrides_heading(then_do) + name@ + " = "@ + shown@;
    let end = name@ + " = "@ + shown@;
    assert(loaded.skip(loaded.len() - end.len()) =~= end);
    let saved = "Set last seen reference: "@ + name@;
    assert(saved.skip(saved.len() - name@.len()) =~= name@);
    let seen = "Last seen reference: "@ + name@;
    assert(seen.skip(seen.len() - name@.len()) =~= name@);
}

/// The limits of all crates are shown in a line each, in order, with the name of the crate and
/// what is set for it. The blacklist is shown as one name on a line.
pub proof fn law_lists_show_every_entry<P, D>(
    all: Vec<(String, String)>,
    i: int,
    blacklist: Vec<String>,
)
    requires
        0 <= i < all@.len(),
        blacklist@.len() > 0,
        forall|k: int| 0 <= k < blacklist@.len() ==> !(#[trigger] blacklist@[k])@.contains('\n'),
    ensures
        ({
            let lines = Action::<P, D>::ListOverrides.printed(Reply::AllOverrides(all));
            &&& lines.len() == all@.len()
            &&& (all@[i].0@ + " = "@ + all@[i].1@).is_suffix_of(lines[i])
        }),
        ({
            let printed = Action::<P, D>::ListBlacklist.printed(Reply::Blacklist(blacklist));
            printed.len() == 1 && pieces(printed[0], '\n') == owned_texts(blacklist@)
        }),
{
    reveal_strlit("\n");
    assert("\n"@ =~= seq!['\n']);
    let line = "sandbox limit overrides for "@ + all@[i].0@ + " = "@ + all@[i].1@;
    let end = all@[i].0@ + " = "@ + all@[i].1@;
    assert(line.skip(line.len() - end.len()) =~= end);
    let names = owned_texts(blacklist@);
    assert forall|k: int| 0 <= k < names.len() implies !(#[trigger] names[k]).contains('\n') by {
        assert(names[k] == blacklist@[k]@);
    }
    lemma_pieces_of_joined(names, '\n');
}

/// A command prints something before its first operation only where it looks up the head of the
/// index.
pub proof fn law_only_the_look_up_of_the_head_is_announced<P, D>(
    command: QueueSubcommand,
    registry_url: Option<String>,
)
    requires
        command.valid(),
    ensures
        command.first_printed().len() == (if command.first::<P, D>(registry_url) is FetchHead {
            1int
        } else {
            0
        }),
        command matches QueueSubcommand::SetLastSeenReference { reference, .. } ==> (
        reference is None <==> command.first::<P, D>(registry_url) is FetchHead) && (
        reference matches Some(r) ==> command.first::<P, D>(registry_url) == (
        Action::<P, D>::SaveLastSeenReference { reference: r })),
{
}

/// An operation on the builds that is no part of an update of the toolchain is the whole of its
/// command. An update is skipped only where it is for the first time and a compiler is there.
pub proof fn law_builds_are_single_operations<P>(action: BuildAction<P>, has_rustc_version: bool)
    ensures
        !(action is LoadRustcVersion) && !(action is UpdateToolchain) && !(action is PurgeCaches)
            ==> action.next(has_rustc_version) is Finish,
        action matches BuildAction::LoadRustcVersion { only_first_time } ==> (action.next(
            has_rustc_version,
        ) is Finish <==> only_first_time && has_rustc_version),
{
}

} // verus!
