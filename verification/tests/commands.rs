use docs_rs::commands::{
    Action, BlacklistSubcommand, BuildAction, BuildError, BuildSubcommand, DatabaseSubcommand,
    DeleteSubcommand, LimitsSubcommand, Overrides, OverridesUse, PrioritySubcommand,
    QueueSubcommand, Reply, Turn,
};
use docs_rs::registry_api::CrateData;

type Path = &'static str;
type Seconds = u64;

/// Runs a command against replies, and gives what it asked for and what it printed.
fn run(first: Turn<Path, Seconds>, replies: Vec<Reply>) -> (Vec<String>, Vec<String>) {
    let mut turn = first;
    let mut replies = replies.into_iter();
    let mut asked = Vec::new();
    let mut printed = Vec::new();
    loop {
        printed.extend(turn.lines);
        if matches!(turn.action, Action::Finish) {
            break;
        }
        asked.push(format!("{:?}", turn.action));
        turn = turn.action.proceed(replies.next().unwrap());
    }
    assert!(replies.next().is_none());
    (asked, printed)
}

#[test]
fn adding_to_the_queue() {
    let command = QueueSubcommand::Add {
        crate_name: "krate".into(),
        crate_version: "1.0.0".into(),
        build_priority: -5,
    };
    let turn: Turn<Path, Seconds> = command.handle_args(Some("https://registry".into()));
    let Action::AddToQueue {
        crate_name,
        crate_version,
        build_priority,
        registry_url,
    } = &turn.action
    else {
        panic!("{turn:?}")
    };
    assert_eq!((crate_name.as_str(), crate_version.as_str()), ("krate", "1.0.0"));
    assert_eq!(*build_priority, -5);
    assert_eq!(registry_url.as_deref(), Some("https://registry"));
    let (asked, printed) = run(turn, vec![Reply::Done]);
    assert_eq!(asked.len(), 1);
    assert!(printed.is_empty());
}

#[test]
fn the_last_seen_reference() {
    let get = |reply| run(QueueSubcommand::GetLastSeenReference.handle_args(None), vec![reply]).1;
    assert_eq!(
        get(Reply::Reference(Some("abc".into()))),
        vec!["Last seen reference: abc"]
    );
    assert_eq!(
        get(Reply::Reference(None)),
        vec!["No last seen reference available"]
    );

    let set = |reference: Option<&str>, head| QueueSubcommand::SetLastSeenReference {
        reference: reference.map(|r| r.to_owned()),
        head,
    };
    let (asked, printed) = run(set(Some("abc"), false).handle_args(None), vec![Reply::Done]);
    assert_eq!(asked, vec!["SaveLastSeenReference { reference: \"abc\" }"]);
    assert_eq!(printed, vec!["Set last seen reference: abc"]);
    let (asked, printed) = run(
        set(None, true).handle_args(None),
        vec![Reply::Head("def".into()), Reply::Done],
    );
    assert_eq!(
        asked,
        vec!["FetchHead", "SaveLastSeenReference { reference: \"def\" }"]
    );
    assert_eq!(
        printed,
        vec![
            "Fetching changes to set reference to HEAD",
            "Set last seen reference: def"
        ]
    );
}

#[test]
fn priorities() {
    let handle = |subcommand, reply| {
        let command = QueueSubcommand::DefaultPriority { subcommand };
        run(command.handle_args(None), vec![reply]).1
    };
    assert_eq!(
        handle(
            PrioritySubcommand::List,
            Reply::Priorities(vec![
                ("docsrs-%".into(), 5),
                ("a-pattern-that-is-very-long%".into(), -100),
            ])
        ),
        vec![
            format!("{:>20} : {:>3}", "docsrs-%", 5),
            format!("{:>20} : {:>3}", "a-pattern-that-is-very-long%", -100),
        ]
    );
    let get = || PrioritySubcommand::Get {
        crate_name: "krate".into(),
    };
    assert_eq!(
        handle(get(), Reply::Priority(Some(("k%".into(), i32::MIN)))),
        vec!["k% : -2147483648"]
    );
    assert_eq!(
        handle(get(), Reply::Priority(None)),
        vec!["No priority found for krate"]
    );
    let set = PrioritySubcommand::SetPriority {
        pattern: "k%".into(),
        priority: 10,
    };
    assert_eq!(
        handle(set, Reply::Done),
        vec!["Set pattern 'k%' to priority 10"]
    );
    let remove = || PrioritySubcommand::Remove {
        pattern: "k%".into(),
    };
    assert_eq!(
        handle(remove(), Reply::RemovedPriority(Some(0))),
        vec!["Removed pattern 'k%' with priority 0"]
    );
    assert_eq!(
        handle(remove(), Reply::RemovedPriority(None)),
        vec!["Pattern 'k%' did not exist and so was not removed"]
    );
}

fn database(command: DatabaseSubcommand<Path, Seconds>, replies: Vec<Reply>) -> (Vec<String>, Vec<String>) {
    run(command.handle_args(), replies)
}

#[test]
fn simple_database_commands() {
    for (command, asked) in [
        (
            DatabaseSubcommand::Migrate { version: Some(3) },
            "Migrate { version: Some(3) }",
        ),
        (DatabaseSubcommand::UpdateRepositoryFields, "UpdateRepositories"),
        (
            DatabaseSubcommand::BackfillRepositoryStats,
            "BackfillRepositories",
        ),
        (
            DatabaseSubcommand::AddDirectory { directory: "/dir" },
            "AddDirectory { directory: \"/dir\" }",
        ),
        (
            DatabaseSubcommand::Delete {
                command: DeleteSubcommand::Crate {
                    name: "krate".into(),
                },
            },
            "DeleteCrate { name: \"krate\" }",
        ),
        (
            DatabaseSubcommand::Delete {
                command: DeleteSubcommand::Version {
                    name: "krate".into(),
                    version: "1.0.0".into(),
                },
            },
            "DeleteVersion { name: \"krate\", version: \"1.0.0\" }",
        ),
        (
            DatabaseSubcommand::Blacklist {
                command: BlacklistSubcommand::Add {
                    crate_name: "krate".into(),
                },
            },
            "AddToBlacklist { crate_name: \"krate\" }",
        ),
        (
            DatabaseSubcommand::Blacklist {
                command: BlacklistSubcommand::Remove {
                    crate_name: "krate".into(),
                },
            },
            "RemoveFromBlacklist { crate_name: \"krate\" }",
        ),
        (
            DatabaseSubcommand::Synchronize { dry_run: true },
            "Synchronize { dry_run: true }",
        ),
    ] {
        let (found, printed) = database(command, vec![Reply::Done]);
        assert_eq!(found, vec![asked]);
        assert!(printed.is_empty());
    }
}

#[test]
fn updating_all_crates() {
    let (asked, printed) = database(
        DatabaseSubcommand::UpdateLatestVersionId,
        vec![
            Reply::Crate(Some((1, "a".into()))),
            Reply::Done,
            Reply::Crate(Some((7, "b".into()))),
            Reply::Done,
            Reply::Crate(None),
        ],
    );
    assert_eq!(
        asked,
        vec![
            "NextCrate",
            "UpdateLatestVersion { crate_id: 1 }",
            "NextCrate",
            "UpdateLatestVersion { crate_id: 7 }",
            "NextCrate",
        ]
    );
    assert_eq!(printed, vec!["handling crate a", "handling crate b"]);
}

#[test]
fn updating_what_the_registry_knows() {
    let command = DatabaseSubcommand::UpdateCrateRegistryFields {
        name: "krate".into(),
    };
    let (asked, printed) = database(
        command,
        vec![Reply::CrateData(CrateData { owners: vec![] }), Reply::Done],
    );
    assert_eq!(
        asked,
        vec![
            "FetchCrateData { name: \"krate\" }",
            "SaveCrateData { name: \"krate\", data: CrateData { owners: [] } }",
        ]
    );
    assert!(printed.is_empty());
}

#[test]
fn the_blacklist() {
    let command = DatabaseSubcommand::Blacklist {
        command: BlacklistSubcommand::List,
    };
    let (_, printed) = database(
        command,
        vec![Reply::Blacklist(vec!["a".into(), "b".into()])],
    );
    assert_eq!(printed, vec!["a\nb"]);
}

#[test]
fn limits() {
    let limits = |command| DatabaseSubcommand::Limits { command };
    let name = || "krate".to_owned();
    let (_, printed) = database(
        limits(LimitsSubcommand::Get { crate_name: name() }),
        vec![Reply::Overrides("None".into())],
    );
    assert_eq!(printed, vec!["sandbox limit overrides for krate = None"]);
    let (_, printed) = database(
        limits(LimitsSubcommand::List),
        vec![Reply::AllOverrides(vec![
            ("a".into(), "x".into()),
            ("b".into(), "y".into()),
        ])],
    );
    assert_eq!(
        printed,
        vec![
            "sandbox limit overrides for a = x",
            "sandbox limit overrides for b = y"
        ]
    );
    let (asked, printed) = database(
        limits(LimitsSubcommand::SetLimits {
            crate_name: name(),
            memory: Some(3),
            targets: None,
            timeout: Some(60),
        }),
        vec![
            Reply::Overrides("old".into()),
            Reply::Done,
            Reply::Overrides("new".into()),
        ],
    );
    let overrides = Overrides {
        memory: Some(3),
        targets: None,
        timeout: Some(60u64),
    };
    assert_eq!(
        asked[1],
        format!("SaveOverrides {{ crate_name: \"krate\", overrides: {overrides:?} }}")
    );
    assert_eq!(asked.len(), 3);
    assert_eq!(
        printed,
        vec![
            "previous sandbox limit overrides for krate = old",
            "new sandbox limit overrides for krate = new",
        ]
    );
    let (asked, printed) = database(
        limits(LimitsSubcommand::Remove { crate_name: name() }),
        vec![Reply::Overrides("old".into()), Reply::Done],
    );
    assert_eq!(asked[1], "RemoveOverrides { crate_name: \"krate\" }");
    assert_eq!(printed, vec!["previous overrides for krate = old"]);
}

#[test]
fn what_failures_are_reported_as() {
    let context = |action: Action<Path, Seconds>| action.failure_context();
    let name = || "x".to_owned();
    for (action, expected) in [
        (
            Action::SavePriority {
                pattern: name(),
                priority: 0,
            },
            Some("Could not set pattern's priority"),
        ),
        (
            Action::RemovePriority { pattern: name() },
            Some("Could not remove pattern's priority"),
        ),
        (
            Action::Migrate { version: None },
            Some("Failed to run database migrations"),
        ),
        (Action::NextCrate, Some("Failed to update latest version id")),
        (
            Action::UpdateLatestVersion { crate_id: 0 },
            Some("Failed to update latest version id"),
        ),
        (
            Action::AddDirectory { directory: "/" },
            Some("Failed to add directory into database"),
        ),
        (
            Action::DeleteVersion {
                name: name(),
                version: name(),
            },
            Some("failed to delete the version"),
        ),
        (
            Action::DeleteCrate { name: name() },
            Some("failed to delete the crate"),
        ),
        (
            Action::ListBlacklist,
            Some("failed to list crates on blacklist"),
        ),
        (
            Action::AddToBlacklist { crate_name: name() },
            Some("failed to add crate to blacklist"),
        ),
        (
            Action::RemoveFromBlacklist { crate_name: name() },
            Some("failed to remove crate from blacklist"),
        ),
        (Action::ListOverrides, None),
        (
            Action::LoadOverrides {
                crate_name: name(),
                then_do: OverridesUse::Show,
            },
            None,
        ),
    ] {
        assert_eq!(context(action), expected);
    }
}

#[test]
fn what_to_build() {
    let build = |name: Option<&str>, version: Option<&str>, local: Option<Path>| {
        BuildSubcommand::Crate {
            crate_name: name.map(|s| s.to_owned()),
            crate_version: version.map(|s| s.to_owned()),
            local,
        }
        .handle_args(Some("registry".into()))
    };
    assert!(matches!(
        build(None, None, Some("/here")),
        Ok(BuildAction::BuildLocal { path: "/here" })
    ));
    let Ok(BuildAction::BuildPackage {
        crate_name,
        crate_version,
        registry_url,
    }) = build(Some("krate"), Some("1.0.0"), None)
    else {
        panic!("no package")
    };
    assert_eq!(
        (crate_name.as_str(), crate_version.as_str(), registry_url.as_deref()),
        ("krate", "1.0.0", Some("registry"))
    );
    let err = build(None, None, None).unwrap_err();
    assert_eq!(err, BuildError::MissingName);
    assert_eq!(err.message(), "must specify name if not local");
    let err = build(Some("krate"), None, None).unwrap_err();
    assert_eq!(err, BuildError::MissingVersion);
    assert_eq!(err.message(), "must specify version if not local");
}

fn build_steps(command: BuildSubcommand<Path>, has_rustc: bool) -> (Vec<String>, Vec<&'static str>) {
    let mut action = command.handle_args(None).unwrap();
    let mut asked = Vec::new();
    let mut printed = Vec::new();
    while !matches!(action, BuildAction::Finish) {
        asked.push(format!("{action:?}"));
        let (line, next) = action.proceed(has_rustc);
        printed.extend(line);
        action = next;
    }
    (asked, printed)
}

#[test]
fn updating_the_toolchain() {
    let update = |only_first_time| BuildSubcommand::UpdateToolchain { only_first_time };
    let (asked, printed) = build_steps(update(true), true);
    assert_eq!(asked, vec!["LoadRustcVersion { only_first_time: true }"]);
    assert_eq!(
        printed,
        vec!["update-toolchain was already called in the past, exiting"]
    );
    for (first_time, has_rustc) in [(true, false), (false, true), (false, false)] {
        let (asked, printed) = build_steps(update(first_time), has_rustc);
        assert_eq!(
            asked[1..],
            ["UpdateToolchain", "PurgeCaches", "AddEssentialFiles"]
        );
        assert!(printed.is_empty());
    }
}

#[test]
fn other_build_commands() {
    for (command, asked, context) in [
        (
            BuildSubcommand::AddEssentialFiles,
            "AddEssentialFiles",
            Some("failed to add essential files"),
        ),
        (
            BuildSubcommand::SetToolchain {
                toolchain_name: "nightly".into(),
            },
            "SaveToolchain { toolchain_name: \"nightly\" }",
            Some("failed to set toolchain in database"),
        ),
        (BuildSubcommand::Lock, "Lock", Some("Failed to lock")),
        (BuildSubcommand::Unlock, "Unlock", Some("Failed to unlock")),
    ] {
        let action: BuildAction<Path> = command.handle_args(None).unwrap();
        assert_eq!(format!("{action:?}"), asked);
        assert_eq!(action.failure_context(), context);
        assert!(matches!(action.proceed(true), (None, BuildAction::Finish)));
    }
    for (action, context) in [
        (
            BuildAction::BuildLocal { path: "/" },
            Some("Building documentation failed"),
        ),
        (
            BuildAction::LoadRustcVersion {
                only_first_time: false,
            },
            None,
        ),
        (BuildAction::UpdateToolchain, Some("failed to update toolchain")),
        (BuildAction::PurgeCaches, Some("failed to purge caches")),
        (BuildAction::Finish, None),
    ] {
        assert_eq!(action.failure_context(), context);
    }
}
