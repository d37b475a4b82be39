use docs_rs::consistency::{group_releases, Crate, Release, ReleaseRow};

fn row(name: &str, version: &str, yanked: Option<bool>) -> ReleaseRow {
    ReleaseRow {
        name: name.into(),
        version: version.into(),
        yanked,
    }
}

#[test]
fn test_load() {
    assert_eq!(
        group_releases(vec![
            row("krate", "0.0.2", Some(false)),
            row("krate", "0.0.3", Some(true)),
            row("queued", "0.0.1", None),
        ]),
        vec![
            Crate {
                name: "krate".into(),
                releases: vec![
                    Release {
                        version: "0.0.2".into(),
                        yanked: Some(false),
                    },
                    Release {
                        version: "0.0.3".into(),
                        yanked: Some(true),
                    }
                ]
            },
            Crate {
                name: "queued".into(),
                releases: vec![Release {
                    version: "0.0.1".into(),
                    yanked: None,
                }]
            },
        ]
    );
}

#[test]
fn grouping_keeps_releases_in_order() {
    assert!(group_releases(vec![]).is_empty());
    let crates = group_releases(vec![
        row("a", "1", None),
        row("b", "2", None),
        row("b", "1", None),
        row("a", "3", None),
    ]);
    let flat: Vec<(&str, &str)> = crates
        .iter()
        .flat_map(|c| {
            c.releases
                .iter()
                .map(|r| (c.name.as_str(), r.version.as_str()))
        })
        .collect();
    assert_eq!(flat, vec![("a", "1"), ("b", "2"), ("b", "1"), ("a", "3")]);
    assert_eq!(crates.len(), 3);
}
