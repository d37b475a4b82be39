//! The crates and releases that the database knows, for the comparison with the registry's index.
use crate::text::same_text;
use vstd::prelude::*;

verus! {

/// A row of the list of releases, which is ordered by the names of the crates.
#[derive(Debug)]
pub struct ReleaseRow {
    pub name: String,
    pub version: String,
    /// Whether the release was yanked. This is not known of one that is queued to be built.
    pub yanked: Option<bool>,
}

/// A release.
#[derive(Clone, Debug, PartialEq)]
pub struct Release {
    pub version: String,
    pub yanked: Option<bool>,
}

/// A crate with its releases.
#[derive(Clone, Debug, PartialEq)]
pub struct Crate {
    pub name: String,
    pub releases: Vec<Release>,
}

/// What a release holds.
pub type ReleaseText = (Seq<char>, Option<bool>);

/// What a crate holds: its name, and its releases.
pub type CrateText = (Seq<char>, Seq<ReleaseText>);

impl View for Release {
    type V = ReleaseText;

    open spec fn view(&self) -> ReleaseText {
        (self.version@, self.yanked)
    }
}

impl View for Crate {
    type V = CrateText;

    open spec fn view(&self) -> CrateText {
        (self.name@, self.releases@.map_values(|r: Release| r@))
    }
}

/// What a list of crates holds.
pub open spec fn crate_texts(crates: Seq<Crate>) -> Seq<CrateText> {
    crates.map_values(|c: Crate| c@)
}

/// The crates in a list of releases: releases that follow each other under one name are those of
/// one crate.
pub open spec fn grouped(rows: Seq<ReleaseRow>) -> Seq<CrateText>
    decreases rows.len(),
{
    if rows.len() == 0 {
        Seq::empty()
    } else {
        let front = grouped(rows.drop_last());
        let row = rows.last();
        let release = (row.version@, row.yanked);
        if front.len() > 0 && front.last().0 == row.name@ {
            front.drop_last().push((row.name@, front.last().1.push(release)))
        } else {
            front.push((row.name@, seq![release]))
        }
    }
}

/// Groups a list of releases by their crates.
pub fn group_releases(rows: Vec<ReleaseRow>) -> (r: Vec<Crate>)
    ensures
        crate_texts(r@) == grouped(rows@),
{
    let ghost all = rows@;
    let mut rest: Vec<ReleaseRow> = rows;
    let mut crates: Vec<Crate> = Vec::new();
    let n: usize = rest.len();
    assert(all.take(0) =~= Seq::<ReleaseRow>::empty());
    assert(crate_texts(crates@) =~= Seq::<CrateText>::empty());
    let mut i: usize = 0;
    while i < n
        invariant
            n == all.len(),
            i <= n,
            rest@ == all.skip(i as int),
            crate_texts(crates@) == grouped(all.take(i as int)),
        decreases n - i,
    {
        let row: ReleaseRow = rest.remove(0);
        let ghost front = grouped(all.take(i as int));
        proof {
            assert(row == all[i as int]);
            assert(rest@ =~= all.skip(i + 1));
            assert(all.take(i + 1).drop_last() =~= all.take(i as int));
            assert(all.take(i + 1).last() == row);
        }
        let ghost before = crates@;
        assert(front.len() == before.len());
        let release: Release = Release { version: row.version, yanked: row.yanked };
        match crates.pop() {
            Some(last) => {
                assert(front.last() == last@);
                assert(crate_texts(crates@) =~= front.drop_last());
                let same: bool = same_text(last.name.as_str(), row.name.as_str());
                let ghost text = last@;
                if same {
                    let mut releases: Vec<Release> = last.releases;
                    releases.push(release);
                    let krate: Crate = Crate { name: row.name, releases };
                    proof {
                        assert(krate@.1 =~= text.1.push(release@));
                    }
                    let ghost popped = crates@;
                    crates.push(krate);
                    assert(crate_texts(crates@) =~= crate_texts(popped).push(krate@));
                } else {
                    let krate: Crate = Crate { name: row.name, releases: vec![release] };
                    assert(krate@.1 =~= seq![release@]);
                    crates.push(last);
                    crates.push(krate);
                    assert(crate_texts(crates@) =~= front.push(krate@));
                }
            },
            None => {
                let krate: Crate = Crate { name: row.name, releases: vec![release] };
                assert(krate@.1 =~= seq![release@]);
                crates.push(krate);
                assert(crate_texts(crates@) =~= front.push(krate@));
            },
        }
        i = i + 1;
    }
    assert(all.take(n as int) =~= all);
    crates
}

/// The releases of all crates, one behind the other, with the names of their crates.
pub open spec fn flattened(crates: Seq<CrateText>) -> Seq<(Seq<char>, ReleaseText)>
    decreases crates.len(),
{
    if crates.len() == 0 {
        Seq::empty()
    } else {
        flattened(crates.drop_last()) + crates.last().1.map_values(
            |r: ReleaseText| (crates.last().0, r),
        )
    }
}

/// Grouping loses no release and adds none, keeps their order, and leaves no crate without
/// releases and no two neighbours under one name.
pub proof fn law_grouping_keeps_releases(rows: Seq<ReleaseRow>)
    ensures
        flattened(grouped(rows)) == rows.map_values(
            |row: ReleaseRow| (row.name@, (row.version@, row.yanked)),
        ),
        forall|i: int| 0 <= i < grouped(rows).len() ==> (#[trigger] grouped(rows)[i]).1.len() > 0,
        forall|i: int|
            0 <= i < grouped(rows).len() - 1 ==> (#[trigger] grouped(rows)[i]).0 != grouped(rows)[i
                + 1].0,
    decreases rows.len(),
{
    let f = |row: ReleaseRow| (row.name@, (row.version@, row.yanked));
    let g = grouped(rows);
    if rows.len() == 0 {
        assert(flattened(g) =~= rows.map_values(f));
    } else {
        let before = rows.drop_last();
        let front = grouped(before);
        let row = rows.last();
        let release = (row.version@, row.yanked);
        law_grouping_keeps_releases(before);
        assert(rows.map_values(f) =~= before.map_values(f).push(f(row)));
        if front.len() > 0 && front.last().0 == row.name@ {
            let last = front.last();
            assert(g.drop_last() =~= front.drop_last());
            let tag = |r: ReleaseText| (row.name@, r);
            assert(last.1.push(release).map_values(tag) =~= last.1.map_values(tag).push(
                (row.name@, release),
            ));
            assert(flattened(g) =~= flattened(front).push((row.name@, release)));
            assert forall|i: int| 0 <= i < g.len() implies (#[trigger] g[i]).1.len() > 0 by {
                if i < g.len() - 1 {
                    assert(g[i] == front[i]);
                }
            }
            assert forall|i: int| 0 <= i < g.len() - 1 implies (#[trigger] g[i]).0 != g[i + 1].0 by {
                assert(g[i] == front[i]);
                assert(g[i + 1].0 == front[i + 1].0);
            }
        } else {
            assert(g.drop_last() =~= front);
            assert(flattened(g) =~= flattened(front).push((row.name@, release)));
            assert forall|i: int| 0 <= i < g.len() implies (#[trigger] g[i]).1.len() > 0 by {
                if i < g.len() - 1 {
                    assert(g[i] == front[i]);
                }
            }
            assert forall|i: int| 0 <= i < g.len() - 1 implies (#[trigger] g[i]).0 != g[i + 1].0 by {
                assert(g[i] == front[i]);
                if i + 1 < front.len() {
                    assert(g[i + 1] == front[i + 1]);
                }
            }
        }
    }
}

} // verus!
