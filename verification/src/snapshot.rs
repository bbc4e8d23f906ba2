//! Change detection over a recorded view of the file system.
//!
//! A [`Snapshot`] holds what a walk would be told at a path and below it.
//! [`changed_in`] says which paths count as changed in it; [`find_changed`]
//! computes them by feeding the snapshot to a [`Scanner`], answer by answer.

use vstd::prelude::*;
use crate::instant::{newer, Timestamp};
use crate::scan::{
    marked, AwaitingModel, FileStat, FrameModel, Probe, ProbeModel, ScanReply, ScanReplyModel,
    Scanner, ScannerModel, scan_frame,
};

verus! {

/// What there is at one path: its metadata, and for a directory its entries.
/// Either is `None` where it cannot be read.
#[derive(Debug, PartialEq, Eq)]
pub struct Snapshot {
    pub stat: Option<FileStat>,
    pub listing: Option<Vec<Entry>>,
}

/// One entry of a directory in a [`Snapshot`].
#[derive(Debug, PartialEq, Eq)]
pub enum Entry {
    /// The entry or its metadata cannot be read.
    Unreadable,
    /// Anything but a directory.
    Leaf { path: String, modified: Option<Timestamp> },
    /// A directory, with what there is at its path.
    Dir { path: String, below: Snapshot },
}

/// The paths that a walk from `path` reports as changed after `since`, in
/// the order of the walk.
///
/// Nothing is reported where the metadata of `path` cannot be read.  A path
/// is reported where its modification time lies after `since`.  A plain file
/// ends the walk.  Of anything else the entries are listed: where that
/// fails nothing at all is reported for `path`; else each entry follows in
/// turn, a sub-directory with everything that a walk from it reports.
pub open spec fn changed_in(since: Timestamp, path: Seq<char>, at: Snapshot) -> Seq<Seq<char>>
    decreases at, 0nat,
{
    match at.stat {
        None => Seq::empty(),
        Some(stat) => {
            let own = marked(path, newer(stat.modified, since));
            if stat.is_file {
                own
            } else {
                match at.listing {
                    None => Seq::empty(),
                    Some(entries) => own + changed_among(since, entries@, 0),
                }
            }
        },
    }
}

/// What the entries from index `from` on contribute.
pub open spec fn changed_among(since: Timestamp, entries: Seq<Entry>, from: nat) -> Seq<Seq<char>>
    decreases entries, entries.len() - from,
{
    if from >= entries.len() {
        Seq::empty()
    } else {
        changed_at(since, entries[from as int]) + changed_among(since, entries, from + 1)
    }
}

/// What one entry contributes.
pub open spec fn changed_at(since: Timestamp, entry: Entry) -> Seq<Seq<char>>
    decreases entry, 0nat,
{
    match entry {
        Entry::Unreadable => Seq::empty(),
        Entry::Leaf { path, modified } => marked(path@, newer(modified, since)),
        Entry::Dir { path, below } => changed_in(since, path@, below),
    }
}

/// How an entry shows in a directory listing.
pub open spec fn probe_of(entry: Entry) -> ProbeModel {
    match entry {
        Entry::Unreadable => ProbeModel::Unreadable,
        Entry::Leaf { path, modified } => ProbeModel::Leaf { path: path@, modified },
        Entry::Dir { path, below } => ProbeModel::Dir { path: path@ },
    }
}

/// The listing that shows the given entries.
pub open spec fn probes_of(entries: Seq<Entry>) -> Seq<ProbeModel> {
    Seq::new(entries.len(), |i: int| probe_of(entries[i]))
}

/// The directory listing in which the entries show.
pub fn listing_of(entries: &Vec<Entry>) -> (probes: Vec<Probe>)
    ensures
        probes.deep_view() == probes_of(entries@),
{
    let mut probes: Vec<Probe> = Vec::with_capacity(entries.len());
    let mut i: usize = 0;
    while i < entries.len()
        invariant
            i <= entries.len(),
            probes.len() == i,
            forall|j: int| 0 <= j < i ==> (#[trigger] probes[j]).deep_view() == probe_of(entries[j]),
        decreases entries.len() - i,
    {
        let probe = match &entries[i] {
            Entry::Unreadable => Probe::Unreadable,
            Entry::Leaf { path, modified } => Probe::Leaf {
                path: path.clone(),
                modified: *modified,
            },
            Entry::Dir { path, below } => Probe::Dir { path: path.clone() },
        };
        probes.push(probe);
        i += 1;
    }
    assert(probes.deep_view() =~= probes_of(entries@));
    probes
}

/// One step of the scanner through the innermost open directory.
proof fn lemma_settle_step(m: ScannerModel)
    requires
        m.awaiting is Nothing,
        m.frames.len() > 0,
    ensures
        ({
            let top = m.frames.last();
            let rest = m.frames.drop_last();
            let advanced = rest.push(FrameModel { entries: top.entries, next: top.next + 1 });
            if top.next >= top.entries.len() {
                m.settle() == (ScannerModel { frames: rest, ..m }).settle()
            } else {
                match top.entries[top.next as int] {
                    ProbeModel::Unreadable | ProbeModel::NoMetadata { .. } => m.settle()
                        == (ScannerModel {
                        frames: advanced,
                        ..m
                    }).settle(),
                    ProbeModel::Leaf { path, modified } => m.settle() == (ScannerModel {
                        frames: advanced,
                        changed: m.changed + marked(path, newer(modified, m.since)),
                        ..m
                    }).settle(),
                    ProbeModel::Dir { path } => m.settle() == (ScannerModel {
                        frames: advanced,
                        awaiting: AwaitingModel::Stat(path),
                        ..m
                    }),
                }
            }
        }),
{
    let top = m.frames.last();
    let rest = m.frames.drop_last();
    let advanced = rest.push(FrameModel { entries: top.entries, next: top.next + 1 });
    assert(advanced.drop_last() =~= rest);
    assert(advanced.last() == (FrameModel { entries: top.entries, next: top.next + 1 }));
}

/// Answers the scanner's requests from the snapshot until the walk from
/// `path` is over.
fn replay(scanner: Scanner, path: &String, at: &Snapshot) -> (s: Scanner)
    requires
        scanner@.awaiting == AwaitingModel::Stat(path@),
    ensures
        s@ == (ScannerModel {
            awaiting: AwaitingModel::Nothing,
            changed: scanner@.changed + changed_in(scanner@.since, path@, *at),
            ..scanner@
        }).settle(),
    decreases at,
{
    let ghost start = scanner@;
    let ghost since = start.since;
    let stat = match at.stat {
        Some(stat) => stat,
        None => {
            assert(start.changed + Seq::<Seq<char>>::empty() =~= start.changed);
            return scanner.reply(ScanReply::Stat(Err(String::new()))).0;
        },
    };
    let ghost own = marked(path@, newer(stat.modified, since));
    let s = scanner.reply(ScanReply::Stat(Ok(stat))).0;
    if stat.is_file {
        return s;
    }
    let entries = match &at.listing {
        Some(entries) => entries,
        None => {
            assert(start.changed + Seq::<Seq<char>>::empty() =~= start.changed);
            return s.reply(ScanReply::Listed(Err(String::new()))).0;
        },
    };
    let mut s = s.reply(ScanReply::Listed(Ok(listing_of(entries)))).0;
    let ghost probes = probes_of(entries@);
    let ghost goal = start.changed + changed_in(since, path@, *at);
    let mut k: usize = 0;
    let ghost mut found = start.changed + own;
    assert(found + changed_among(since, entries@, 0) =~= goal);
    while k < entries.len()
        invariant
            k <= entries.len(),
            at.listing == Some(*entries),
            probes == probes_of(entries@),
            found + changed_among(since, entries@, k as nat) == goal,
            s@ == resting(since, start.frames, probes, k as nat, found).settle(),
        decreases entries.len() - k,
    {
        let ghost add = changed_at(since, entries[k as int]);
        proof {
            let m = resting(since, start.frames, probes, k as nat, found);
            lemma_settle_step(m);
            assert(m.frames.drop_last() =~= start.frames);
            assert(probes[k as int] == probe_of(entries[k as int]));
            assert(found + add + changed_among(since, entries@, k as nat + 1) =~= goal);
        }
        match &entries[k] {
            Entry::Unreadable => {
                assert(found + add =~= found);
            },
            Entry::Leaf { path, modified } => {},
            Entry::Dir { path, below } => {
                assert(s@.since == since);
                assert(at.listing->0 == *entries);
                assert(decreases_to!(at => at.listing));
                assert(decreases_to!(at.listing => at.listing->0));
                assert(decreases_to!(*entries => entries@));
                assert(decreases_to!(entries@ => entries@[k as int]));
                assert(decreases_to!(entries@[k as int] => *below));
                s = replay(s, path, below);
            },
        }
        proof {
            found = found + add;
        }
        k += 1;
    }
    proof {
        let m = resting(since, start.frames, probes, k as nat, found);
        lemma_settle_step(m);
        assert(m.frames.drop_last() =~= start.frames);
        assert(found + Seq::<Seq<char>>::empty() =~= found);
    }
    s
}

/// The scanner inside the directory with the given listing, `next` entries
/// of it done, nothing asked for.
spec fn resting(
    since: Timestamp,
    outer: Seq<FrameModel>,
    probes: Seq<ProbeModel>,
    next: nat,
    found: Seq<Seq<char>>,
) -> ScannerModel {
    ScannerModel {
        since,
        frames: outer.push(FrameModel { entries: probes, next }),
        awaiting: AwaitingModel::Nothing,
        changed: found,
    }
}

/// Walks the snapshot from `path` and returns the paths that changed after
/// `since`.
pub fn find_changed(since: Timestamp, path: &String, at: &Snapshot) -> (changed: Vec<String>)
    ensures
        changed.deep_view() == changed_in(since, path@, *at),
{
    let scanner = Scanner::new(since).visit(path.clone());
    let s = replay(scanner, path, at);
    assert(Seq::<Seq<char>>::empty() + changed_in(since, path@, *at) =~= changed_in(
        since,
        path@,
        *at,
    ));
    s.into_changed()
}

/// A watch target in a recorded view of the file system: its path, and what
/// there is at it.
#[derive(Debug, PartialEq, Eq)]
pub struct Target {
    pub path: String,
    pub at: Snapshot,
}

/// What one detection pass over the targets reports: what a walk from the
/// first target reports, then what a walk from the second reports, and so
/// on in the order of the targets, every walk with the same baseline.
pub open spec fn changed_in_all(since: Timestamp, targets: Seq<Target>) -> Seq<Seq<char>>
    decreases targets.len(),
{
    if targets.len() == 0 {
        Seq::empty()
    } else {
        changed_in_all(since, targets.drop_last()) + changed_in(
            since,
            targets.last().path@,
            targets.last().at,
        )
    }
}

/// One detection pass: walks every target in turn with one scanner and one
/// baseline, and returns the paths that changed after `since`.
pub fn find_changed_in_all(since: Timestamp, targets: &Vec<Target>) -> (changed: Vec<String>)
    ensures
        changed.deep_view() == changed_in_all(since, targets@),
{
    let mut scanner = Scanner::new(since);
    let mut i: usize = 0;
    while i < targets.len()
        invariant
            i <= targets.len(),
            scanner@ == (ScannerModel {
                changed: changed_in_all(since, targets@.take(i as int)),
                ..ScannerModel::initial(since)
            }),
        decreases targets.len() - i,
    {
        let target = &targets[i];
        let ghost upto = targets@.take(i as int + 1);
        assert(upto.drop_last() =~= targets@.take(i as int));
        assert(upto.last() == targets@[i as int]);
        let visiting = scanner.visit(target.path.clone());
        scanner = replay(visiting, &target.path, &target.at);
        i += 1;
    }
    assert(targets@.take(targets.len() as int) =~= targets@);
    scanner.into_changed()
}

/// A path that a walk took note of, with the modification time it found.
pub struct Sighting {
    pub path: Seq<char>,
    pub modified: Option<Timestamp>,
}

/// Every path that a walk from `path` takes note of, in the order of the
/// walk: a plain file whose metadata can be read, a directory whose metadata
/// and entries can be read, and what the entries lead to.  A directory
/// whose entries cannot be listed is given up as a whole and is not among
/// them.
pub open spec fn sightings(path: Seq<char>, at: Snapshot) -> Seq<Sighting>
    decreases at, 0nat,
{
    match at.stat {
        None => Seq::empty(),
        Some(stat) => {
            let own = seq![Sighting { path, modified: stat.modified }];
            if stat.is_file {
                own
            } else {
                match at.listing {
                    None => Seq::empty(),
                    Some(entries) => own + sightings_among(entries@, 0),
                }
            }
        },
    }
}

/// The sightings that the entries from index `from` on lead to.
pub open spec fn sightings_among(entries: Seq<Entry>, from: nat) -> Seq<Sighting>
    decreases entries, entries.len() - from,
{
    if from >= entries.len() {
        Seq::empty()
    } else {
        sightings_at(entries[from as int]) + sightings_among(entries, from + 1)
    }
}

/// The sightings that one entry leads to.
pub open spec fn sightings_at(entry: Entry) -> Seq<Sighting>
    decreases entry, 0nat,
{
    match entry {
        Entry::Unreadable => Seq::empty(),
        Entry::Leaf { path, modified } => seq![Sighting { path: path@, modified }],
        Entry::Dir { path, below } => sightings(path@, below),
    }
}

/// The paths among the sightings that were modified after `since`, one for
/// each such sighting, in the same order.
pub open spec fn newer_paths(seen: Seq<Sighting>, since: Timestamp) -> Seq<Seq<char>>
    decreases seen.len(),
{
    if seen.len() == 0 {
        Seq::empty()
    } else {
        newer_paths(seen.drop_last(), since) + marked(
            seen.last().path,
            newer(seen.last().modified, since),
        )
    }
}

/// No two sightings are of the same path.
pub open spec fn distinct_paths(seen: Seq<Sighting>) -> bool {
    forall|i: int, j: int|
        0 <= i < seen.len() && 0 <= j < seen.len() && i != j ==> (#[trigger] seen[i]).path != (
        #[trigger] seen[j]).path
}

proof fn lemma_newer_paths_concat(a: Seq<Sighting>, b: Seq<Sighting>, since: Timestamp)
    ensures
        newer_paths(a + b, since) == newer_paths(a, since) + newer_paths(b, since),
    decreases b.len(),
{
    if b.len() == 0 {
        assert(a + b =~= a);
        assert(newer_paths(a, since) + newer_paths(b, since) =~= newer_paths(a, since));
    } else {
        lemma_newer_paths_concat(a, b.drop_last(), since);
        assert((a + b).drop_last() =~= a + b.drop_last());
        assert((a + b).last() == b.last());
        assert(newer_paths(a + b, since) =~= newer_paths(a, since) + newer_paths(b, since));
    }
}

proof fn lemma_newer_paths_single(seen: Sighting, since: Timestamp)
    ensures
        newer_paths(seq![seen], since) == marked(seen.path, newer(seen.modified, since)),
{
    assert(seq![seen].drop_last() =~= Seq::<Sighting>::empty());
    assert(seq![seen].last() == seen);
    assert(newer_paths(Seq::<Sighting>::empty(), since) =~= Seq::<Seq<char>>::empty());
    assert(newer_paths(seq![seen], since) =~= marked(seen.path, newer(seen.modified, since)));
}

/// What a walk reports is what it saw, narrowed to the sightings that are
/// newer than the baseline: one path for each of them, in the order of the
/// walk, and nothing else.
pub proof fn lemma_changed_are_newer_sightings(since: Timestamp, path: Seq<char>, at: Snapshot)
    ensures
        changed_in(since, path, at) == newer_paths(sightings(path, at), since),
    decreases at, 0nat,
{
    match at.stat {
        None => {},
        Some(stat) => {
            let own = Sighting { path, modified: stat.modified };
            lemma_newer_paths_single(own, since);
            if !stat.is_file {
                match at.listing {
                    None => {},
                    Some(entries) => {
                        lemma_changed_among_are_newer_sightings(since, entries@, 0);
                        lemma_newer_paths_concat(seq![own], sightings_among(entries@, 0), since);
                    },
                }
            }
        },
    }
}

proof fn lemma_changed_among_are_newer_sightings(since: Timestamp, entries: Seq<Entry>, from: nat)
    ensures
        changed_among(since, entries, from) == newer_paths(sightings_among(entries, from), since),
    decreases entries, entries.len() - from,
{
    if from < entries.len() {
        let entry = entries[from as int];
        match entry {
            Entry::Unreadable => {},
            Entry::Leaf { path, modified } => {
                lemma_newer_paths_single(Sighting { path: path@, modified }, since);
            },
            Entry::Dir { path, below } => {
                lemma_changed_are_newer_sightings(since, path@, below);
            },
        }
        lemma_changed_among_are_newer_sightings(since, entries, from + 1);
        lemma_newer_paths_concat(
            sightings_at(entry),
            sightings_among(entries, from + 1),
            since,
        );
        assert(newer_paths(Seq::<Sighting>::empty(), since) =~= Seq::<Seq<char>>::empty());
        assert(changed_at(since, entry) == newer_paths(sightings_at(entry), since));
    } else {
        assert(newer_paths(Seq::<Sighting>::empty(), since) =~= Seq::<Seq<char>>::empty());
    }
}

proof fn lemma_contains_concat(a: Seq<Seq<char>>, b: Seq<Seq<char>>, p: Seq<char>)
    ensures
        (a + b).contains(p) <==> a.contains(p) || b.contains(p),
{
    if a.contains(p) {
        let i = choose|i: int| 0 <= i < a.len() && a[i] == p;
        assert((a + b)[i] == p);
    }
    if b.contains(p) {
        let j = choose|j: int| 0 <= j < b.len() && b[j] == p;
        assert((a + b)[a.len() + j] == p);
    }
    if (a + b).contains(p) {
        let k = choose|k: int| 0 <= k < (a + b).len() && (a + b)[k] == p;
        if k < a.len() {
            assert(a[k] == p);
        } else {
            assert(b[k - a.len()] == p);
        }
    }
}

/// A path is among the newer paths exactly when some sighting of it is
/// newer than the baseline.
pub proof fn lemma_newer_paths_members(seen: Seq<Sighting>, since: Timestamp, p: Seq<char>)
    ensures
        newer_paths(seen, since).contains(p) <==> exists|i: int|
            0 <= i < seen.len() && (#[trigger] seen[i]).path == p && newer(seen[i].modified, since),
    decreases seen.len(),
{
    if seen.len() == 0 {
        assert(!newer_paths(seen, since).contains(p));
    } else {
        let front = seen.drop_last();
        let last = seen.last();
        let tail = marked(last.path, newer(last.modified, since));
        lemma_newer_paths_members(front, since, p);
        lemma_contains_concat(newer_paths(front, since), tail, p);
        if tail.contains(p) {
            assert(tail[0] == p);
            assert(seen[seen.len() - 1].path == p);
        }
        if newer_paths(front, since).contains(p) {
            let i = choose|i: int|
                0 <= i < front.len() && (#[trigger] front[i]).path == p && newer(
                    front[i].modified,
                    since,
                );
            assert(seen[i] == front[i]);
        }
        if exists|i: int|
            0 <= i < seen.len() && (#[trigger] seen[i]).path == p && newer(seen[i].modified, since) {
            let i = choose|i: int|
                0 <= i < seen.len() && (#[trigger] seen[i]).path == p && newer(
                    seen[i].modified,
                    since,
                );
            if i < seen.len() - 1 {
                assert(front[i] == seen[i]);
            } else {
                assert(tail[0] == p);
            }
        }
    }
}

/// Where no path was seen twice, none is reported twice.
pub proof fn lemma_newer_paths_once(seen: Seq<Sighting>, since: Timestamp)
    requires
        distinct_paths(seen),
    ensures
        newer_paths(seen, since).no_duplicates(),
    decreases seen.len(),
{
    if seen.len() > 0 {
        let front = seen.drop_last();
        let last = seen.last();
        let head = newer_paths(front, since);
        let tail = marked(last.path, newer(last.modified, since));
        assert forall|i: int, j: int|
            0 <= i < front.len() && 0 <= j < front.len() && i != j implies (#[trigger] front[i]).path
            != (#[trigger] front[j]).path by {
            assert(front[i] == seen[i] && front[j] == seen[j]);
        }
        lemma_newer_paths_once(front, since);
        lemma_newer_paths_members(front, since, last.path);
        if head.contains(last.path) {
            let i = choose|i: int|
                0 <= i < front.len() && (#[trigger] front[i]).path == last.path && newer(
                    front[i].modified,
                    since,
                );
            assert(front[i] == seen[i]);
            assert(seen[seen.len() - 1].path == last.path);
            assert(false);
        }
        assert forall|i: int, j: int|
            0 <= i < (head + tail).len() && 0 <= j < (head + tail).len() && i != j implies (head
            + tail)[i] != (head + tail)[j] by {
            if i < head.len() && j < head.len() {
                assert(head[i] != head[j]);
            } else if i < head.len() {
                assert(head.contains(head[i]));
            } else if j < head.len() {
                assert(head.contains(head[j]));
            }
        }
    }
}

/// Detection is exact.  In a walk that sees no path twice, every path seen
/// with a modification time after the baseline is reported exactly once,
/// and a path seen with an equal or earlier time, or with none, is not
/// reported at all.
pub proof fn lemma_changed_exactly_the_newer(since: Timestamp, path: Seq<char>, at: Snapshot)
    requires
        distinct_paths(sightings(path, at)),
    ensures
        changed_in(since, path, at).no_duplicates(),
        forall|i: int|
            0 <= i < sightings(path, at).len() ==> (changed_in(since, path, at).contains(
                (#[trigger] sightings(path, at)[i]).path,
            ) <==> newer(sightings(path, at)[i].modified, since)),
{
    let seen = sightings(path, at);
    lemma_changed_are_newer_sightings(since, path, at);
    lemma_newer_paths_once(seen, since);
    assert forall|i: int| 0 <= i < seen.len() implies (newer_paths(seen, since).contains(
        (#[trigger] seen[i]).path,
    ) <==> newer(seen[i].modified, since)) by {
        lemma_newer_paths_members(seen, since, seen[i].path);
        if newer_paths(seen, since).contains(seen[i].path) {
            let j = choose|j: int|
                0 <= j < seen.len() && (#[trigger] seen[j]).path == seen[i].path && newer(
                    seen[j].modified,
                    since,
                );
            assert(j == i);
        }
    }
}

/// Where nothing that the walk sees is newer than the baseline, nothing is
/// reported.  So a cycle that follows one without any write in between,
/// with the baseline moved up to the latest modification, finds nothing.
pub proof fn lemma_nothing_newer_nothing_changed(since: Timestamp, path: Seq<char>, at: Snapshot)
    requires
        forall|i: int|
            0 <= i < sightings(path, at).len() ==> !newer(
                (#[trigger] sightings(path, at)[i]).modified,
                since,
            ),
    ensures
        changed_in(since, path, at).len() == 0,
{
    let seen = sightings(path, at);
    let changed = changed_in(since, path, at);
    lemma_changed_are_newer_sightings(since, path, at);
    if changed.len() > 0 {
        lemma_newer_paths_members(seen, since, changed[0]);
        assert(changed.contains(changed[0]));
    }
}

/// Detection is repeatable.  Two walks with the same baseline that see the
/// same paths with the same modification times report the same paths in the
/// same order: nothing but the baseline and what the walk sees goes into
/// the result.
pub proof fn lemma_detection_is_repeatable(
    since: Timestamp,
    path: Seq<char>,
    first: Snapshot,
    second: Snapshot,
)
    requires
        sightings(path, first) == sightings(path, second),
    ensures
        changed_in(since, path, first) == changed_in(since, path, second),
{
    lemma_changed_are_newer_sightings(since, path, first);
    lemma_changed_are_newer_sightings(since, path, second);
}

} // verus!
