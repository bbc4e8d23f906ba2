use rswatch::instant::Timestamp;
use rswatch::report::Line;
use rswatch::scan::{warnings_of, FileStat, Probe, ScanReply, ScanRequest, Scanner};
use rswatch::snapshot::{find_changed, find_changed_in_all, listing_of, Entry, Snapshot, Target};

fn at(nanos: i128) -> Option<Timestamp> {
    Some(Timestamp::new(nanos))
}

fn file(modified: i128) -> Snapshot {
    Snapshot { stat: Some(FileStat { is_file: true, modified: at(modified) }), listing: None }
}

fn dir(modified: i128, entries: Vec<Entry>) -> Snapshot {
    Snapshot { stat: Some(FileStat { is_file: false, modified: at(modified) }), listing: Some(entries) }
}

fn leaf(path: &str, modified: i128) -> Entry {
    Entry::Leaf { path: path.to_string(), modified: at(modified) }
}

fn sub(path: &str, below: Snapshot) -> Entry {
    Entry::Dir { path: path.to_string(), below }
}

fn scan(since: i128, path: &str, snapshot: &Snapshot) -> Vec<String> {
    find_changed(Timestamp::new(since), &path.to_string(), snapshot)
}

fn names(items: &[&str]) -> Vec<String> {
    items.iter().map(|s| s.to_string()).collect()
}

#[test]
fn unreadable_root_reports_nothing() {
    let gone = Snapshot { stat: None, listing: Some(vec![leaf("x/a", 900)]) };
    assert_eq!(scan(0, "x", &gone), names(&[]));
}

#[test]
fn plain_file_is_reported_only_when_newer() {
    assert_eq!(scan(100, "f", &file(101)), names(&["f"]));
    assert_eq!(scan(100, "f", &file(100)), names(&[]));
    assert_eq!(scan(100, "f", &file(99)), names(&[]));
}

#[test]
fn plain_file_ends_the_walk() {
    let odd = Snapshot {
        stat: Some(FileStat { is_file: true, modified: at(5) }),
        listing: Some(vec![leaf("f/inner", 900)]),
    };
    assert_eq!(scan(1, "f", &odd), names(&["f"]));
}

#[test]
fn file_without_modification_time_is_never_changed() {
    let unknown = Snapshot { stat: Some(FileStat { is_file: true, modified: None }), listing: None };
    assert_eq!(scan(i128::MIN, "f", &unknown), names(&[]));
    let d = dir(0, vec![Entry::Leaf { path: "d/a".to_string(), modified: None }]);
    assert_eq!(scan(-1, "d", &d), names(&["d"]));
}

#[test]
fn directory_is_reported_beside_its_changed_children() {
    let d = dir(200, vec![leaf("d/old", 50), leaf("d/new", 150)]);
    assert_eq!(scan(100, "d", &d), names(&["d", "d/new"]));
}

#[test]
fn unchanged_directory_still_shows_changed_children() {
    let d = dir(10, vec![leaf("d/a", 150), leaf("d/b", 100), leaf("d/c", 101)]);
    assert_eq!(scan(100, "d", &d), names(&["d/a", "d/c"]));
}

#[test]
fn unlistable_root_reports_nothing_at_all() {
    let d = Snapshot { stat: Some(FileStat { is_file: false, modified: at(900) }), listing: None };
    assert_eq!(scan(100, "d", &d), names(&[]));
}

#[test]
fn unlistable_subdirectory_is_skipped_and_the_walk_goes_on() {
    let locked = Snapshot { stat: Some(FileStat { is_file: false, modified: at(900) }), listing: None };
    let d = dir(10, vec![leaf("d/a", 500), sub("d/locked", locked), leaf("d/z", 500)]);
    assert_eq!(scan(100, "d", &d), names(&["d/a", "d/z"]));
}

#[test]
fn unreadable_entries_are_skipped() {
    let vanished = Snapshot { stat: None, listing: None };
    let d = dir(
        500,
        vec![Entry::Unreadable, leaf("d/a", 500), sub("d/gone", vanished), Entry::Unreadable, leaf("d/b", 500)],
    );
    assert_eq!(scan(100, "d", &d), names(&["d", "d/a", "d/b"]));
}

#[test]
fn walk_follows_the_listing_order_depth_first() {
    let inner = dir(300, vec![leaf("r/m/x", 300), sub("r/m/deep", dir(1, vec![leaf("r/m/deep/y", 300)]))]);
    let r = dir(1, vec![leaf("r/a", 300), sub("r/m", inner), leaf("r/z", 300), sub("r/e", dir(300, vec![]))]);
    assert_eq!(
        scan(100, "r", &r),
        names(&["r/a", "r/m", "r/m/x", "r/m/deep/y", "r/z", "r/e"])
    );
}

#[test]
fn each_newer_path_appears_exactly_once() {
    let r = dir(
        300,
        vec![
            leaf("r/a", 300),
            leaf("r/b", 100),
            sub("r/s", dir(100, vec![leaf("r/s/c", 101), leaf("r/s/d", 99)])),
        ],
    );
    let found = scan(100, "r", &r);
    for newer in ["r", "r/a", "r/s/c"] {
        assert_eq!(found.iter().filter(|p| p.as_str() == newer).count(), 1, "{}", newer);
    }
    for older in ["r/b", "r/s", "r/s/d"] {
        assert!(!found.iter().any(|p| p.as_str() == older), "{}", older);
    }
    assert_eq!(found.len(), 3);
}

#[test]
fn detection_twice_gives_the_same_paths() {
    let r = dir(300, vec![leaf("r/a", 300), sub("r/s", dir(400, vec![leaf("r/s/c", 101)]))]);
    let first = scan(100, "r", &r);
    let second = scan(100, "r", &r);
    assert_eq!(first, second);
    assert_eq!(first, names(&["r", "r/a", "r/s", "r/s/c"]));
}

#[test]
fn empty_directory_then_new_file_then_quiet() {
    let t0: i128 = 1_000;
    let t1: i128 = 2_000;
    let empty = dir(500, vec![]);
    assert_eq!(scan(t0, "w", &empty), names(&[]));
    let with_file = dir(t1, vec![leaf("w/new.txt", t1)]);
    assert_eq!(scan(t0, "w", &with_file), names(&["w", "w/new.txt"]));
    assert_eq!(scan(t1, "w", &with_file), names(&[]));
}

#[test]
fn later_baseline_never_reports_more() {
    let r = dir(300, vec![leaf("r/a", 200), leaf("r/b", 400), sub("r/s", dir(250, vec![leaf("r/s/c", 350)]))]);
    let early = scan(100, "r", &r);
    let late = scan(300, "r", &r);
    assert_eq!(early, names(&["r", "r/a", "r/b", "r/s", "r/s/c"]));
    assert_eq!(late, names(&["r/b", "r/s/c"]));
    assert!(late.iter().all(|p| early.contains(p)));
    assert_eq!(scan(400, "r", &r), names(&[]));
}

#[test]
fn listing_shows_each_entry_as_a_probe() {
    let entries = vec![Entry::Unreadable, leaf("a", 7), sub("b", file(9))];
    assert_eq!(
        listing_of(&entries),
        vec![
            Probe::Unreadable,
            Probe::Leaf { path: "a".to_string(), modified: at(7) },
            Probe::Dir { path: "b".to_string() },
        ]
    );
}

#[test]
fn scanner_asks_for_metadata_then_listing_then_subdirectories() {
    let s = Scanner::new(Timestamp::new(100));
    assert!(s.is_idle());
    assert_eq!(s.request(), None);
    assert_eq!(s.since(), Timestamp::new(100));
    let s = s.visit("root".to_string());
    assert_eq!(s.request(), Some(ScanRequest::Stat("root".to_string())));
    let s = s.reply(ScanReply::Stat(Ok(FileStat { is_file: false, modified: at(150) }))).0;
    assert_eq!(s.request(), Some(ScanRequest::List("root".to_string())));
    assert_eq!(s.changed(), &names(&[]));
    let s = s.reply(ScanReply::Listed(Ok(vec![
        Probe::Leaf { path: "root/a".to_string(), modified: at(150) },
        Probe::Dir { path: "root/d".to_string() },
        Probe::Leaf { path: "root/z".to_string(), modified: at(150) },
    ]))).0;
    assert_eq!(s.request(), Some(ScanRequest::Stat("root/d".to_string())));
    assert_eq!(s.changed(), &names(&["root", "root/a"]));
    let s = s.reply(ScanReply::Stat(Ok(FileStat { is_file: false, modified: at(50) }))).0;
    assert_eq!(s.request(), Some(ScanRequest::List("root/d".to_string())));
    let s = s.reply(ScanReply::Listed(Ok(vec![Probe::Leaf {
        path: "root/d/x".to_string(),
        modified: at(101),
    }]))).0;
    assert_eq!(s.request(), None);
    assert!(s.is_idle());
    assert_eq!(s.into_changed(), names(&["root", "root/a", "root/d/x", "root/z"]));
}

#[test]
fn scanner_ignores_answers_it_did_not_ask_for() {
    let s = Scanner::new(Timestamp::new(0)).visit("p".to_string());
    let s = s.reply(ScanReply::Listed(Ok(vec![Probe::Leaf { path: "p/a".to_string(), modified: at(5) }]))).0;
    assert_eq!(s.request(), Some(ScanRequest::Stat("p".to_string())));
    assert_eq!(s.changed(), &names(&[]));
    let s = s.visit("other".to_string());
    assert_eq!(s.request(), Some(ScanRequest::Stat("p".to_string())));
    let s = s.reply(ScanReply::Stat(Ok(FileStat { is_file: false, modified: at(5) }))).0;
    let s = s.reply(ScanReply::Stat(Err("denied".to_string()))).0;
    assert_eq!(s.request(), Some(ScanRequest::List("p".to_string())));
    let idle = Scanner::new(Timestamp::new(0)).reply(ScanReply::Stat(Err("denied".to_string()))).0;
    assert!(idle.is_idle());
}

#[test]
fn scanner_keeps_what_it_found_across_roots() {
    let s = Scanner::new(Timestamp::new(10)).visit("a".to_string());
    let s = s.reply(ScanReply::Stat(Ok(FileStat { is_file: true, modified: at(11) }))).0;
    assert!(s.is_idle());
    let s = s.visit("b".to_string());
    let s = s.reply(ScanReply::Stat(Err("denied".to_string()))).0;
    let s = s.visit("c".to_string());
    let s = s.reply(ScanReply::Stat(Ok(FileStat { is_file: true, modified: at(12) }))).0;
    assert_eq!(s.into_changed(), names(&["a", "c"]));
}

#[test]
fn scanner_drops_a_directory_that_cannot_be_listed() {
    let s = Scanner::new(Timestamp::new(10)).visit("d".to_string());
    let s = s.reply(ScanReply::Stat(Ok(FileStat { is_file: false, modified: at(99) }))).0;
    let s = s.reply(ScanReply::Listed(Err("denied".to_string()))).0;
    assert!(s.is_idle());
    assert_eq!(s.into_changed(), names(&[]));
}

#[test]
fn scanner_warns_of_what_it_cannot_read() {
    let s = Scanner::new(Timestamp::new(10)).visit("gone".to_string());
    let (s, lines) = s.reply(ScanReply::Stat(Err("No such file".to_string())));
    assert_eq!(
        lines,
        vec![Line::NoMetadata { path: "gone".to_string(), reason: "No such file".to_string() }]
    );
    assert!(s.is_idle());
    let s = s.visit("d".to_string());
    let (s, lines) = s.reply(ScanReply::Stat(Ok(FileStat { is_file: false, modified: None })));
    assert_eq!(lines, vec![Line::NoModificationDate]);
    let (s, lines) = s.reply(ScanReply::Listed(Err("Permission denied".to_string())));
    assert_eq!(lines, vec![Line::NoListing("Permission denied".to_string())]);
    assert!(s.is_idle());
    assert_eq!(s.into_changed(), names(&[]));
}

#[test]
fn scanner_warns_of_entries_in_the_order_of_the_listing() {
    let s = Scanner::new(Timestamp::new(10)).visit("d".to_string());
    let (s, lines) = s.reply(ScanReply::Stat(Ok(FileStat { is_file: false, modified: at(5) })));
    assert_eq!(lines, vec![]);
    let listing = vec![
        Probe::Unreadable,
        Probe::NoMetadata { path: "d/x".to_string(), reason: "busy".to_string() },
        Probe::Leaf { path: "d/a".to_string(), modified: at(50) },
        Probe::Leaf { path: "d/b".to_string(), modified: None },
        Probe::Dir { path: "d/s".to_string() },
        Probe::NoMetadata { path: "d/y".to_string(), reason: "stale".to_string() },
        Probe::Leaf { path: "d/c".to_string(), modified: at(60) },
    ];
    let expected = vec![
        Line::NoMetadata { path: "d/x".to_string(), reason: "busy".to_string() },
        Line::NoModificationDate,
        Line::NoMetadata { path: "d/y".to_string(), reason: "stale".to_string() },
    ];
    assert_eq!(warnings_of(&listing), expected);
    let (s, lines) = s.reply(ScanReply::Listed(Ok(listing)));
    assert_eq!(lines, expected);
    assert_eq!(s.request(), Some(ScanRequest::Stat("d/s".to_string())));
    let (s, lines) = s.reply(ScanReply::Stat(Ok(FileStat { is_file: true, modified: at(70) })));
    assert_eq!(lines, vec![]);
    assert_eq!(s.into_changed(), names(&["d/a", "d/s", "d/c"]));
}

#[test]
fn answers_that_were_not_asked_for_give_no_warning() {
    let s = Scanner::new(Timestamp::new(10));
    let (s, lines) = s.reply(ScanReply::Stat(Err("late".to_string())));
    assert_eq!(lines, vec![]);
    let s = s.visit("p".to_string());
    let (_, lines) = s.reply(ScanReply::Listed(Err("early".to_string())));
    assert_eq!(lines, vec![]);
}

fn target(path: &str, at: Snapshot) -> Target {
    Target { path: path.to_string(), at }
}

#[test]
fn pass_over_no_targets_finds_nothing() {
    assert_eq!(find_changed_in_all(Timestamp::new(0), &vec![]), names(&[]));
}

#[test]
fn pass_gathers_each_target_in_order_under_one_baseline() {
    let targets = vec![
        target("b", dir(300, vec![leaf("b/x", 50), leaf("b/y", 150)])),
        target("gone", Snapshot { stat: None, listing: None }),
        target("a.txt", file(101)),
        target("old.txt", file(100)),
        target("c", dir(1, vec![sub("c/s", dir(200, vec![leaf("c/s/z", 200)]))])),
    ];
    assert_eq!(
        find_changed_in_all(Timestamp::new(100), &targets),
        names(&["b", "b/y", "a.txt", "c/s", "c/s/z"])
    );
    assert_eq!(find_changed_in_all(Timestamp::new(150), &targets), names(&["b", "c/s", "c/s/z"]));
    assert_eq!(find_changed_in_all(Timestamp::new(300), &targets), names(&[]));
}

#[test]
fn pass_is_the_walks_one_after_the_other() {
    let targets = vec![
        target("p", dir(9, vec![leaf("p/1", 9), sub("p/d", dir(9, vec![leaf("p/d/2", 3)]))])),
        target("q", file(9)),
        target("p", dir(9, vec![leaf("p/1", 9)])),
    ];
    for since in [0i128, 3, 8, 9] {
        let mut expected = Vec::new();
        for t in &targets {
            expected.extend(find_changed(Timestamp::new(since), &t.path, &t.at));
        }
        assert_eq!(find_changed_in_all(Timestamp::new(since), &targets), expected);
    }
}
