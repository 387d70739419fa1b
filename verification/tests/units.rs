use dupe_krill::deferred::Deferred;
use dupe_krill::gate::{classify, inode_key_of, Entry};
use dupe_krill::links::{LinkOp, LinkState, LinkType};
use dupe_krill::merge::{pick_canonical, Merge};
use dupe_krill::paths::{file_name_of, temp_path_of, TEMP_NAME};
use dupe_krill::queue::{order_key_of, DirQueue};
use dupe_krill::stats::{count_bytes, count_one};
use dupe_krill::{
    report_groups, Comparison, FileContent, FileKind, FileSet, FileStat, Metadata, Order, Records, RunMode,
    ScanEvent, Scanner, Settings, Stats, UI,
};
use std::sync::atomic::AtomicU32;
use std::sync::atomic::Ordering;

fn stat(kind: FileKind, size: u64, blksize: u64) -> FileStat {
    FileStat { dev: 3, ino: 77, size, nlink: 1, blksize, kind }
}

fn set(paths: &[&str], max_hardlinks: u64) -> FileSet {
    FileSet { max_hardlinks, paths: paths.iter().map(|p| p.to_string()).collect() }
}

#[test]
fn empty_files_are_skipped_whatever_the_setting() {
    assert_eq!(classify(stat(FileKind::Regular, 0, 4096), true), Entry::Skip);
    assert_eq!(classify(stat(FileKind::Regular, 0, 4096), false), Entry::Skip);
    assert_eq!(classify(stat(FileKind::Regular, 1, 4096), false), Entry::File);
}

#[test]
fn files_below_a_block_are_skipped_unless_asked_for() {
    assert_eq!(classify(stat(FileKind::Regular, 4095, 4096), true), Entry::Skip);
    assert_eq!(classify(stat(FileKind::Regular, 4096, 4096), true), Entry::File);
    assert_eq!(classify(stat(FileKind::Regular, 4095, 4096), false), Entry::File);
    assert_eq!(classify(stat(FileKind::Regular, 511, 512), true), Entry::Skip);
    assert_eq!(classify(stat(FileKind::Regular, 512, 512), true), Entry::File);
}

#[test]
fn huge_block_sizes_count_as_sixteen_kib() {
    let four_mib = 4 * 1024 * 1024;
    assert_eq!(classify(stat(FileKind::Regular, 16383, four_mib), true), Entry::Skip);
    assert_eq!(classify(stat(FileKind::Regular, 16384, four_mib), true), Entry::File);
}

#[test]
fn only_regular_files_and_directories_are_taken() {
    assert_eq!(classify(stat(FileKind::Symlink, 5000, 4096), false), Entry::Skip);
    assert_eq!(classify(stat(FileKind::Other, 5000, 4096), false), Entry::Skip);
    assert_eq!(classify(stat(FileKind::Directory, 0, 4096), true), Entry::Directory);
}

#[test]
fn inode_key_keeps_device_and_inode_apart() {
    assert_eq!(inode_key_of(0, 5), 5);
    assert_eq!(inode_key_of(1, 0), 1u128 << 64);
    assert_eq!(inode_key_of(2, 3), (2u128 << 64) + 3);
    assert_ne!(inode_key_of(1, 0), inode_key_of(0, u64::MAX));
}

#[test]
fn order_key_is_the_complement_of_the_inode_block() {
    assert_eq!(order_key_of(0), u64::MAX);
    assert_eq!(order_key_of(255), u64::MAX);
    assert_eq!(order_key_of(256), u64::MAX - 1);
    assert_eq!(order_key_of(0x1234), !0x12u64);
    assert_eq!(order_key_of(u64::MAX), !(u64::MAX >> 8));
}

#[test]
fn queue_hands_out_high_keys_first_and_equal_keys_in_order() {
    let mut q = DirQueue::new();
    q.push(1000, "third".to_string());
    q.push(10, "first".to_string());
    q.push(300, "second".to_string());
    q.push(20, "also first".to_string());
    assert_eq!(q.len(), 4);
    assert_eq!(q.pop(), Some("first".to_string()));
    assert_eq!(q.pop(), Some("also first".to_string()));
    assert_eq!(q.pop(), Some("second".to_string()));
    assert_eq!(q.pop(), Some("third".to_string()));
    assert_eq!(q.pop(), None);
}

#[test]
fn deferred_threshold_starts_at_4096_and_doubles() {
    let mut d = Deferred::new();
    assert_eq!((d.count, d.next), (0, 4096));
    for i in 1..4096 {
        assert!(!d.defer());
        assert_eq!(d.count, i);
    }
    assert!(d.defer());
    assert_eq!((d.count, d.next), (0, 8192));
    for _ in 1..8192 {
        assert!(!d.defer());
    }
    assert!(d.defer());
    assert_eq!((d.count, d.next), (0, 16384));
}

#[test]
fn deferred_threshold_stays_at_the_largest_value() {
    let mut d = Deferred { count: 5, next: usize::MAX / 2 + 1 };
    d.count = d.next - 1;
    assert!(d.defer());
    assert_eq!((d.count, d.next), (0, usize::MAX));
}

#[test]
fn hardlink_replacement_links_then_renames() {
    let s = LinkState::start(RunMode::Hardlink).unwrap();
    assert_eq!(s.op(), Some(LinkOp::HardLink));
    let s = s.advance(true);
    assert_eq!(s.op(), Some(LinkOp::Rename));
    let s = s.advance(true);
    assert_eq!(s, LinkState::Linked(LinkType::Hardlink));
    assert_eq!(s.op(), None);
}

#[test]
fn failed_calls_lead_to_the_removal_of_the_temporary_name() {
    let s = LinkState::start(RunMode::Hardlink).unwrap().advance(false);
    assert_eq!(s.op(), Some(LinkOp::RemoveTemp));
    assert_eq!(s.advance(false), LinkState::Failed);
    let s = LinkState::start(RunMode::Hardlink).unwrap().advance(true).advance(false);
    assert_eq!(s.op(), Some(LinkOp::RemoveTemp));
    assert_eq!(s.advance(true), LinkState::Failed);
    let s = LinkState::start(RunMode::Reflink).unwrap();
    assert_eq!(s.op(), Some(LinkOp::Clone));
    assert_eq!(s.advance(false).op(), Some(LinkOp::RemoveTemp));
}

#[test]
fn strict_reflink_never_hardlinks_and_lenient_reflink_does() {
    let s = LinkState::start(RunMode::Reflink).unwrap();
    assert_eq!(s.advance(true).advance(true), LinkState::Linked(LinkType::Reflink));
    let s = LinkState::start(RunMode::ReflinkOrHardlink).unwrap();
    assert_eq!(s.op(), Some(LinkOp::Clone));
    assert_eq!(s.advance(true).advance(true), LinkState::Linked(LinkType::Reflink));
    let fallback = s.advance(false);
    assert_eq!(fallback.op(), Some(LinkOp::HardLink));
    assert_eq!(fallback.advance(true).advance(true), LinkState::Linked(LinkType::Hardlink));
}

#[test]
fn dry_runs_start_no_replacement() {
    assert_eq!(LinkState::start(RunMode::DryRun), None);
    assert_eq!(LinkState::start(RunMode::DryRunNoMerging), None);
    assert!(!RunMode::DryRun.touches_disk());
    assert!(RunMode::ReflinkOrHardlink.touches_disk());
}

#[test]
fn temporary_path_is_a_sibling_of_the_destination() {
    assert_eq!(TEMP_NAME, ".tmp-dupe-e1iIQcBFn5pC4MUSm-xkcd-221");
    assert_eq!(temp_path_of("/a/b/c.txt"), "/a/b/.tmp-dupe-e1iIQcBFn5pC4MUSm-xkcd-221");
    assert_eq!(temp_path_of("/c.txt"), "/.tmp-dupe-e1iIQcBFn5pC4MUSm-xkcd-221");
    assert_eq!(temp_path_of("c.txt"), ".tmp-dupe-e1iIQcBFn5pC4MUSm-xkcd-221");
    assert_eq!(temp_path_of("/ä/ö"), "/ä/.tmp-dupe-e1iIQcBFn5pC4MUSm-xkcd-221");
}

#[test]
fn file_name_is_what_follows_the_last_separator() {
    assert_eq!(file_name_of("/a/b/c.txt"), "c.txt");
    assert_eq!(file_name_of("c.txt"), "c.txt");
    assert_eq!(file_name_of("/a/b/"), "");
    assert_eq!(file_name_of("/ä/ö"), "ö");
}

#[test]
fn exclusion_takes_the_exact_name_only() {
    let mut s = Scanner::new();
    s.exclude(vec!["b".to_string(), ".git".to_string()]);
    assert!(s.skip_excluded("/x/b"));
    assert!(s.skip_excluded("/x/.git"));
    assert!(!s.skip_excluded("/x/bb"));
    assert!(!s.skip_excluded("/x/ab"));
    assert!(!s.skip_excluded("/x/B"));
    assert!(!s.skip_excluded("/x/b/c"));
    assert!(!s.skip_excluded("/b/x"));
    assert!(!s.skip_excluded("/x/b.txt"));
    assert_eq!(s.stats().skipped, 2);
    s.exclude(vec![]);
    assert!(!s.skip_excluded("/x/b"));
}

#[test]
fn counters_stay_at_the_largest_value() {
    assert_eq!(count_one(0), 1);
    assert_eq!(count_one(usize::MAX), usize::MAX);
    assert_eq!(count_bytes(10, 5), 15);
    assert_eq!(count_bytes(usize::MAX - 1, 5), usize::MAX);
    assert_eq!(count_bytes(0, u64::MAX), usize::MAX.min(u64::MAX as usize));
    assert_eq!(Stats::new(), Stats::default());
}

#[test]
fn canonical_is_the_first_of_the_sets_with_most_links() {
    let sets = vec![set(&["a"], 1), set(&["b", "c"], 1), set(&["d"], 2), set(&[], 9), set(&["e"], 5)];
    assert_eq!(pick_canonical(&sets, &vec![0, 1, 2]), Some(1));
    assert_eq!(pick_canonical(&sets, &vec![0, 2, 1]), Some(1));
    assert_eq!(pick_canonical(&sets, &vec![2, 1, 0]), Some(0));
    assert_eq!(pick_canonical(&sets, &vec![0, 3]), Some(0));
    assert_eq!(pick_canonical(&sets, &vec![3]), None);
    assert_eq!(pick_canonical(&sets, &vec![0, 1, 2, 3, 4]), Some(4));
    assert_eq!(pick_canonical(&sets, &vec![]), None);
}

#[test]
fn dry_merge_moves_every_path_and_reports_it() {
    let mut records = Records::new();
    records.filesets = vec![set(&["a"], 1), set(&["b", "c"], 1), set(&["d"], 1)];
    let bucket = vec![0, 1, 2];
    let mut merge = Merge::begin(&records, &bucket, RunMode::DryRun).unwrap();
    assert_eq!(merge.canonical, 1);
    assert_eq!(merge.proceed(&mut records, &bucket, RunMode::DryRun), None);
    assert_eq!(records.filesets[1].paths, vec!["b", "c", "a", "d"]);
    assert!(records.filesets[0].paths.is_empty());
    assert!(records.filesets[2].paths.is_empty());
    let found: Vec<(String, String)> = records
        .events
        .iter()
        .map(|e| match e {
            ScanEvent::DuplicateFound { src, dst } => (src.clone(), dst.clone()),
            other => panic!("{:?}", other),
        })
        .collect();
    assert_eq!(found, vec![("a".to_string(), "b".to_string()), ("d".to_string(), "b".to_string())]);
    assert!(Merge::begin(&records, &bucket, RunMode::DryRunNoMerging).is_none());
}

#[test]
fn merge_asks_for_each_call_and_goes_on_after_a_failure() {
    let mut records = Records::new();
    records.filesets = vec![set(&["a"], 1), set(&["b"], 1), set(&["c"], 1)];
    let bucket = vec![0, 1, 2];
    let mode = RunMode::Hardlink;
    let mut merge = Merge::begin(&records, &bucket, mode).unwrap();
    assert_eq!(merge.canonical, 0);
    assert_eq!(merge.proceed(&mut records, &bucket, mode), Some(LinkOp::HardLink));
    assert_eq!(merge.dest(&records, &bucket), "b");
    assert_eq!(merge.source(&records), "a");
    assert_eq!(merge.completed(&mut records, &bucket, mode, 5, false), Some(LinkOp::RemoveTemp));
    assert_eq!(merge.completed(&mut records, &bucket, mode, 5, true), Some(LinkOp::HardLink));
    assert!(records.filesets[1].paths.is_empty());
    assert_eq!(merge.dest(&records, &bucket), "c");
    assert_eq!(merge.completed(&mut records, &bucket, mode, 5, true), Some(LinkOp::Rename));
    assert_eq!(merge.completed(&mut records, &bucket, mode, 5, true), None);
    assert_eq!(records.filesets[0].paths, vec!["a", "c"]);
    assert_eq!(records.events.len(), 1);
    assert!(matches!(&records.events[0], ScanEvent::Hardlinked { src, dst } if src == "c" && dst == "a"));
    assert_eq!(records.stats, Stats::new());
}

#[test]
fn report_leaves_out_empty_sets_and_groups_without_shared_paths() {
    let dupes = vec![
        vec![set(&["a", "b"], 2), set(&[], 1)],
        vec![set(&["c"], 1)],
        vec![set(&["d"], 1), set(&["e"], 1)],
        vec![set(&[], 1)],
        vec![set(&["f"], 1), set(&["g", "h", "i"], 1)],
    ];
    let report = report_groups(&dupes);
    assert_eq!(
        report,
        vec![
            vec![vec!["a".to_string(), "b".to_string()]],
            vec![vec!["f".to_string()], vec!["g".to_string(), "h".to_string(), "i".to_string()]],
        ]
    );
    assert!(report_groups(&vec![]).is_empty());
}

#[test]
fn progress_line_comes_once_a_second() {
    let mut ui = UI::new();
    let stats = Stats { added: 12, skipped: 3, dupes: 4, hardlinks: 5, ..Stats::new() };
    assert_eq!(ui.file_scanned(0, "/a/b/c.txt", &stats), None);
    assert_eq!(
        ui.file_scanned(1, "/a/b/c.txt", &stats),
        Some("4+5 dupes. 12+3 files scanned. /a/b/…".to_string())
    );
    assert_eq!(ui.next_update, 2);
    assert_eq!(ui.file_scanned(1, "/a/b/c.txt", &stats), None);
    assert_eq!(ui.file_scanned(2, "/a/b/c.txt", &stats), None);
    assert_eq!(ui.file_scanned(3, "/c.txt", &stats), Some("4+5 dupes. 12+3 files scanned. //…".to_string()));
    assert_eq!(ui.file_scanned(9, "c.txt", &stats), Some("4+5 dupes. 12+3 files scanned. /…".to_string()));
}

#[test]
fn summary_and_link_lines() {
    let ui = UI::new();
    let stats = Stats { added: 1200, skipped: 0, dupes: 10, hardlinks: 7, ..Stats::new() };
    assert_eq!(
        ui.scan_over(&stats, "1.5s"),
        "Dupes found: 10. Existing hardlinks: 7. Scanned: 1200. Skipped 0. Total scan duration: 1.5s"
    );
    assert_eq!(ui.hardlinked("foo/b", "foo/a"), "Hardlinked foo/{b => a}");
    assert_eq!(ui.duplicate_found("b.txt", "e.txt"), "Found dupe {b.txt => e.txt}");
}

#[test]
fn durations_are_written_in_seconds_or_minutes() {
    assert_eq!(dupe_krill::ui::nice_duration(0), None);
    assert_eq!(dupe_krill::ui::nice_duration(5), None);
    assert_eq!(dupe_krill::ui::nice_duration(6), Some("6s".to_string()));
    assert_eq!(dupe_krill::ui::nice_duration(59), Some("59s".to_string()));
    assert_eq!(dupe_krill::ui::nice_duration(60), Some("1m0s".to_string()));
    assert_eq!(dupe_krill::ui::nice_duration(3725), Some("62m5s".to_string()));
    assert_eq!(dupe_krill::ui::decimal_text(0), "0");
    assert_eq!(dupe_krill::ui::decimal_text(1234567890), "1234567890");
    assert_eq!(dupe_krill::ui::decimal_text(u64::MAX), "18446744073709551615");
}

#[test]
fn breaks_reads_the_counter() {
    static COUNTER: AtomicU32 = AtomicU32::new(0);
    let none = Settings { ignore_small: true, run_mode: RunMode::Hardlink, break_on: None };
    assert_eq!(none.breaks(), 0);
    let some = Settings { ignore_small: true, run_mode: RunMode::Hardlink, break_on: Some(&COUNTER) };
    assert_eq!(some.breaks(), 0);
    COUNTER.fetch_add(2, Ordering::SeqCst);
    assert_eq!(some.breaks(), 2);
}

#[test]
fn a_stopped_scan_hands_out_no_directory_and_gives_up_the_flush() {
    let mut s = Scanner::new();
    s.settings.ignore_small = false;
    s.settings.run_mode = RunMode::DryRun;
    let dir = FileStat { dev: 1, ino: 9, size: 0, nlink: 2, blksize: 4096, kind: FileKind::Directory };
    assert_eq!(s.add("/d".to_string(), &dir, 0), dupe_krill::Action::Idle);
    assert_eq!(s.pop_dir(1), None);
    assert_eq!(s.pop_dir(0), Some("/d".to_string()));
    assert_eq!(s.pop_dir(0), None);
    assert!(!s.stopping());
}

#[test]
fn chunks_grow_eightfold_up_to_128_mib() {
    let size: u64 = 700 * 1024 * 1024;
    let mut a = FileContent::new("/a".to_string(), Metadata { dev: 1, size });
    let mut b = FileContent::new("/b".to_string(), Metadata { dev: 1, size });
    let mut iter = a.start();
    let mut seen = Vec::new();
    loop {
        match a.compare(&b, &mut iter) {
            Comparison::Read(request) => {
                seen.push((request.offset, request.size));
                if request.size >= 128 * 1024 * 1024 {
                    break;
                }
                let data = vec![0u8; request.size as usize];
                a.supply(&mut b, &iter, Some(data.clone()), Some(data));
            },
            other => panic!("{:?}", other),
        }
    }
    assert_eq!(
        seen,
        vec![
            (0, 4096),
            (4096, 32768),
            (36864, 262144),
            (299008, 2097152),
            (2396160, 16777216),
            (19173376, 134217728),
        ]
    );
}

#[test]
fn order_of_different_contents_is_stable_and_antisymmetric() {
    let mut a = FileContent::new("/a".to_string(), Metadata { dev: 1, size: 5 });
    let mut b = FileContent::new("/b".to_string(), Metadata { dev: 1, size: 5 });
    let mut iter = a.start();
    assert!(matches!(a.compare(&b, &mut iter), Comparison::Read(_)));
    a.supply(&mut b, &iter, Some(b"hello".to_vec()), Some(b"world".to_vec()));
    let ab = a.compare(&b, &mut iter);
    let mut iter = b.start();
    let ba = b.compare(&a, &mut iter);
    assert!(
        (ab == Comparison::Done(Order::Less) && ba == Comparison::Done(Order::Greater))
            || (ab == Comparison::Done(Order::Greater) && ba == Comparison::Done(Order::Less))
    );
    let mut iter = a.start();
    assert_eq!(a.compare(&b, &mut iter), ab);
}
