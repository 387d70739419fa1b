use dupe_krill::{Action, FileKind, FileStat, RunMode, ScanEvent, Scanner};
use std::collections::BTreeMap;

/// A filesystem in memory: names that lead to inodes, and inodes that hold
/// bytes. Directories are implied by the names.
struct Disk {
    names: BTreeMap<String, u64>,
    inodes: BTreeMap<u64, Vec<u8>>,
    symlinks: BTreeMap<String, String>,
    next_ino: u64,
    bytes_read: u64,
    changes: Vec<String>,
    fail_rename: bool,
    fail_link: bool,
    can_clone: bool,
}

impl Disk {
    fn new() -> Disk {
        Disk {
            names: BTreeMap::new(),
            inodes: BTreeMap::new(),
            symlinks: BTreeMap::new(),
            next_ino: 1000,
            bytes_read: 0,
            changes: Vec::new(),
            fail_rename: false,
            fail_link: false,
            can_clone: false,
        }
    }

    fn write(&mut self, path: &str, data: &[u8]) {
        let ino = self.next_ino;
        self.next_ino += 1;
        self.inodes.insert(ino, data.to_vec());
        self.names.insert(path.to_string(), ino);
    }

    fn hard_link(&mut self, source: &str, dest: &str) -> bool {
        if self.fail_link || self.names.contains_key(dest) {
            return false;
        }
        match self.names.get(source).copied() {
            Some(ino) => {
                self.names.insert(dest.to_string(), ino);
                true
            },
            None => false,
        }
    }

    fn clone_file(&mut self, source: &str, dest: &str) -> bool {
        if !self.can_clone || self.names.contains_key(dest) {
            return false;
        }
        match self.names.get(source).copied() {
            Some(ino) => {
                let data = self.inodes[&ino].clone();
                self.write(dest, &data);
                true
            },
            None => false,
        }
    }

    fn rename(&mut self, from: &str, to: &str) -> bool {
        if self.fail_rename {
            return false;
        }
        match self.names.remove(from) {
            Some(ino) => {
                self.names.insert(to.to_string(), ino);
                true
            },
            None => false,
        }
    }

    fn remove(&mut self, path: &str) -> bool {
        self.names.remove(path).is_some()
    }

    fn nlink(&self, ino: u64) -> u64 {
        self.names.values().filter(|i| **i == ino).count() as u64
    }

    fn ino(&self, path: &str) -> u64 {
        self.names[path]
    }

    fn stat(&self, path: &str) -> FileStat {
        if self.symlinks.contains_key(path) {
            return FileStat { dev: 1, ino: 5, size: 7, nlink: 1, blksize: 4096, kind: FileKind::Symlink };
        }
        match self.names.get(path) {
            Some(ino) => FileStat {
                dev: 1,
                ino: *ino,
                size: self.inodes[ino].len() as u64,
                nlink: self.nlink(*ino),
                blksize: 4096,
                kind: FileKind::Regular,
            },
            None => FileStat { dev: 1, ino: 2, size: 4096, nlink: 2, blksize: 4096, kind: FileKind::Directory },
        }
    }

    fn read(&mut self, path: &str, offset: u64, size: u64) -> Option<Vec<u8>> {
        let ino = self.names.get(path)?;
        let data = &self.inodes[ino];
        let end = offset.checked_add(size)?;
        if end > data.len() as u64 {
            return None;
        }
        self.bytes_read += size;
        Some(data[offset as usize..end as usize].to_vec())
    }

    fn entries(&self, dir: &str) -> Vec<String> {
        let prefix = format!("{}/", dir);
        let mut all: Vec<String> = self
            .names
            .keys()
            .chain(self.symlinks.keys())
            .filter(|p| p.starts_with(&prefix) && !p[prefix.len()..].contains('/'))
            .cloned()
            .collect();
        all.sort();
        all
    }
}

fn drive(scanner: &mut Scanner, disk: &mut Disk, mut action: Action) {
    loop {
        action = match action {
            Action::Idle => return,
            Action::Read { a, b, offset, size } => {
                let a = a.and_then(|p| disk.read(&p, offset, size));
                let b = b.and_then(|p| disk.read(&p, offset, size));
                scanner.supply(a, b)
            },
            Action::HardLink { source, temp } => {
                disk.changes.push(format!("link {} {}", source, temp));
                let ok = disk.hard_link(&source, &temp);
                scanner.completed(ok)
            },
            Action::Clone { source, temp } => {
                disk.changes.push(format!("clone {} {}", source, temp));
                let ok = disk.clone_file(&source, &temp);
                scanner.completed(ok)
            },
            Action::Rename { temp, dest } => {
                disk.changes.push(format!("rename {} {}", temp, dest));
                let ok = disk.rename(&temp, &dest);
                scanner.completed(ok)
            },
            Action::Remove { temp } => {
                disk.changes.push(format!("remove {}", temp));
                let ok = disk.remove(&temp);
                scanner.completed(ok)
            },
        };
    }
}

fn scan(scanner: &mut Scanner, disk: &mut Disk, root: &str) {
    let stat = disk.stat(root);
    let action = scanner.enqueue(root.to_string(), &stat);
    drive(scanner, disk, action);
    while let Some(dir) = scanner.next_dir() {
        for path in disk.entries(&dir) {
            if scanner.skip_excluded(&path) {
                continue;
            }
            let stat = disk.stat(&path);
            let action = scanner.enqueue(path, &stat);
            drive(scanner, disk, action);
        }
    }
    let action = scanner.flush_deferred();
    drive(scanner, disk, action);
}

fn count_linked(events: &[ScanEvent]) -> usize {
    events.iter().filter(|e| matches!(e, ScanEvent::Hardlinked { .. })).count()
}

#[test]
fn scantest_scan() {
    let mut disk = Disk::new();
    disk.write("/tests/filetest.rs", b"one");
    disk.write("/tests/scantest.rs", b"two");
    let mut d = Scanner::new();
    scan(&mut d, &mut disk, "/tests");
    assert_eq!(d.stats().skipped, 2);
}

#[test]
fn dupe_scan() {
    let mut disk = Disk::new();
    disk.write("/tests/filetest.rs", b"one");
    disk.write("/tests/scantest.rs", b"two");
    let mut d = Scanner::new();
    d.settings.ignore_small = false;
    scan(&mut d, &mut disk, "/tests");
    assert_eq!(d.stats().added, 2);
    assert_eq!(d.stats().dupes, 0);
    assert!(disk.changes.is_empty());
}

#[test]
fn test_exclude() {
    let mut disk = Disk::new();
    disk.write("/excludetest/a", b"foo");
    disk.write("/excludetest/b", b"foo");

    let mut d = Scanner::new();
    d.settings.ignore_small = false;
    d.settings.run_mode = RunMode::DryRunNoMerging;
    d.exclude(vec!["b".to_string()]);

    scan(&mut d, &mut disk, "/excludetest");
    let dupes = d.dupes();
    assert_eq!(dupes.len(), 1);
    assert_eq!(dupes[0].len(), 1);
    assert_eq!(dupes[0][0].paths.len(), 1);
    assert_eq!(d.stats().skipped, 1);
}

#[test]
fn scantest_scan_hardlink() {
    let mut disk = Disk::new();
    disk.write("/hardlinktest2/a", b"dupe");
    assert!(disk.hard_link("/hardlinktest2/a", "/hardlinktest2/b"));

    let mut d = Scanner::new();
    d.settings.ignore_small = false;
    d.settings.run_mode = RunMode::DryRun;
    scan(&mut d, &mut disk, "/hardlinktest2");
    let dupes = d.dupes();
    assert_eq!(dupes.len(), 1);
    assert_eq!(dupes[0][0].paths.len(), 2);

    let mut d = Scanner::new();
    d.settings.ignore_small = false;
    scan(&mut d, &mut disk, "/hardlinktest2");
    let dupes = d.dupes();
    assert_eq!(dupes.len(), 1);
    assert_eq!(dupes[0][0].paths.len(), 2);
}

#[test]
fn dupe_scan_hardlink() {
    let mut disk = Disk::new();
    disk.write("/hardlinktest2/a", b"dupe");
    assert!(disk.hard_link("/hardlinktest2/a", "/hardlinktest2/b"));

    let mut d = Scanner::new();
    d.settings.ignore_small = false;
    scan(&mut d, &mut disk, "/hardlinktest2");
    let dupes = d.dupes();
    assert_eq!(dupes.len(), 1);
    assert_eq!(dupes[0].len(), 1);
    assert_eq!(dupes[0][0].paths.len(), 2);
    assert_eq!(d.stats().hardlinks, 1);
    assert_eq!(d.stats().bytes_saved_by_hardlinks, 4);
    assert_eq!(d.stats().dupes, 0);
    assert!(disk.changes.is_empty());
    assert_eq!(disk.bytes_read, 0);
}

#[test]
fn identical_files_end_up_on_one_inode() {
    let mut disk = Disk::new();
    disk.write("/d/a", b"hello");
    disk.write("/d/b", b"hello");
    assert_ne!(disk.ino("/d/a"), disk.ino("/d/b"));

    let mut d = Scanner::new();
    d.settings.ignore_small = false;
    scan(&mut d, &mut disk, "/d");

    assert_eq!(disk.ino("/d/a"), disk.ino("/d/b"));
    assert_eq!(d.stats().dupes, 1);
    assert_eq!(d.stats().bytes_deduplicated, 5);
    let dupes = d.dupes();
    assert_eq!(dupes.len(), 1);
    assert_eq!(dupes[0].len(), 2);
    assert_eq!(dupes[0][0].paths, vec!["/d/a".to_string(), "/d/b".to_string()]);
    assert_eq!(dupes[0][1].paths.len(), 0);
    assert_eq!(count_linked(&d.take_events()), 1);
    assert_eq!(
        disk.changes,
        vec![
            "link /d/a /d/.tmp-dupe-e1iIQcBFn5pC4MUSm-xkcd-221".to_string(),
            "rename /d/.tmp-dupe-e1iIQcBFn5pC4MUSm-xkcd-221 /d/b".to_string(),
        ]
    );
    assert_eq!(disk.names.len(), 2);
}

#[test]
fn second_run_links_nothing() {
    let mut disk = Disk::new();
    disk.write("/d/a", b"hello");
    disk.write("/d/b", b"hello");
    disk.write("/d/c", b"other");
    let mut first = Scanner::new();
    first.settings.ignore_small = false;
    scan(&mut first, &mut disk, "/d");
    assert_eq!(first.stats().dupes + first.stats().hardlinks, 1);
    disk.changes.clear();

    let mut again = Scanner::new();
    again.settings.ignore_small = false;
    scan(&mut again, &mut disk, "/d");
    assert!(disk.changes.is_empty());
    assert_eq!(again.stats().dupes, 0);
    assert_eq!(again.stats().hardlinks, 1);
    assert_eq!(again.stats().dupes + again.stats().hardlinks, 1);
    assert_eq!(count_linked(&again.take_events()), 0);
}

#[test]
fn dry_run_changes_nothing_on_disk() {
    let mut disk = Disk::new();
    disk.write("/d/a", b"hello");
    disk.write("/d/b", b"hello");
    let (a, b) = (disk.ino("/d/a"), disk.ino("/d/b"));

    let mut d = Scanner::new();
    d.settings.ignore_small = false;
    d.settings.run_mode = RunMode::DryRun;
    scan(&mut d, &mut disk, "/d");

    assert!(disk.changes.is_empty());
    assert_eq!((disk.ino("/d/a"), disk.ino("/d/b")), (a, b));
    assert_eq!(d.stats().dupes, 1);
    let events = d.take_events();
    let found: Vec<_> = events
        .iter()
        .filter_map(|e| match e {
            ScanEvent::DuplicateFound { src, dst } => Some((src.clone(), dst.clone())),
            _ => None,
        })
        .collect();
    assert_eq!(found, vec![("/d/b".to_string(), "/d/a".to_string())]);
    assert_eq!(d.dupes()[0][0].paths.len(), 2);
}

#[test]
fn symlink_is_skipped_and_never_merged() {
    let mut disk = Disk::new();
    disk.write("/d/a", b"hello");
    disk.symlinks.insert("/d/b".to_string(), "/d/a".to_string());

    let mut d = Scanner::new();
    d.settings.ignore_small = false;
    scan(&mut d, &mut disk, "/d");
    assert_eq!(d.stats().added, 1);
    assert_eq!(d.stats().skipped, 1);
    assert_eq!(d.stats().dupes, 0);
    assert!(disk.changes.is_empty());
    assert_eq!(d.dupes().len(), 1);
}

#[test]
fn empty_and_small_files_are_skipped() {
    let mut disk = Disk::new();
    disk.write("/d/empty1", b"");
    disk.write("/d/empty2", b"");
    disk.write("/d/small1", &[7u8; 4095]);
    disk.write("/d/small2", &[7u8; 4095]);
    disk.write("/d/block1", &[7u8; 4096]);
    disk.write("/d/block2", &[7u8; 4096]);

    let mut d = Scanner::new();
    scan(&mut d, &mut disk, "/d");
    assert_eq!(d.stats().skipped, 4);
    assert_eq!(d.stats().added, 2);
    assert_eq!(d.stats().dupes, 1);

    let mut disk = Disk::new();
    disk.write("/d/empty1", b"");
    disk.write("/d/empty2", b"");
    disk.write("/d/small1", &[7u8; 4095]);
    disk.write("/d/small2", &[7u8; 4095]);
    let mut d = Scanner::new();
    d.settings.ignore_small = false;
    scan(&mut d, &mut disk, "/d");
    assert_eq!(d.stats().skipped, 2);
    assert_eq!(d.stats().added, 2);
    assert_eq!(d.stats().dupes, 1);
}

#[test]
fn failed_rename_removes_the_temporary_name_and_drops_the_path() {
    let mut disk = Disk::new();
    disk.write("/d/a", b"hello");
    disk.write("/d/b", b"hello");
    disk.fail_rename = true;
    let b = disk.ino("/d/b");

    let mut d = Scanner::new();
    d.settings.ignore_small = false;
    scan(&mut d, &mut disk, "/d");

    assert_eq!(disk.ino("/d/b"), b);
    assert_eq!(disk.names.len(), 2);
    assert_eq!(disk.changes.last().unwrap(), "remove /d/.tmp-dupe-e1iIQcBFn5pC4MUSm-xkcd-221");
    let dupes = d.dupes();
    assert_eq!(dupes[0][0].paths, vec!["/d/a".to_string()]);
    assert_eq!(dupes[0][1].paths.len(), 0);
    assert_eq!(count_linked(&d.take_events()), 0);
}

#[test]
fn reflink_mode_clones_or_gives_up() {
    let mut disk = Disk::new();
    disk.write("/d/a", b"hello");
    disk.write("/d/b", b"hello");
    disk.can_clone = true;
    let mut d = Scanner::new();
    d.settings.ignore_small = false;
    d.settings.run_mode = RunMode::Reflink;
    scan(&mut d, &mut disk, "/d");
    assert_eq!(d.stats().reflinks, 1);
    assert_eq!(d.stats().bytes_saved_by_reflinks, 5);
    assert_ne!(disk.ino("/d/a"), disk.ino("/d/b"));
    assert!(matches!(d.take_events().last().unwrap(), ScanEvent::Reflinked { .. }));

    let mut disk = Disk::new();
    disk.write("/d/a", b"hello");
    disk.write("/d/b", b"hello");
    let mut d = Scanner::new();
    d.settings.ignore_small = false;
    d.settings.run_mode = RunMode::Reflink;
    scan(&mut d, &mut disk, "/d");
    assert_eq!(d.stats().reflinks, 0);
    assert_eq!(
        disk.changes,
        vec![
            "clone /d/a /d/.tmp-dupe-e1iIQcBFn5pC4MUSm-xkcd-221".to_string(),
            "remove /d/.tmp-dupe-e1iIQcBFn5pC4MUSm-xkcd-221".to_string(),
        ]
    );
}

#[test]
fn reflink_or_hardlink_falls_back_to_a_hardlink() {
    let mut disk = Disk::new();
    disk.write("/d/a", b"hello");
    disk.write("/d/b", b"hello");
    let mut d = Scanner::new();
    d.settings.ignore_small = false;
    d.settings.run_mode = RunMode::ReflinkOrHardlink;
    scan(&mut d, &mut disk, "/d");
    assert_eq!(disk.ino("/d/a"), disk.ino("/d/b"));
    assert_eq!(d.stats().reflinks, 0);
    assert_eq!(count_linked(&d.take_events()), 1);
    assert_eq!(disk.changes.len(), 3);
}

#[test]
fn group_with_hardlinks_is_merged_at_the_end_into_the_largest_set() {
    let mut disk = Disk::new();
    disk.write("/d/a", b"hello");
    disk.write("/d/b", b"hello");
    assert!(disk.hard_link("/d/b", "/d/c"));
    assert!(disk.hard_link("/d/b", "/d/e"));
    let big = disk.ino("/d/b");

    let mut d = Scanner::new();
    d.settings.ignore_small = false;
    scan(&mut d, &mut disk, "/d");

    assert_eq!(disk.ino("/d/a"), big);
    assert_eq!(disk.nlink(big), 4);
    let dupes = d.dupes();
    assert_eq!(dupes[0].len(), 2);
    assert_eq!(dupes[0][0].paths.len(), 0);
    assert_eq!(dupes[0][1].paths.len(), 4);
    assert_eq!(d.stats().dupes, 1);
    assert_eq!(d.stats().hardlinks, 2);
}

/// A small generator of numbers that looks random and always gives the same
/// sequence.
struct Lcg(u64);

impl Lcg {
    fn next(&mut self, bound: u64) -> u64 {
        self.0 = self.0.wrapping_mul(6364136223846793005).wrapping_add(1442695040888963407);
        (self.0 >> 33) % bound
    }
}

fn blob(kind: u64) -> Vec<u8> {
    let sizes = [1usize, 5, 4095, 4096, 4097, 36863, 36864, 36865, 50_000, 300_000];
    let size = sizes[(kind % 10) as usize];
    let mut data = vec![(kind % 251) as u8; size];
    // Blobs of one size differ only near the end, so that telling them apart takes reading.
    let last = size - 1;
    data[last] = (kind / 10) as u8;
    data
}

fn run_mixed_tree(seed: u64, mode: RunMode, can_clone: bool) {
    let mut rng = Lcg(seed);
    let mut disk = Disk::new();
    disk.can_clone = can_clone;
    let mut paths: Vec<String> = Vec::new();
    for i in 0..150 {
        let path = format!("/t/f{:03}", i);
        if !paths.is_empty() && rng.next(5) == 0 {
            let other = paths[rng.next(paths.len() as u64) as usize].clone();
            assert!(disk.hard_link(&other, &path));
        } else {
            let kind = rng.next(30);
            disk.write(&path, &blob(kind));
        }
        paths.push(path);
    }
    let before: Vec<Vec<u8>> = paths.iter().map(|p| disk.inodes[&disk.ino(p)].clone()).collect();

    let mut d = Scanner::new();
    d.settings.ignore_small = false;
    d.settings.run_mode = mode;
    scan(&mut d, &mut disk, "/t");

    assert_eq!(disk.names.len(), paths.len());
    for (path, content) in paths.iter().zip(before.iter()) {
        assert_eq!(&disk.inodes[&disk.ino(path)], content, "{} changed", path);
    }
    for (i, a) in paths.iter().enumerate() {
        for (j, b) in paths.iter().enumerate() {
            if i < j {
                let same_content = before[i] == before[j];
                let same_inode = disk.ino(a) == disk.ino(b);
                match mode {
                    RunMode::Hardlink => assert_eq!(same_content, same_inode, "{} {}", a, b),
                    _ => assert!(same_content || !same_inode, "{} {}", a, b),
                }
            }
        }
    }
    let stats = d.stats();
    assert_eq!(stats.added, paths.len());
    let groups = d.dupes();
    let mut listed = 0;
    for group in &groups {
        let holding: Vec<_> = group.iter().filter(|set| !set.paths.is_empty()).collect();
        if mode != RunMode::DryRunNoMerging {
            assert_eq!(holding.len(), 1);
        }
        for set in group {
            listed += set.paths.len();
            for path in &set.paths {
                assert_eq!(disk.inodes[&disk.ino(path)], disk.inodes[&disk.ino(&holding[0].paths[0])]);
            }
        }
    }
    assert_eq!(listed, paths.len());
    if !mode.touches_disk() {
        assert!(disk.changes.is_empty());
    }
}

#[test]
fn mixed_tree_is_merged_by_content_and_nothing_is_lost() {
    for seed in 1..6 {
        run_mixed_tree(seed, RunMode::Hardlink, false);
    }
}

#[test]
fn mixed_tree_in_the_other_modes() {
    run_mixed_tree(7, RunMode::DryRun, false);
    run_mixed_tree(8, RunMode::DryRunNoMerging, false);
    run_mixed_tree(9, RunMode::Reflink, true);
    run_mixed_tree(10, RunMode::ReflinkOrHardlink, false);
    run_mixed_tree(11, RunMode::ReflinkOrHardlink, true);
}
