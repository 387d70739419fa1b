use dupe_krill::{Comparison, FileContent, HashedRange, Metadata, Order};

/// A file in memory, with a count of the bytes that were read from it.
struct MemFile {
    data: Vec<u8>,
    read: u64,
    broken: bool,
}

impl MemFile {
    fn new(data: &[u8]) -> MemFile {
        MemFile { data: data.to_vec(), read: 0, broken: false }
    }

    fn read_range(&mut self, offset: u64, size: u64) -> Option<Vec<u8>> {
        if self.broken {
            return None;
        }
        let end = offset + size;
        if end > self.data.len() as u64 {
            return None;
        }
        self.read += size;
        Some(self.data[offset as usize..end as usize].to_vec())
    }
}

fn key(path: &str, file: &MemFile) -> FileContent {
    FileContent::new(path.to_string(), Metadata { dev: 1, size: file.data.len() as u64 })
}

/// Compares two keys to the end, reading what the comparison asks for.
fn compare(a: &mut FileContent, fa: &mut MemFile, b: &mut FileContent, fb: &mut MemFile) -> Comparison {
    let mut iter = a.start();
    loop {
        match a.compare(b, &mut iter) {
            Comparison::Read(request) => {
                let da = if request.a { fa.read_range(request.offset, request.size) } else { None };
                let db = if request.b { fb.read_range(request.offset, request.size) } else { None };
                a.supply(b, &iter, da, db);
            },
            done => return done,
        }
    }
}

fn same(a: &FileContent, b: &FileContent) -> bool {
    let mut iter = a.start();
    a.compare(b, &mut iter) == Comparison::Done(Order::Equal)
}

#[test]
fn hardlink_of_same_file() {
    let mut file = MemFile::new(b"hello");
    let mut link = MemFile::new(b"hello");
    let mut a = key("/hardlinktest/a", &file);
    let mut b = key("/hardlinktest/b", &link);
    assert_eq!(compare(&mut a, &mut file, &mut b, &mut link), Comparison::Done(Order::Equal));
    assert!(same(&b, &b));
}

#[test]
fn different_files() {
    let mut fa = MemFile::new(b"hello");
    let mut fb = MemFile::new(b"world");
    let mut a = key("/basictest/a", &fa);
    let mut b = key("/basictest/b", &fb);
    assert!(same(&a, &a));
    assert!(same(&b, &b));
    let verdict = compare(&mut a, &mut fa, &mut b, &mut fb);
    assert!(matches!(verdict, Comparison::Done(Order::Less) | Comparison::Done(Order::Greater)));
    assert_ne!(verdict, Comparison::Done(Order::Equal));
}

#[test]
fn different_files_big() {
    let mut content = vec![0xffu8; 1400_000];
    let mut fa = MemFile::new(&content);
    content[1388_888] = 1;
    let mut fb = MemFile::new(&content);

    let mut a = key("/difftest/a_big", &fa);
    let mut b = key("/difftest/b_big", &fb);
    let verdict = compare(&mut a, &mut fa, &mut b, &mut fb);
    assert_ne!(verdict, Comparison::Done(Order::Equal));
    assert!(matches!(verdict, Comparison::Done(_)));
    assert!(same(&a, &a));
    assert!(same(&b, &b));

    assert!(fa.read > 1388_888);
    assert_eq!(fa.read, fb.read);
    assert_eq!(fa.read, 4096 + 32768 + 262144 + 1100992);
}

#[test]
fn same_content() {
    let mut fa = MemFile::new(b"hello");
    let mut fb = MemFile::new(b"hello");
    let mut a = key("/sametest/a", &fa);
    let mut b = key("/sametest/b", &fb);
    assert!(same(&a, &a));
    assert!(same(&b, &b));
    assert_eq!(compare(&mut a, &mut fa, &mut b, &mut fb), Comparison::Done(Order::Equal));
    assert_eq!((fa.read, fb.read), (5, 5));
}

#[test]
fn symlink() {
    let mut fa = MemFile::new(b"hello");
    let mut fb = MemFile::new(b"/sametest/a");
    let mut a = key("/sametest/a", &fa);
    let mut b = key("/sametest/b", &fb);
    assert_ne!(compare(&mut a, &mut fa, &mut b, &mut fb), Comparison::Done(Order::Equal));
    assert!(same(&b, &b));
}

#[test]
fn different_sizes_are_told_apart_without_reading() {
    let mut fa = MemFile::new(b"12345");
    let mut fb = MemFile::new(b"123456");
    let mut a = key("/a", &fa);
    let mut b = key("/b", &fb);
    assert_eq!(compare(&mut a, &mut fa, &mut b, &mut fb), Comparison::Done(Order::Less));
    assert_eq!(compare(&mut b, &mut fb, &mut a, &mut fa), Comparison::Done(Order::Greater));
    assert_eq!((fa.read, fb.read), (0, 0));
}

#[test]
fn different_devices_are_told_apart_without_reading() {
    let mut fa = MemFile::new(b"hello");
    let mut fb = MemFile::new(b"hello");
    let mut a = FileContent::new("/a".to_string(), Metadata { dev: 2, size: 5 });
    let mut b = FileContent::new("/b".to_string(), Metadata { dev: 1, size: 5 });
    assert_eq!(compare(&mut a, &mut fa, &mut b, &mut fb), Comparison::Done(Order::Greater));
    assert_eq!((fa.read, fb.read), (0, 0));
}

#[test]
fn comparing_again_reads_nothing_more() {
    let data = vec![3u8; 100_000];
    let mut fa = MemFile::new(&data);
    let mut fb = MemFile::new(&data);
    let mut fc = MemFile::new(&data);
    let mut a = key("/a", &fa);
    let mut b = key("/b", &fb);
    let mut c = key("/c", &fc);
    assert_eq!(compare(&mut a, &mut fa, &mut b, &mut fb), Comparison::Done(Order::Equal));
    assert_eq!((fa.read, fb.read), (100_000, 100_000));
    assert_eq!(compare(&mut a, &mut fa, &mut b, &mut fb), Comparison::Done(Order::Equal));
    assert_eq!(compare(&mut b, &mut fb, &mut a, &mut fa), Comparison::Done(Order::Equal));
    assert_eq!((fa.read, fb.read), (100_000, 100_000));
    assert_eq!(compare(&mut a, &mut fa, &mut c, &mut fc), Comparison::Done(Order::Equal));
    assert_eq!((fa.read, fc.read), (100_000, 100_000));
}

#[test]
fn failed_read_keeps_files_apart() {
    let mut fa = MemFile::new(b"hello");
    let mut fb = MemFile::new(b"hello");
    fb.broken = true;
    let mut a = key("/a", &fa);
    let mut b = key("/b", &fb);
    assert_eq!(compare(&mut a, &mut fa, &mut b, &mut fb), Comparison::Failed);
    fb.broken = false;
    assert_eq!(compare(&mut a, &mut fa, &mut b, &mut fb), Comparison::Failed);
    let mut fc = MemFile::new(b"hello");
    let mut c = key("/c", &fc);
    assert_eq!(compare(&mut a, &mut fa, &mut c, &mut fc), Comparison::Done(Order::Equal));
}

#[test]
fn short_read_poisons_the_slot() {
    let mut fa = MemFile::new(b"hello");
    let mut fb = MemFile::new(b"hello");
    let mut a = key("/a", &fa);
    let mut b = key("/b", &fb);
    let mut iter = a.start();
    let request = match a.compare(&b, &mut iter) {
        Comparison::Read(request) => request,
        other => panic!("{:?}", other),
    };
    assert_eq!((request.a, request.b, request.offset, request.size), (true, true, 0, 5));
    a.supply(&mut b, &iter, fa.read_range(0, 5), fb.read_range(0, 4));
    assert_eq!(a.compare(&b, &mut iter), Comparison::Failed);
}

#[test]
fn range_sha() {
    let hashed = HashedRange::from_data(b"aaa\n");
    assert_eq!(4, hashed.size);
    assert_eq!(
        [199, 31, 32, 178, 46, 189, 89, 221, 26, 72, 162, 140, 182, 69, 43, 154, 40, 195, 32, 163],
        hashed.hash
    );

    let hashed = HashedRange::from_data(&b"aaa\n"[1..3]);
    assert_eq!(2, hashed.size);
    assert_ne!(
        [199, 31, 32, 178, 46, 189, 89, 221, 26, 72, 162, 140, 182, 69, 43, 154, 40, 195, 32, 163],
        hashed.hash
    );
}

#[test]
fn windows_grow_eightfold_up_to_the_cap() {
    let size: u64 = 700 * 1024 * 1024;
    let a = FileContent::new("/a".to_string(), Metadata { dev: 1, size });
    let b = FileContent::new("/b".to_string(), Metadata { dev: 1, size });
    let mut iter = a.start();
    let first = match a.compare(&b, &mut iter) {
        Comparison::Read(request) => request,
        other => panic!("{:?}", other),
    };
    assert_eq!((first.offset, first.size), (0, 4096));
}

#[test]
fn digests_made_side_by_side_match_those_made_alone() {
    let mut fa = MemFile::new(b"hello");
    let mut fb = MemFile::new(b"world");
    let mut a = key("/a", &fa);
    let mut b = key("/b", &fb);
    assert_ne!(compare(&mut a, &mut fa, &mut b, &mut fb), Comparison::Done(Order::Equal));

    let mut fc = MemFile::new(b"hello");
    let mut c = key("/c", &fc);
    assert_eq!(compare(&mut a, &mut fa, &mut c, &mut fc), Comparison::Done(Order::Equal));
    assert_eq!((fa.read, fc.read), (5, 5));

    let mut fd = MemFile::new(b"world");
    let mut d = key("/d", &fd);
    assert_eq!(compare(&mut d, &mut fd, &mut b, &mut fb), Comparison::Done(Order::Equal));
    assert_ne!(compare(&mut d, &mut fd, &mut a, &mut fa), Comparison::Done(Order::Equal));
    assert_eq!((fb.read, fd.read), (5, 5));

    let alone = HashedRange::from_data(b"hello");
    let other = HashedRange::from_data(b"world");
    assert_eq!(alone.compare(&HashedRange::from_data(b"hello")), Order::Equal);
    assert_ne!(alone.compare(&other), Order::Equal);
    assert_ne!(alone.hash, *b"hello\0\0\0\0\0\0\0\0\0\0\0\0\0\0\0");
}
