use flate2::read::GzDecoder;
use rotating_file::{
    Command, Counters, Directive, OpenError, Outcome, Recovery, Request, Resumed, RotatingFile,
    Rotation, RotationMode, COMPRESS_CHUNK, SCAN_CHUNK,
};
use std::collections::BTreeMap;
use std::io::Read;

/// The handle of an open file on the disk below: its path.
type Handle = String;

/// A file system in memory, and the driver of the two state machines on it.
struct Disk {
    files: BTreeMap<String, Vec<u8>>,
    /// The clock: the timestamp of the n-th rotation.
    rotations: usize,
    /// The step at which rotations fail, if any.
    fail_at: Option<&'static str>,
    /// The most bytes that one write accepts.
    accept: usize,
    /// Every command that rotations were given, in order.
    log: Vec<&'static str>,
    /// The size of every chunk that rotations read, in order.
    reads: Vec<usize>,
    /// The read of the recovery scan that fails, if any.
    fail_scan_at: Option<usize>,
    /// The handle of the file that a rotation has opened afresh.
    opened: Option<Handle>,
}


fn name(command: &Command) -> &'static str {
    match command {
        Command::Sync => "sync",
        Command::Rename { .. } => "rename",
        Command::OpenArchive(_) => "open archive",
        Command::CreateCompressed(_) => "create compressed",
        Command::Read => "read",
        Command::Append(_) => "append",
        Command::Remove(_) => "remove",
        Command::Reopen(_) => "reopen",
        Command::Complete => "complete",
        Command::Abort => "abort",
    }
}

impl Disk {
    fn new() -> Disk {
        Disk {
            files: BTreeMap::new(),
            rotations: 0,
            fail_at: None,
            accept: usize::MAX,
            log: Vec::new(),
            reads: Vec::new(),
            fail_scan_at: None,
            opened: None,
        }
    }

    fn stamp(&self) -> String {
        format!("-2024-01-02_03-04-{:02}", self.rotations)
    }

    fn open(&mut self, path: &str, mode: RotationMode) -> Result<RotatingFile<Handle>, OpenError> {
        let recovered = match self.files.get(path) {
            Some(content) => {
                let mut scan = Recovery::begin();
                let mut offset = 0;
                let mut reads = 0;
                let mut buf = [0u8; SCAN_CHUNK];
                loop {
                    let read = if self.fail_scan_at == Some(reads) {
                        None
                    } else {
                        let n = (content.len() - offset).min(SCAN_CHUNK);
                        buf[..n].copy_from_slice(&content[offset..offset + n]);
                        offset += n;
                        Some(n)
                    };
                    reads += 1;
                    if !scan.absorb(&buf, read) {
                        break scan;
                    }
                }
            }
            None => Recovery::missing(),
        };
        let writer = RotatingFile::new(path, mode, recovered, path.to_string())?;
        self.files.entry(path.to_string()).or_default();
        Ok(writer)
    }

    fn rotate(&mut self, mut plan: Rotation, file: Handle) -> Option<Handle> {
        assert_eq!(file, plan.path());
        let stamp = self.stamp();
        self.rotations += 1;
        let mut archive = String::new();
        let mut compressed = String::new();
        let mut offset = 0;
        let mut chunk: Vec<u8> = Vec::new();
        let mut command = plan.command().unwrap();
        loop {
            self.log.push(name(&command));
            if self.fail_at == Some(name(&command)) {
                command = plan.advance_at(Outcome::Failed, &stamp);
                continue;
            }
            let outcome = match command {
                Command::Sync => Outcome::Done,
                Command::Rename { from, to } => {
                    let content = self.files.remove(&from).unwrap();
                    self.files.insert(to, content);
                    Outcome::Done
                }
                Command::OpenArchive(name) => {
                    assert!(self.files.contains_key(&name));
                    archive = name;
                    offset = 0;
                    Outcome::Done
                }
                Command::CreateCompressed(name) => {
                    self.files.insert(name.clone(), Vec::new());
                    compressed = name;
                    Outcome::Done
                }
                Command::Read => {
                    let content = &self.files[&archive];
                    let n = (content.len() - offset).min(COMPRESS_CHUNK);
                    chunk = content[offset..offset + n].to_vec();
                    offset += n;
                    self.reads.push(n);
                    Outcome::Read(&chunk)
                }
                Command::Append(packed) => {
                    self.files.get_mut(&compressed).unwrap().extend(packed);
                    Outcome::Done
                }
                Command::Remove(name) => {
                    self.files.remove(&name).unwrap();
                    Outcome::Done
                }
                Command::Reopen(name) => {
                    self.files.insert(name.clone(), Vec::new());
                    self.opened = Some(name);
                    Outcome::Done
                }
                Command::Complete => return self.opened.take(),
                Command::Abort => return None,
            };
            command = plan.advance_at(outcome, &stamp);
        }
    }

    /// One write request, serviced to its end.
    fn write(&mut self, writer: &mut RotatingFile<Handle>, buf: &[u8]) -> Result<usize, ()> {
        loop {
            match writer.poll(Request::Write) {
                Directive::Write => {
                    let path = writer.file_mut().unwrap().clone();
                    let n = buf.len().min(self.accept);
                    self.files.get_mut(&path).unwrap().extend_from_slice(&buf[..n]);
                    writer.written(buf, n);
                    return Ok(n);
                }
                Directive::Rotate(plan, file) => {
                    let fresh = self.rotate(plan, file);
                    match writer.rotation_resolved(Request::Write, fresh) {
                        Resumed::Retry => {}
                        Resumed::Failed => return Err(()),
                        Resumed::Succeeded => panic!("a write has not succeeded by waiting"),
                    }
                }
                Directive::Fail => return Err(()),
                _ => panic!("not an answer to a write on this disk"),
            }
        }
    }

    /// Writes all of `buf`, in as many requests as it takes.
    fn write_all(&mut self, writer: &mut RotatingFile<Handle>, buf: &[u8]) -> Result<(), ()> {
        let mut rest = buf;
        while !rest.is_empty() {
            let n = self.write(writer, rest)?;
            rest = &rest[n..];
        }
        Ok(())
    }

    fn flush(&mut self, writer: &mut RotatingFile<Handle>) -> Result<(), ()> {
        match writer.poll(Request::Flush) {
            Directive::Flush => Ok(()),
            Directive::Fail => Err(()),
            _ => panic!("not an answer to a flush on this disk"),
        }
    }

    fn names(&self) -> Vec<&str> {
        self.files.keys().map(|k| k.as_str()).collect()
    }

    /// The archives, unpacked, in the order of their rotation.
    fn unpacked(&self) -> Vec<Vec<u8>> {
        let mut all = Vec::new();
        for (name, packed) in &self.files {
            if name.ends_with(".gz") {
                let mut plain = Vec::new();
                GzDecoder::new(&packed[..]).read_to_end(&mut plain).unwrap();
                all.push(plain);
            }
        }
        all
    }
}

#[test]
fn basic_lines() {
    let mut disk = Disk::new();
    let mut file = disk.open("./out/testfile1.log", RotationMode::Lines(1)).unwrap();
    disk.write_all(&mut file, b"1\n2\n3\n").unwrap();
    assert_eq!(disk.rotations, 0);
    assert_eq!(file.counters(), Some(Counters { lines: 3, bytes: 6 }));
    disk.write_all(&mut file, b"1\n2\n3\n").unwrap();
    disk.flush(&mut file).unwrap();

    assert_eq!(disk.rotations, 1);
    assert_eq!(
        disk.names(),
        vec!["./out/testfile1-2024-01-02_03-04-00.log.gz", "./out/testfile1.log"]
    );
    assert_eq!(disk.unpacked(), vec![b"1\n2\n3\n".to_vec()]);
    assert_eq!(disk.files["./out/testfile1.log"], b"1\n2\n3\n");
    assert_eq!(file.counters(), Some(Counters { lines: 3, bytes: 6 }));
}

#[test]
fn basic_bytes() {
    let mut disk = Disk::new();
    let mut file = disk.open("./out1/testfile.log", RotationMode::Bytes(2)).unwrap();
    disk.write_all(&mut file, b"112233").unwrap();
    assert_eq!(disk.rotations, 0);
    assert_eq!(disk.files["./out1/testfile.log"], b"112233");
    disk.write_all(&mut file, b"112233").unwrap();
    disk.flush(&mut file).unwrap();

    assert_eq!(disk.rotations, 1);
    assert_eq!(
        disk.names(),
        vec!["./out1/testfile-2024-01-02_03-04-00.log.gz", "./out1/testfile.log"]
    );
    assert_eq!(disk.unpacked(), vec![b"112233".to_vec()]);
    assert_eq!(disk.files["./out1/testfile.log"], b"112233");
    assert_eq!(file.counters(), Some(Counters { lines: 0, bytes: 6 }));
}

fn is_send<T: Send>(_: &T) -> bool {
    true
}

#[test]
fn send() {
    let mut disk = Disk::new();
    let mut file = disk.open("./out1/testfile.log", RotationMode::Bytes(2)).unwrap();
    assert!(is_send(&file));
    assert!(is_send(&Rotation::begin("./out1/testfile.log")));
    let mut buf: Vec<u8> = Vec::with_capacity(500);
    buf.extend_from_slice(b"112233");
    buf.extend_from_slice(b"112233");
    disk.write_all(&mut file, &buf).unwrap();
    disk.flush(&mut file).unwrap();
    assert_eq!(disk.rotations, 0);
    assert_eq!(disk.files["./out1/testfile.log"], b"112233112233");
}

#[test]
fn writes_below_the_threshold_stay_in_one_file() {
    let mut disk = Disk::new();
    let mut file = disk.open("app.log", RotationMode::Lines(4)).unwrap();
    let writes: [&[u8]; 5] = [b"one\n", b"", b"two", b"\nthree", b"\nfour"];
    let mut all = Vec::new();
    for w in writes {
        disk.write_all(&mut file, w).unwrap();
        all.extend_from_slice(w);
    }
    assert_eq!(disk.rotations, 0);
    assert_eq!(disk.names(), vec!["app.log"]);
    assert_eq!(disk.files["app.log"], all);
    assert_eq!(file.counters(), Some(Counters { lines: 3, bytes: 18 }));
}

#[test]
fn each_crossing_is_followed_by_one_rotation() {
    let mut disk = Disk::new();
    let mut file = disk.open("app.log", RotationMode::Bytes(5)).unwrap();
    // After each write: how many rotations there have been, and what the
    // active file holds.
    let script: [(&[u8], usize, &[u8]); 7] = [
        (b"ab", 0, b"ab"),
        (b"cd", 0, b"abcd"),
        (b"ef", 0, b"abcdef"),
        (b"gh", 1, b"gh"),
        (b"ijklm", 1, b"ghijklm"),
        (b"nopqrs", 2, b"nopqrs"),
        (b"t", 3, b"t"),
    ];
    for (w, rotations, active) in script {
        disk.write_all(&mut file, w).unwrap();
        assert_eq!(disk.rotations, rotations);
        assert_eq!(disk.files["app.log"], active);
        assert_eq!(file.counters(), Some(Counters { lines: 0, bytes: active.len() }));
    }
    assert_eq!(
        disk.unpacked(),
        vec![b"abcdef".to_vec(), b"ghijklm".to_vec(), b"nopqrs".to_vec()]
    );
    assert_eq!(
        disk.names(),
        vec![
            "app-2024-01-02_03-04-00.log.gz",
            "app-2024-01-02_03-04-01.log.gz",
            "app-2024-01-02_03-04-02.log.gz",
            "app.log"
        ]
    );
}

#[test]
fn no_byte_is_lost_across_rotations() {
    for accept in [1, 3, 7, usize::MAX] {
        let mut disk = Disk::new();
        disk.accept = accept;
        disk.files.insert("app.log".to_string(), b"old\n".to_vec());
        let mut file = disk.open("app.log", RotationMode::Lines(2)).unwrap();
        let mut all = b"old\n".to_vec();
        for i in 0..40u32 {
            let w = format!("line {}\n{}", i, if i % 3 == 0 { "\n\n" } else { "tail" });
            disk.write_all(&mut file, w.as_bytes()).unwrap();
            all.extend_from_slice(w.as_bytes());
        }
        assert!(disk.rotations > 1);
        let mut on_disk: Vec<u8> = disk.unpacked().concat();
        on_disk.extend_from_slice(&disk.files["app.log"]);
        assert_eq!(on_disk, all);
        assert_eq!(disk.unpacked().len(), disk.rotations);
        assert_eq!(disk.files.len(), disk.rotations + 1);
    }
}

#[test]
fn a_large_file_is_compressed_in_chunks() {
    let mut disk = Disk::new();
    let mut file = disk.open("big.log", RotationMode::Bytes(10_000)).unwrap();
    let content: Vec<u8> = (0..10_000u32).map(|i| (i % 251) as u8).collect();
    disk.write_all(&mut file, &content).unwrap();
    disk.write_all(&mut file, b"next").unwrap();
    assert_eq!(
        disk.log,
        vec![
            "sync",
            "rename",
            "open archive",
            "create compressed",
            "read",
            "append",
            "read",
            "append",
            "read",
            "append",
            "read",
            "append",
            "remove",
            "reopen",
            "complete",
        ]
    );
    assert_eq!(disk.reads, vec![4096, 4096, 1808, 0]);
    assert_eq!(disk.unpacked(), vec![content]);
    assert_eq!(disk.files["big.log"], b"next");
}

#[test]
fn recovery_counts_what_the_file_holds() {
    let mut disk = Disk::new();
    let mut existing = Vec::new();
    for i in 0..700u32 {
        existing.extend_from_slice(format!("{}\n", i).as_bytes());
    }
    assert!(existing.len() > 2 * SCAN_CHUNK);
    disk.files.insert("app.log".to_string(), existing.clone());
    let file = disk.open("app.log", RotationMode::Lines(1000)).unwrap();
    assert_eq!(file.counters(), Some(Counters { lines: 700, bytes: existing.len() }));
    assert_eq!(disk.files["app.log"], existing);
}

#[test]
fn recovered_counts_and_a_write_cross_the_threshold_together() {
    let mut disk = Disk::new();
    disk.files.insert("app.log".to_string(), b"a\nb\n".to_vec());
    let mut file = disk.open("app.log", RotationMode::Lines(3)).unwrap();
    assert_eq!(file.counters(), Some(Counters { lines: 2, bytes: 4 }));
    // One line alone is below the threshold; with the two before it is not.
    disk.write_all(&mut file, b"c\n").unwrap();
    assert_eq!(disk.rotations, 0);
    assert_eq!(file.counters(), Some(Counters { lines: 3, bytes: 6 }));
    assert!(matches!(file.poll(Request::Write), Directive::Rotate(_, _)));

    // From an empty file the same write does not cross.
    let mut disk = Disk::new();
    let mut file = disk.open("app.log", RotationMode::Lines(3)).unwrap();
    disk.write_all(&mut file, b"c\n").unwrap();
    assert!(matches!(file.poll(Request::Write), Directive::Write));
}

#[test]
fn a_file_over_its_threshold_is_rotated_at_the_first_write() {
    let mut disk = Disk::new();
    disk.files.insert("app.log".to_string(), b"0123456789".to_vec());
    let mut file = disk.open("app.log", RotationMode::Bytes(8)).unwrap();
    disk.write_all(&mut file, b"x").unwrap();
    assert_eq!(disk.rotations, 1);
    assert_eq!(disk.unpacked(), vec![b"0123456789".to_vec()]);
    assert_eq!(disk.files["app.log"], b"x");
}

#[test]
fn a_rotation_that_fails_fails_the_write_and_the_writer() {
    let steps = [
        "sync",
        "rename",
        "open archive",
        "create compressed",
        "read",
        "append",
        "remove",
        "reopen",
    ];
    for step in steps {
        let mut disk = Disk::new();
        let mut file = disk.open("app.log", RotationMode::Bytes(2)).unwrap();
        disk.write_all(&mut file, b"112233").unwrap();
        disk.fail_at = Some(step);
        assert_eq!(disk.write(&mut file, b"445566"), Err(()));
        assert!(file.has_failed());
        assert_eq!(*disk.log.last().unwrap(), "abort");
        assert_eq!(disk.log[disk.log.len() - 2], step);
        assert!(!disk.log.contains(&"complete"));

        // The bytes of the rotated file are still there, packed or not.
        let renamed = step != "sync" && step != "rename";
        let removed = step == "reopen";
        assert_eq!(disk.files.contains_key("app-2024-01-02_03-04-00.log"), renamed && !removed);
        if !renamed {
            assert_eq!(disk.files["app.log"], b"112233");
        } else if removed {
            assert_eq!(disk.unpacked(), vec![b"112233".to_vec()]);
        } else {
            assert_eq!(disk.files["app-2024-01-02_03-04-00.log"], b"112233");
            // Its removal is not even tried before the compressed archive
            // is whole.
            assert_eq!(disk.log.contains(&"remove"), step == "remove");
        }

        // Nothing is written after the failure.
        disk.fail_at = None;
        assert_eq!(disk.write(&mut file, b"445566"), Err(()));
        assert_eq!(disk.flush(&mut file), Err(()));
        assert_eq!(disk.rotations, 1);
    }
}

#[test]
fn open_fails_on_the_path_of_a_directory() {
    let mut disk = Disk::new();
    assert!(matches!(disk.open(".", RotationMode::Lines(1)), Err(OpenError::NotAFile)));
    assert!(matches!(disk.open("./out1", RotationMode::Lines(1)), Err(OpenError::NotAFile)));
    assert!(matches!(disk.open("./out1/", RotationMode::Lines(1)), Err(OpenError::NotAFile)));
    assert!(disk.files.is_empty());
}

#[test]
fn a_failed_read_of_the_recovery_scan_fails_the_opening() {
    let mut existing = Vec::new();
    for i in 0..700u32 {
        existing.extend_from_slice(format!("{}\n", i).as_bytes());
    }
    for failing in 0..4 {
        let mut disk = Disk::new();
        disk.files.insert("app.log".to_string(), existing.clone());
        disk.fail_scan_at = Some(failing);
        let opened = disk.open("app.log", RotationMode::Lines(1000));
        assert!(matches!(opened, Err(OpenError::ScanFailed)));
        assert_eq!(disk.files["app.log"], existing);
    }
    // The scan ends with its fourth read, which finds the end of the file.
    let mut disk = Disk::new();
    disk.files.insert("app.log".to_string(), existing.clone());
    disk.fail_scan_at = Some(4);
    let file = disk.open("app.log", RotationMode::Lines(1000)).unwrap();
    assert_eq!(file.counters(), Some(Counters { lines: 700, bytes: existing.len() }));
}
