use sendmatrix::argv::Argv;
use sendmatrix::config::{Config, EnvValue};
use sendmatrix::error::{IoFailure, IpcError};
use sendmatrix::ident::{format_id, uuidgen};
use sendmatrix::kind::MessageKind;
use sendmatrix::matrix::Matrix;
use sendmatrix::message::Message;
use sendmatrix::names::{classify, eq_ignore_ascii_case, join_path};
use sendmatrix::publish::{Ipc, Publish, PublishAction, PublishEvent};
use sendmatrix::server::{DirEntry, IpcServer};
use std::collections::BTreeMap;

const DIR: &str = "/mb";

/// An in-memory directory tree: file paths to contents.
#[derive(Default)]
struct Disk {
    files: BTreeMap<String, Vec<u8>>,
    stdin: Vec<u8>,
    fail_link: bool,
}

impl Disk {
    fn names(&self) -> Vec<String> {
        let prefix = format!("{DIR}/");
        self.files.keys().filter_map(|k| k.strip_prefix(&prefix).map(|n| n.to_string())).collect()
    }

    fn listing(&self) -> Vec<DirEntry> {
        self.names().into_iter().map(|n| DirEntry { name: Some(n), is_file: true }).collect()
    }

    fn run(&mut self, mut p: Publish) -> Result<Vec<String>, IpcError> {
        let mut log = Vec::new();
        loop {
            let event = match p.next_action() {
                PublishAction::ReadInput => {
                    log.push("read".to_string());
                    PublishEvent::Input(self.stdin.clone())
                }
                PublishAction::WriteTemp { path, data } => {
                    log.push(format!("write {path}"));
                    self.files.insert(path, data);
                    PublishEvent::Done
                }
                PublishAction::CopyToTemp { source, path } => {
                    log.push(format!("copy {source} {path}"));
                    match self.files.get(&source).cloned() {
                        Some(d) => {
                            self.files.insert(path, d);
                            PublishEvent::Done
                        }
                        None => PublishEvent::Failed(IoFailure::NotFound),
                    }
                }
                PublishAction::Link { from, to } => {
                    log.push(format!("link {from} {to}"));
                    if self.fail_link || self.files.contains_key(&to) {
                        PublishEvent::Failed(IoFailure::AlreadyExists)
                    } else {
                        let d = self.files[&from].clone();
                        self.files.insert(to, d);
                        PublishEvent::Done
                    }
                }
                PublishAction::RemoveTemp { path } => {
                    log.push(format!("remove {path}"));
                    self.files.remove(&path);
                    PublishEvent::Done
                }
                PublishAction::Finished => return Ok(log),
                PublishAction::Abort(e) => return Err(e),
            };
            p.advance(event);
        }
    }

    /// One `next_message` of the consumer, the cache assumed to be filled.
    fn next(&self, server: &mut IpcServer) -> Result<Message, IpcError> {
        let listing = if server.needs_scan() { self.listing() } else { Vec::new() };
        assert!(server.has_message(&listing));
        let path = server.current_path().unwrap();
        let data = self.files[&path].clone();
        let n = server.check_size(data.len() as u64)?;
        assert_eq!(n, data.len());
        server.next_message(data)
    }

    fn complete(&mut self, server: &mut IpcServer) -> Result<(), IpcError> {
        let path = server.current_path().ok_or(IpcError::NotFound)?;
        self.files.remove(&path);
        server.complete_message()
    }
}

fn config() -> Config {
    Config { IPC_PATH: DIR.to_string(), MATRIX_PATH: "/bin/mc".to_string() }
}

fn server() -> IpcServer {
    IpcServer::new(&config(), &Vec::new())
}

fn args(list: &[&str]) -> Vec<String> {
    std::iter::once("sendmatrix").chain(list.iter().copied()).map(String::from).collect()
}

fn text_of(m: &Message) -> (MessageKind, Vec<u8>) {
    match m {
        Message::Plaintext { text } => (MessageKind::Plaintext, text.clone()),
        Message::Markdown { markdown } => (MessageKind::Markdown, markdown.clone()),
        Message::Raw { contents, .. } => (MessageKind::Raw, contents.clone()),
    }
}

#[test]
fn kind_names_parse() {
    assert_eq!(MessageKind::try_from("plaintext".to_string()), Ok(MessageKind::Plaintext));
    assert_eq!(MessageKind::try_from("text".to_string()), Ok(MessageKind::Plaintext));
    assert_eq!(MessageKind::try_from("markdown".to_string()), Ok(MessageKind::Markdown));
    assert_eq!(MessageKind::try_from("raw".to_string()), Ok(MessageKind::Raw));
    assert_eq!(MessageKind::try_from("Raw".to_string()), Err(IpcError::InvalidInput));
    assert_eq!(MessageKind::try_from(String::new()), Err(IpcError::InvalidInput));
}

#[test]
fn argv_defaults() {
    let a = Argv::load(args(&[])).unwrap();
    assert_eq!(a.ipc_path, "/var/run/sendmatrix");
    assert_eq!(a.kind, MessageKind::Plaintext);
    assert_eq!(a.payload, "-");
    let a = Argv::load(Vec::new()).unwrap();
    assert_eq!(a.payload, "-");
}

#[test]
fn argv_values() {
    let a = Argv::load(args(&["--type=raw", "--payload=a=b", "--ipc-path=/tmp/x"])).unwrap();
    assert_eq!(a.ipc_path, "/tmp/x");
    assert_eq!(a.kind, MessageKind::Raw);
    assert_eq!(a.payload, "a=b");
    let a = Argv::load(args(&["--payload="])).unwrap();
    assert_eq!(a.payload, "");
}

#[test]
fn argv_rejects_malformed() {
    for bad in [
        &["--payload"][..],
        &["payload=x"][..],
        &["-payload=x"][..],
        &["--size=3"][..],
        &["--type=x"][..],
        &["--payload=a", "--payload=b"][..],
    ] {
        assert!(matches!(Argv::load(args(bad)), Err(IpcError::InvalidInput)), "{bad:?}");
    }
}

#[test]
fn config_from_env() {
    let c = Config::from_env(EnvValue::NotPresent, EnvValue::Present("/opt/mc".to_string())).unwrap();
    assert_eq!(c.IPC_PATH, "/var/run/sendmatrix");
    assert_eq!(c.MATRIX_PATH, "/opt/mc");
    let c = Config::from_env(EnvValue::Present("/x".to_string()), EnvValue::NotPresent).unwrap();
    assert_eq!(c.IPC_PATH, "/x");
    assert_eq!(c.MATRIX_PATH, "/usr/bin/matrix-commander-rs");
    assert!(matches!(Config::from_env(EnvValue::NotUnicode, EnvValue::NotPresent), Err(IpcError::EncodingFailure)));
    assert!(matches!(Config::from_env(EnvValue::NotPresent, EnvValue::NotUnicode), Err(IpcError::EncodingFailure)));
    assert!(matches!(Config::get_or(EnvValue::NotUnicode, "d"), Err(IpcError::EncodingFailure)));
    assert_eq!(Config::get_or(EnvValue::NotPresent, "d").unwrap(), "d");
}

#[test]
fn names_classify() {
    assert_eq!(classify("a.txt"), Some(MessageKind::Plaintext));
    assert_eq!(classify("A.TXT"), Some(MessageKind::Plaintext));
    assert_eq!(classify("x.y.MarkDown"), Some(MessageKind::Markdown));
    assert_eq!(classify("photo.jpg.raw"), Some(MessageKind::Raw));
    assert_eq!(classify(".txt"), None);
    assert_eq!(classify("a.tmp"), None);
    assert_eq!(classify("a.txt.tmp"), None);
    assert_eq!(classify("\u{e9}.txt"), None);
    assert_eq!(classify("txt"), None);
    assert_eq!(classify("a."), None);
    assert!(eq_ignore_ascii_case("RaW", "raw"));
    assert!(!eq_ignore_ascii_case("raw", "rawx"));
}

#[test]
fn names_join() {
    assert_eq!(join_path("/mb", "a.txt"), "/mb/a.txt");
    assert_eq!(join_path("/mb/", "a.txt"), "/mb/a.txt");
    assert_eq!(join_path("", "a.txt"), "a.txt");
}

#[test]
fn id_format() {
    let b: [u8; 16] = [0, 1, 2, 3, 4, 5, 6, 7, 8, 9, 10, 11, 12, 13, 0xFE, 0xFF];
    assert_eq!(format_id(&b), "00010203-0405-0607-0809-0A0B0C0DFEFF");
}

#[test]
fn ids_are_fresh() {
    let a = uuidgen().unwrap();
    let b = uuidgen().unwrap();
    assert_ne!(a, b);
}

#[test]
fn text_publish_is_atomic() {
    let id = [0xAB; 16];
    let p = Ipc::sendtext(DIR, MessageKind::Plaintext, &id, "hello".to_string());
    let mut disk = Disk::default();
    let log = disk.run(p).unwrap();
    let stem = "ABABABAB-ABAB-ABAB-ABAB-ABABABABABAB";
    assert_eq!(
        log,
        vec![
            format!("write {DIR}/{stem}.tmp"),
            format!("link {DIR}/{stem}.tmp {DIR}/{stem}.txt"),
            format!("remove {DIR}/{stem}.tmp"),
        ]
    );
    assert_eq!(disk.names(), vec![format!("{stem}.txt")]);
    assert_eq!(disk.files[&format!("{DIR}/{stem}.txt")], b"hello".to_vec());
}

#[test]
fn markdown_publish_names() {
    let p = Ipc::sendtext(DIR, MessageKind::Markdown, &[0; 16], "*x*".to_string());
    let mut disk = Disk::default();
    disk.run(p).unwrap();
    assert_eq!(disk.names(), vec!["00000000-0000-0000-0000-000000000000.markdown".to_string()]);
}

#[test]
fn stdin_payload() {
    let p = Ipc::sendtext(DIR, MessageKind::Plaintext, &[1; 16], "-".to_string());
    let mut disk = Disk { stdin: "gr\u{fc}\u{df}e".as_bytes().to_vec(), ..Disk::default() };
    let log = disk.run(p).unwrap();
    assert_eq!(log[0], "read");
    let mut s = server();
    let m = disk.next(&mut s).unwrap();
    assert_eq!(text_of(&m), (MessageKind::Plaintext, "gr\u{fc}\u{df}e".as_bytes().to_vec()));
}

#[test]
fn stdin_not_utf8() {
    let p = Ipc::sendtext(DIR, MessageKind::Plaintext, &[1; 16], "-".to_string());
    let mut disk = Disk { stdin: vec![b'a', 0xFF, b'b'], ..Disk::default() };
    assert_eq!(disk.run(p), Err(IpcError::EncodingFailure));
    assert!(disk.names().is_empty());
}

#[test]
fn link_conflict() {
    let p = Ipc::sendtext(DIR, MessageKind::Plaintext, &[2; 16], "x".to_string());
    let mut disk = Disk { fail_link: true, ..Disk::default() };
    assert_eq!(disk.run(p), Err(IpcError::Conflict));
    assert!(disk.names().is_empty());
}

#[test]
fn raw_conflict_keeps_existing_entry() {
    let mut disk = Disk::default();
    disk.files.insert("/src/photo.jpg".to_string(), vec![1, 2, 3]);
    disk.files.insert(format!("{DIR}/photo.jpg.raw"), vec![9]);
    let p = Ipc::send(DIR, MessageKind::Raw, "/src/photo.jpg".to_string()).unwrap();
    let log = disk.run(p);
    assert_eq!(log, Err(IpcError::Conflict));
    assert_eq!(disk.names(), vec!["photo.jpg.raw".to_string()]);
    assert_eq!(disk.files[&format!("{DIR}/photo.jpg.raw")], vec![9]);
}

#[test]
fn failed_write_discards_temp() {
    let mut p = Ipc::sendtext(DIR, MessageKind::Markdown, &[3; 16], "x".to_string());
    assert!(matches!(p.next_action(), PublishAction::WriteTemp { .. }));
    p.advance(PublishEvent::Failed(IoFailure::Other));
    assert!(!p.is_finished());
    match p.next_action() {
        PublishAction::RemoveTemp { path } => {
            assert_eq!(path, "/mb/03030303-0303-0303-0303-030303030303.tmp")
        }
        other => panic!("{other:?}"),
    }
    p.advance(PublishEvent::Failed(IoFailure::NotFound));
    assert!(matches!(p.next_action(), PublishAction::Abort(IpcError::IoFailure)));
}

#[test]
fn failed_final_remove_is_surfaced() {
    let mut p = Ipc::sendtext(DIR, MessageKind::Plaintext, &[4; 16], "x".to_string());
    p.advance(PublishEvent::Done);
    p.advance(PublishEvent::Done);
    assert!(matches!(p.next_action(), PublishAction::RemoveTemp { .. }));
    p.advance(PublishEvent::Failed(IoFailure::Other));
    assert!(matches!(p.next_action(), PublishAction::Abort(IpcError::IoFailure)));
}

#[test]
fn failure_after_finish_is_ignored() {
    let mut p = Ipc::sendtext(DIR, MessageKind::Plaintext, &[2; 16], "-".to_string());
    p.advance(PublishEvent::Failed(IoFailure::Other));
    assert!(p.is_finished());
    assert!(matches!(p.next_action(), PublishAction::Abort(IpcError::IoFailure)));
    p.advance(PublishEvent::Done);
    assert!(matches!(p.next_action(), PublishAction::Abort(IpcError::IoFailure)));
}

#[test]
fn raw_end_to_end() {
    let mut disk = Disk::default();
    disk.files.insert("/home/u/photo.jpg".to_string(), (0u8..10).collect());
    let p = Ipc::send(DIR, MessageKind::Raw, "/home/u/photo.jpg".to_string()).unwrap();
    disk.run(p).unwrap();
    assert_eq!(disk.names(), vec!["photo.jpg.raw".to_string()]);
    assert_eq!(disk.files[&format!("{DIR}/photo.jpg.raw")].len(), 10);
    let mut s = server();
    match disk.next(&mut s).unwrap() {
        Message::Raw { name, contents } => {
            assert_eq!(name, "photo.jpg");
            assert_eq!(contents, (0u8..10).collect::<Vec<u8>>());
        }
        other => panic!("{other:?}"),
    }
    disk.complete(&mut s).unwrap();
    assert!(disk.names().is_empty());
}

#[test]
fn raw_rejects_bad_names() {
    assert!(matches!(Ipc::sendraw(DIR, "/home/\u{e9}t\u{e9}.jpg".to_string()), Err(IpcError::InvalidInput)));
    assert!(matches!(Ipc::sendraw(DIR, "/home/..".to_string()), Err(IpcError::InvalidInput)));
    assert!(matches!(Ipc::sendraw(DIR, "/".to_string()), Err(IpcError::InvalidInput)));
}

#[test]
fn raw_name_forms() {
    let mut disk = Disk::default();
    for (path, stored) in [("/x/photo.jpg/.", "photo.jpg"), ("/x/y//", "y"), ("./a/./b.bin", "b.bin"), ("c", "c")] {
        disk.files.insert(path.to_string(), vec![1]);
        disk.run(Ipc::sendraw(DIR, path.to_string()).unwrap()).unwrap();
        assert!(disk.files.contains_key(&format!("{DIR}/{stored}.raw")), "{path}");
    }
    for bad in [".", "./", "..", "a/..", ""] {
        assert!(matches!(Ipc::sendraw(DIR, bad.to_string()), Err(IpcError::InvalidInput)), "{bad}");
    }
}

#[test]
fn raw_missing_source() {
    let p = Ipc::sendraw(DIR, "nothing.bin".to_string()).unwrap();
    let mut disk = Disk::default();
    assert_eq!(disk.run(p), Err(IpcError::NotFound));
}

#[test]
fn round_trip_all_kinds() {
    for (kind, payload) in [
        (MessageKind::Plaintext, String::new()),
        (MessageKind::Markdown, "# x".to_string()),
        (MessageKind::Plaintext, "a".repeat(4096)),
    ] {
        let mut disk = Disk::default();
        let p = Ipc::send(DIR, kind, payload.clone()).unwrap();
        disk.run(p).unwrap();
        let mut s = server();
        let m = disk.next(&mut s).unwrap();
        assert_eq!(text_of(&m), (kind, payload.into_bytes()));
    }
    let mut disk = Disk::default();
    disk.files.insert("/src/big".to_string(), vec![7; 2 * 1024 * 1024]);
    disk.run(Ipc::send(DIR, MessageKind::Raw, "/src/big".to_string()).unwrap()).unwrap();
    let m = disk.next(&mut server()).unwrap();
    assert_eq!(text_of(&m), (MessageKind::Raw, vec![7; 2 * 1024 * 1024]));
}

#[test]
fn oversized_entry_stalls() {
    let mut disk = Disk::default();
    disk.run(Ipc::send(DIR, MessageKind::Plaintext, "a".repeat(4097)).unwrap()).unwrap();
    let mut s = server();
    assert!(matches!(disk.next(&mut s), Err(IpcError::ResourceExceeded)));
    let first = s.current_path();
    assert!(matches!(disk.next(&mut s), Err(IpcError::ResourceExceeded)));
    assert_eq!(s.current_path(), first);
    assert!(matches!(s.next_message(vec![0; 4097]), Err(IpcError::ResourceExceeded)));
}

#[test]
fn oversized_raw() {
    let mut disk = Disk::default();
    disk.files.insert("/src/big".to_string(), vec![7; 2 * 1024 * 1024 + 1]);
    disk.run(Ipc::send(DIR, MessageKind::Raw, "/src/big".to_string()).unwrap()).unwrap();
    assert!(matches!(disk.next(&mut server()), Err(IpcError::ResourceExceeded)));
}

#[test]
fn complete_exactly_once() {
    let mut disk = Disk::default();
    for n in ["a.txt", "b.txt", "c.markdown"] {
        disk.files.insert(format!("{DIR}/{n}"), n.as_bytes().to_vec());
    }
    let mut s = server();
    disk.next(&mut s).unwrap();
    assert_eq!(s.backlog_len(), 3);
    disk.complete(&mut s).unwrap();
    assert!(!disk.files.contains_key(&format!("{DIR}/a.txt")));
    assert_eq!(s.backlog_len(), 2);
    assert_eq!(s.current_path(), Some(format!("{DIR}/b.txt")));
    disk.complete(&mut s).unwrap();
    disk.complete(&mut s).unwrap();
    assert!(disk.names().is_empty());
    assert_eq!(s.complete_message(), Err(IpcError::NotFound));
    assert!(!s.has_message(&disk.listing()));
}

#[test]
fn cache_is_not_rescanned() {
    let mut s = server();
    let first = vec![DirEntry { name: Some("a.txt".to_string()), is_file: true }];
    assert!(s.has_message(&first));
    let second = vec![DirEntry { name: Some("b.txt".to_string()), is_file: true }];
    assert!(s.has_message(&second));
    assert_eq!(s.current_path(), Some("/mb/a.txt".to_string()));
    assert_eq!(s.backlog_len(), 1);
    s.complete_message().unwrap();
    assert!(s.has_message(&second));
    assert_eq!(s.current_path(), Some("/mb/b.txt".to_string()));
}

#[test]
fn new_scans_once() {
    let listing = vec![
        DirEntry { name: Some("a.txt".to_string()), is_file: true },
        DirEntry { name: Some("b.tmp".to_string()), is_file: true },
    ];
    let s = IpcServer::new(&config(), &listing);
    assert_eq!(s.backlog_len(), 1);
    assert_eq!(s.current_path(), Some("/mb/a.txt".to_string()));
}

#[test]
fn scan_ignores_unrecognized() {
    let mut s = server();
    let listing = vec![
        DirEntry { name: Some("dir.txt".to_string()), is_file: false },
        DirEntry { name: Some("caf\u{e9}.txt".to_string()), is_file: true },
        DirEntry { name: Some("x.tmp".to_string()), is_file: true },
        DirEntry { name: None, is_file: true },
        DirEntry { name: Some("notes".to_string()), is_file: true },
    ];
    assert!(!s.has_message(&listing));
    assert!(s.needs_scan());
    assert_eq!(s.current_path(), None);
    assert_eq!(s.check_size(0), Err(IpcError::NotFound));
    assert!(matches!(s.next_message(Vec::new()), Err(IpcError::NotFound)));
}

#[test]
fn two_producers() {
    let mut disk = Disk::default();
    disk.run(Ipc::send(DIR, MessageKind::Plaintext, "one".to_string()).unwrap()).unwrap();
    disk.run(Ipc::send(DIR, MessageKind::Plaintext, "two".to_string()).unwrap()).unwrap();
    assert_eq!(disk.names().len(), 2);
    let mut s = server();
    let mut seen = Vec::new();
    for _ in 0..2 {
        seen.push(text_of(&disk.next(&mut s).unwrap()).1);
        disk.complete(&mut s).unwrap();
    }
    seen.sort();
    assert_eq!(seen, vec![b"one".to_vec(), b"two".to_vec()]);
    assert!(disk.names().is_empty());
}

#[test]
fn matrix_invocations() {
    assert!(matches!(Matrix::new(&config(), Err(IoFailure::NotFound)), Err(IpcError::NotFound)));
    let m = Matrix::new(&config(), Ok(())).unwrap();
    let w = Matrix::whoami(&config());
    assert_eq!(w.program, "/bin/mc");
    assert_eq!(w.args, vec!["--whoami".to_string()]);
    let r = m.send(Message::Markdown { markdown: b"*b*".to_vec() });
    assert_eq!(r.args, vec!["--message", "-", "--markdown"]);
    assert_eq!(r.input, b"*b*".to_vec());
    let r = m.send(Message::Plaintext { text: b"t".to_vec() });
    assert_eq!(r.args, vec!["--message", "-"]);
    let r = m.send(Message::Raw { name: "p.jpg".to_string(), contents: vec![1, 2] });
    assert_eq!(r.args, vec!["--file", "-", "--file-name", "p.jpg"]);
    assert_eq!(r.input, vec![1, 2]);
}
