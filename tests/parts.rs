use gu_envman::api::ResourceFormat;
use gu_envman::error::Error;
use gu_envman::registry::EnvRegistry;
use gu_envman::responses::SessionErr;
use gu_envman::text::{exec_output, list_string};
use gu_envman::transfer::{download_plan, split_file_path, BridgeStatus, ChunkBridge, Offer};
use gu_envman::workspace::{decimal, VolumeDef, Workspace, WorkspacesManager};

fn strings(v: &[&str]) -> Vec<String> {
    v.iter().map(|s| s.to_string()).collect()
}

#[test]
fn raw_download_into_directory_is_refused_before_transfer() {
    let r = download_plan(&"/data".to_string(), ResourceFormat::Raw, Some(true));
    assert_eq!(r.err().unwrap(), "Cannot save file into /data path. There is a directory");
}

#[test]
fn raw_download_splits_path() {
    let plan = download_plan(&"/data/in/file.bin".to_string(), ResourceFormat::Raw, Some(false)).ok().unwrap();
    assert_eq!(plan.remote_path, "/data/in");
    assert_eq!(plan.entry_name, Some("file.bin".to_string()));
    let plan = download_plan(&"/file.bin".to_string(), ResourceFormat::Raw, None).ok().unwrap();
    assert_eq!(plan.remote_path, "/");
    assert_eq!(plan.entry_name, Some("file.bin".to_string()));
}

#[test]
fn raw_download_needs_a_file_name() {
    let r = download_plan(&"/data/".to_string(), ResourceFormat::Raw, None);
    assert_eq!(r.err().unwrap(), "Invalid filename");
    let r = download_plan(&"/data/..".to_string(), ResourceFormat::Raw, Some(false));
    assert_eq!(r.err().unwrap(), "Invalid filename");
}

#[test]
fn tar_download_goes_to_the_path_as_is() {
    let plan = download_plan(&"/data".to_string(), ResourceFormat::Tar, Some(true)).ok().unwrap();
    assert_eq!(plan.remote_path, "/data");
    assert_eq!(plan.entry_name, None);
}

#[test]
fn split_paths() {
    assert_eq!(split_file_path(&"a/b/c".to_string()), Some(("a/b".to_string(), "c".to_string())));
    assert_eq!(split_file_path(&"name".to_string()), Some((String::new(), "name".to_string())));
    assert_eq!(split_file_path(&"/x/.".to_string()), None);
    assert_eq!(split_file_path(&String::new()), None);
    assert_eq!(split_file_path(&"/é/ü.txt".to_string()), Some(("/é".to_string(), "ü.txt".to_string())));
}

#[test]
fn bridge_never_holds_more_than_its_capacity() {
    let mut b = ChunkBridge::new(16);
    let input: Vec<Vec<u8>> = (0..2000u32).map(|i| vec![(i % 251) as u8; 64]).collect();
    let mut output: Vec<Vec<u8>> = Vec::new();
    let mut next = 0usize;
    let mut tick = 0u32;
    while next < input.len() || b.len() > 0 {
        // the producer is three times as fast as the consumer
        for _ in 0..3 {
            if next < input.len() {
                match b.offer(input[next].clone()) {
                    Offer::Accepted => next += 1,
                    Offer::Full(c) => assert_eq!(c, input[next]),
                    Offer::Cancelled => panic!("not cancelled"),
                }
            }
        }
        if next == input.len() {
            b.end_source();
        }
        assert!(b.len() <= 16);
        if let Some(c) = b.take() {
            output.push(c);
        }
        tick += 1;
        assert!(tick < 100_000);
    }
    assert!(b.peak() <= b.capacity());
    assert_eq!(b.peak(), 16);
    assert_eq!(output, input);
    assert!(matches!(b.status(), BridgeStatus::Finished));
}

#[test]
fn bridge_failure_cancels_both_sides() {
    let mut b = ChunkBridge::new(2);
    assert!(matches!(b.offer(vec![1]), Offer::Accepted));
    assert!(matches!(b.offer(vec![2]), Offer::Accepted));
    assert!(matches!(b.offer(vec![3]), Offer::Full(_)));
    assert!(matches!(b.status(), BridgeStatus::Open));
    b.fail("network error".to_string());
    b.fail("backend error".to_string());
    assert_eq!(b.len(), 0);
    assert!(b.take().is_none());
    assert!(matches!(b.offer(vec![4]), Offer::Cancelled));
    match b.status() {
        BridgeStatus::Failed(e) => assert_eq!(e, "network error"),
        _ => panic!("the transfer failed"),
    }
}

#[test]
fn exec_output_drops_undecodable_chunks() {
    let chunks = vec![b"hello ".to_vec(), vec![0xff, 0xfe], "wörld".as_bytes().to_vec()];
    assert_eq!(exec_output(&chunks), "hello wörld");
    assert_eq!(exec_output(&vec![]), "");
}

#[test]
fn list_rendering() {
    assert_eq!(list_string(&strings(&[])), "[]");
    assert_eq!(list_string(&strings(&["a"])), "[\"a\"]");
    assert_eq!(list_string(&strings(&["a", "b", "c"])), "[\"a\", \"b\", \"c\"]");
    assert_eq!(list_string(&strings(&["q\"t", "n\nl"])), format!("{:?}", strings(&["q\"t", "n\nl"])));
}

#[test]
fn decimal_numbers() {
    assert_eq!(decimal(0), "0");
    assert_eq!(decimal(7), "7");
    assert_eq!(decimal(1200), "1200");
    assert_eq!(decimal(u64::MAX), "18446744073709551615");
}

#[test]
fn workspace_tags_are_a_set() {
    let mut w = Workspace::new("/ws/0".to_string(), "n".to_string(), None);
    w.add_tags(strings(&["b", "a", "b"]));
    assert_eq!(w.tags(), strings(&["b", "a"]));
    w.add_tags(strings(&["a"]));
    assert_eq!(w.tags(), strings(&["b", "a"]));
    w.remove_tags(strings(&["b", "zz"]));
    assert_eq!(w.tags(), strings(&["a"]));
}

#[test]
fn workspaces_get_distinct_directories() {
    let mut wm = WorkspacesManager::new("/srv".to_string());
    let vols = vec![
        VolumeDef { source_dir: Some("/h".to_string()), target_dir: Some("/t".to_string()) },
        VolumeDef { source_dir: Some("/h2".to_string()), target_dir: None },
        VolumeDef { source_dir: Some("/h3".to_string()), target_dir: Some("/t3".to_string()) },
    ];
    let (binds, w) = wm.binds_and_workspace("a".to_string(), None, &vols).unwrap();
    assert_eq!(binds, strings(&["/h:/t", "/h3:/t3"]));
    assert_eq!(w.volumes().len(), 2);
    assert_eq!(w.path(), "/srv/0");
    let w2 = wm.workspace("b".to_string(), Some("n".to_string())).unwrap();
    assert_eq!(w2.path(), "/srv/1");
    assert_eq!(w2.name(), "b");
    assert_eq!(w2.note(), &Some("n".to_string()));
}

#[test]
fn registry_routes_by_type() {
    let mut reg: EnvRegistry<u32> = EnvRegistry::new();
    reg.register("docker".to_string(), 7);
    reg.register("hd".to_string(), 9);
    assert_eq!(*reg.resolve(&"docker".to_string()).ok().unwrap(), 7);
    assert_eq!(*reg.resolve(&"hd".to_string()).ok().unwrap(), 9);
    match reg.resolve(&"vm".to_string()) {
        Err(Error::UnknownEnv(t)) => assert_eq!(t, "vm"),
        _ => panic!("vm is not registered"),
    }
}

#[test]
fn session_errors_map_to_http() {
    assert_eq!(SessionErr::OverwriteError.status_code(), 500);
    assert_eq!(SessionErr::OverwriteError.body(), "Id conflict");
    assert_eq!(SessionErr::SessionNotFoundError.status_code(), 404);
    assert_eq!(SessionErr::SessionNotFoundError.body(), "Session not found");
    assert_eq!(SessionErr::BlobNotFoundError.status_code(), 404);
    assert_eq!(SessionErr::BlobLockedError.status_code(), 423);
    assert_eq!(SessionErr::BlobLockedError.body(), "");
    let e = SessionErr::DirectoryCreationError("/x: denied".to_string());
    assert_eq!(e.status_code(), 500);
    assert_eq!(e.body(), "Cannot create directory: /x: denied");
    assert_eq!(SessionErr::FileError("f".to_string()).body(), "File related error: f");
    assert_eq!(SessionErr::MailboxError("m".to_string()).body(), "Actix mailbox error: m");
}
