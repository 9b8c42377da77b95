use gu_envman::api::{Command, CreateSession, Image, ResourceFormat, SessionStatus, SessionUpdate};
use gu_envman::dispatch::UpdateRun;
use gu_envman::error::Error;
use gu_envman::manager::{
    delete_outcome, destroy_reply, BackendOp, ClearError, BackendReply, CreateOutcome, DeleteError, EnvManager, Step,
};
use gu_envman::workspace::VolumeDef;

fn strings(v: &[&str]) -> Vec<String> {
    v.iter().map(|s| s.to_string()).collect()
}

fn create_msg(tags: &[&str]) -> CreateSession {
    CreateSession {
        env_type: "docker".to_string(),
        image: Image { url: "registry/x:latest".to_string(), hash: String::new() },
        name: "worker".to_string(),
        tags: strings(tags),
        note: Some("a note".to_string()),
        volumes: vec![
            VolumeDef { source_dir: Some("/host/a".to_string()), target_dir: Some("/a".to_string()) },
            VolumeDef { source_dir: None, target_dir: Some("/b".to_string()) },
        ],
    }
}

fn manager_with_session(id: &str, tags: &[&str]) -> EnvManager {
    let mut m = EnvManager::new("docker".to_string(), "/var/ws".to_string());
    m.adapter_started();
    let plan = m.prepare_create(create_msg(tags)).ok().unwrap();
    let r = m.finish_create(plan, CreateOutcome::Created(id.to_string()));
    assert_eq!(r.ok().unwrap(), id);
    m
}

/// Runs an update, answering each backend operation from `replies` in turn.
fn run_update(m: &mut EnvManager, id: &str, commands: Vec<Command>, mut replies: Vec<BackendReply>) -> (Result<Vec<String>, Vec<String>>, usize) {
    let mut run: UpdateRun = match m.begin_update(SessionUpdate { session_id: id.to_string(), commands }) {
        Ok(run) => run,
        Err(l) => return (Err(l), 0),
    };
    let mut backend_calls = 0;
    while let Some(cmd) = run.pending() {
        let session = run.session_id().clone();
        let outcome = match m.step(&session, cmd) {
            Step::Done(o) => o,
            Step::Backend(_op) => {
                backend_calls += 1;
                let reply = replies.remove(0);
                m.complete(&session, cmd, reply)
            }
        };
        run.record(outcome);
    }
    (run.finish(), backend_calls)
}

fn tags_of(m: &EnvManager, id: &str) -> Vec<String> {
    let info = m.list_info();
    let s = info.iter().find(|i| i.id == id).unwrap();
    let mut t = s.tags.clone();
    t.sort();
    t
}

#[test]
fn update_of_unknown_session_fails_with_one_text() {
    let mut m = manager_with_session("c1", &[]);
    let cmds = vec![Command::AddTags(strings(&["x"])), Command::Wait];
    let (r, calls) = run_update(&mut m, "nope", cmds, vec![]);
    assert_eq!(r.err().unwrap(), vec!["session not found: nope".to_string()]);
    assert_eq!(calls, 0);
    assert!(tags_of(&m, "c1").is_empty());
}

#[test]
fn update_of_unknown_session_with_no_commands_fails_too() {
    let m = manager_with_session("c1", &[]);
    let r = m.begin_update(SessionUpdate { session_id: "zz".to_string(), commands: vec![] });
    assert_eq!(r.err().unwrap(), vec!["session not found: zz".to_string()]);
}

#[test]
fn update_stops_at_first_failure() {
    let mut m = manager_with_session("c1", &[]);
    let cmds = vec![
        Command::AddTags(strings(&["a"])),
        Command::Stop { child_id: "p1".to_string() },
        Command::AddTags(strings(&["z"])),
        Command::Wait,
    ];
    let (r, calls) = run_update(&mut m, "c1", cmds, vec![BackendReply::Done]);
    let l = r.err().unwrap();
    assert_eq!(l.len(), 2);
    assert_eq!(l[0], "tags inserted. Current tags are: [\"a\"]");
    assert_eq!(l[1], "child not found: p1");
    assert_eq!(calls, 0);
    assert_eq!(tags_of(&m, "c1"), strings(&["a"]));
}

#[test]
fn update_with_all_commands_succeeding_returns_every_text() {
    let mut m = manager_with_session("c1", &[]);
    let cmds = vec![
        Command::AddTags(strings(&["a", "b"])),
        Command::DelTags(strings(&["a"])),
        Command::Wait,
    ];
    let (r, calls) = run_update(&mut m, "c1", cmds, vec![BackendReply::Done]);
    let l = r.ok().unwrap();
    assert_eq!(l, vec![
        "tags inserted. Current tags are: [\"a\", \"b\"]".to_string(),
        "tags removed. Current tags are: [\"b\"]".to_string(),
        "OK".to_string(),
    ]);
    assert_eq!(calls, 1);
}

#[test]
fn delete_not_found_counts_as_success() {
    assert!(delete_outcome(Ok(())).is_ok());
    let gone = DeleteError { status: Some(404), message: "no such container".to_string() };
    assert!(delete_outcome(Err(gone)).is_ok());
    let other = DeleteError { status: Some(500), message: "server error".to_string() };
    match delete_outcome(Err(other)) {
        Err(Error::Error(t)) => assert_eq!(t, "docker error"),
        _ => panic!("a server error must fail the delete"),
    }
    let no_status = DeleteError { status: None, message: "connection refused".to_string() };
    assert!(delete_outcome(Err(no_status)).is_err());
}

#[test]
fn destroying_twice_on_the_backend_never_fails_there() {
    let mut m = manager_with_session("c1", &[]);
    let container = m.begin_destroy(&"c1".to_string()).ok().unwrap();
    assert_eq!(container, "c1");
    let ws = m.finish_destroy(&"c1".to_string(), Ok(())).ok().unwrap();
    assert_eq!(ws.path(), "/var/ws/0");
    // the same resource deleted again answers "not found"
    let again = DeleteError { status: Some(404), message: "gone".to_string() };
    assert!(delete_outcome(Err(again)).is_ok());
    assert!(matches!(destroy_reply(Ok(())), Ok(ref t) if t == "done"));
    let busy = ClearError { not_found: false, message: "busy".to_string() };
    assert!(matches!(destroy_reply(Err(busy)), Err(Error::IoError(ref t)) if t == "busy"));
    let gone = ClearError { not_found: true, message: "no such directory".to_string() };
    assert!(matches!(destroy_reply(Err(gone)), Ok(ref t) if t == "done"));
}

#[test]
fn failed_delete_keeps_the_session() {
    let mut m = manager_with_session("c1", &[]);
    let err = DeleteError { status: Some(409), message: "conflict".to_string() };
    let r = m.finish_destroy(&"c1".to_string(), Err(err));
    assert!(matches!(r, Err(Error::Error(ref t)) if t == "docker error"));
    assert!(m.contains(&"c1".to_string()));
}

#[test]
fn add_then_delete_tags_restores_the_set() {
    let mut m = manager_with_session("c1", &["base"]);
    let before = tags_of(&m, "c1");
    let cmds = vec![Command::AddTags(strings(&["x", "y", "x"])), Command::DelTags(strings(&["x", "y"]))];
    let (r, _) = run_update(&mut m, "c1", cmds, vec![]);
    assert!(r.is_ok());
    assert_eq!(tags_of(&m, "c1"), before);
}

#[test]
fn adding_present_tag_is_a_no_op() {
    let mut m = manager_with_session("c1", &["a", "b"]);
    let (r, _) = run_update(&mut m, "c1", vec![Command::AddTags(strings(&["a", "a"]))], vec![]);
    assert_eq!(r.ok().unwrap(), vec!["tags inserted. Current tags are: [\"a\", \"b\"]".to_string()]);
    assert_eq!(tags_of(&m, "c1"), strings(&["a", "b"]));
}

#[test]
fn deleting_absent_tag_is_not_an_error() {
    let mut m = manager_with_session("c1", &["a"]);
    let (r, _) = run_update(&mut m, "c1", vec![Command::DelTags(strings(&["q"]))], vec![]);
    assert_eq!(r.ok().unwrap(), vec!["tags removed. Current tags are: [\"a\"]".to_string()]);
}

#[test]
fn create_then_list_shows_one_created_session() {
    let m = manager_with_session("sess-1", &["t1"]);
    let info = m.list_info();
    assert_eq!(info.len(), 1);
    assert_eq!(info[0].id, "sess-1");
    assert_eq!(info[0].status, SessionStatus::Created);
    assert_eq!(info[0].name, "worker");
    assert_eq!(info[0].tags, strings(&["t1"]));
    assert_eq!(info[0].note, Some("a note".to_string()));
    assert!(info[0].processes.is_empty());
}

#[test]
fn create_plan_holds_binds_and_workspace() {
    let mut m = EnvManager::new("docker".to_string(), "/var/ws".to_string());
    m.adapter_started();
    let plan = m.prepare_create(create_msg(&["t"])).ok().unwrap();
    assert_eq!(plan.binds, strings(&["/host/a:/a"]));
    assert_eq!(plan.image_url, "registry/x:latest");
    assert_eq!(plan.workspace.path(), "/var/ws/0");
    assert_eq!(plan.workspace.volumes().len(), 1);
    let second = m.prepare_create(create_msg(&[])).ok().unwrap();
    assert_eq!(second.workspace.path(), "/var/ws/1");
}

#[test]
fn create_without_adapter_is_unknown_env() {
    let mut m = EnvManager::new("docker".to_string(), "/var/ws".to_string());
    match m.prepare_create(create_msg(&[])) {
        Err(Error::UnknownEnv(t)) => assert_eq!(t, "docker"),
        _ => panic!("expected an unknown environment"),
    }
}

#[test]
fn create_failures_are_reported() {
    let mut m = EnvManager::new("docker".to_string(), "/var/ws".to_string());
    m.adapter_started();
    let plan = m.prepare_create(create_msg(&[])).ok().unwrap();
    match m.finish_create(plan, CreateOutcome::DirsFailed("denied".to_string())) {
        Err(Error::IoError(t)) => assert_eq!(t, "cannot create directory /var/ws/0: denied"),
        _ => panic!("expected an IO error"),
    }
    let plan = m.prepare_create(create_msg(&[])).ok().unwrap();
    match m.finish_create(plan, CreateOutcome::ContainerFailed("pull timed out".to_string())) {
        Err(Error::IoError(t)) => assert_eq!(t, "pull timed out"),
        _ => panic!("expected an IO error"),
    }
    assert!(m.list_info().is_empty());
}

#[test]
fn duplicate_session_id_is_refused() {
    let mut m = manager_with_session("c1", &[]);
    let plan = m.prepare_create(create_msg(&[])).ok().unwrap();
    match m.finish_create(plan, CreateOutcome::Created("c1".to_string())) {
        Err(Error::Error(t)) => assert_eq!(t, "session id conflict: c1"),
        _ => panic!("expected a conflict"),
    }
    assert_eq!(m.list_info().len(), 1);
}

#[test]
fn start_then_exec_succeed_with_two_texts() {
    let mut m = manager_with_session("c1", &[]);
    let cmds = vec![
        Command::Start { executable: "echo".to_string(), args: strings(&["hi"]) },
        Command::Exec { executable: "echo".to_string(), args: strings(&["done"]) },
    ];
    let replies = vec![BackendReply::Output("proc-1".to_string()), BackendReply::Output("done\n".to_string())];
    let (r, calls) = run_update(&mut m, "c1", cmds, replies);
    assert_eq!(r.ok().unwrap(), vec!["proc-1".to_string(), "done\n".to_string()]);
    assert_eq!(calls, 2);
    assert_eq!(m.list_info()[0].status, SessionStatus::Running);
    assert_eq!(m.list_info()[0].processes, strings(&["proc-1"]));
}

#[test]
fn failing_exec_stops_before_tags() {
    let mut m = manager_with_session("c1", &[]);
    let cmds = vec![
        Command::Exec { executable: "badcmd".to_string(), args: vec![] },
        Command::AddTags(strings(&["x"])),
    ];
    let (r, _) = run_update(&mut m, "c1", cmds, vec![BackendReply::Failed("exec failed".to_string())]);
    assert_eq!(r.err().unwrap(), vec!["exec failed".to_string()]);
    assert!(tags_of(&m, "c1").is_empty());
}

#[test]
fn destroy_removes_session_and_second_destroy_fails() {
    let mut m = manager_with_session("c1", &[]);
    m.begin_destroy(&"c1".to_string()).ok().unwrap();
    assert!(m.finish_destroy(&"c1".to_string(), Ok(())).is_ok());
    assert!(m.list_info().is_empty());
    match m.begin_destroy(&"c1".to_string()) {
        Err(Error::NoSuchSession(t)) => assert_eq!(t, "c1"),
        _ => panic!("expected no such session"),
    }
}

#[test]
fn destroy_without_adapter_is_unknown_env() {
    let m = EnvManager::new("docker".to_string(), "/var/ws".to_string());
    match m.begin_destroy(&"c1".to_string()) {
        Err(Error::UnknownEnv(t)) => assert_eq!(t, "docker"),
        _ => panic!("expected an unknown environment"),
    }
}

#[test]
fn commands_without_adapter_fail_uniformly() {
    let mut m = manager_with_session("c1", &[]);
    let mut bare = EnvManager::new("docker".to_string(), "/var/ws".to_string());
    let plan = {
        m.prepare_create(create_msg(&[])).ok().unwrap()
    };
    // a manager that never saw its adapter start cannot run any command
    let _ = bare.finish_create(plan, CreateOutcome::Created("c2".to_string()));
    let (r, calls) = run_update(&mut bare, "c2", vec![Command::AddTags(strings(&["x"])), Command::Wait], vec![]);
    assert_eq!(r.err().unwrap(), vec!["runtime adapter not initialized".to_string()]);
    assert_eq!(calls, 0);
}

#[test]
fn lifecycle_commands_move_status() {
    let mut m = manager_with_session("c1", &[]);
    let (r, _) = run_update(&mut m, "c1", vec![Command::Open], vec![BackendReply::Done]);
    assert!(r.is_ok());
    assert_eq!(m.list_info()[0].status, SessionStatus::Running);
    let (r, _) = run_update(&mut m, "c1", vec![Command::Close], vec![BackendReply::Done]);
    assert!(r.is_ok());
    assert_eq!(m.list_info()[0].status, SessionStatus::Stopped);
    let (r, _) = run_update(&mut m, "c1", vec![Command::Open], vec![BackendReply::Failed("boom".to_string())]);
    assert_eq!(r.err().unwrap(), vec!["boom".to_string()]);
    assert_eq!(m.list_info()[0].status, SessionStatus::Stopped);
}

#[test]
fn backend_ops_carry_the_command() {
    let mut m = manager_with_session("c1", &[]);
    let id = "c1".to_string();
    let exec = Command::Exec { executable: "ls".to_string(), args: strings(&["-l", "/"]) };
    match m.step(&id, &exec) {
        Step::Backend(BackendOp::Exec { container, argv }) => {
            assert_eq!(container, "c1");
            assert_eq!(argv, strings(&["ls", "-l", "/"]));
        }
        _ => panic!("exec goes to the backend"),
    }
    let dl = Command::DownloadFile { uri: "http://h/f".to_string(), file_path: "/w/f".to_string(), format: ResourceFormat::Raw };
    match m.step(&id, &dl) {
        Step::Backend(BackendOp::Download { uri, file_path, format, .. }) => {
            assert_eq!(uri, "http://h/f");
            assert_eq!(file_path, "/w/f");
            assert_eq!(format, ResourceFormat::Raw);
        }
        _ => panic!("download goes to the backend"),
    }
    assert!(matches!(m.step(&id, &Command::Close), Step::Backend(BackendOp::Stop { .. })));
}

#[test]
fn upload_reply_follows_http_status() {
    let mut m = manager_with_session("c1", &[]);
    let id = "c1".to_string();
    let up = Command::UploadFile { uri: "http://h/u".to_string(), file_path: "/w/f".to_string(), format: ResourceFormat::Tar };
    assert_eq!(m.complete(&id, &up, BackendReply::HttpStatus(201)).ok().unwrap(), "\"http://h/u\" file uploaded");
    let odd = Command::UploadFile { uri: "http://h/a\"b\\c".to_string(), file_path: "/w/f".to_string(), format: ResourceFormat::Raw };
    assert_eq!(m.complete(&id, &odd, BackendReply::HttpStatus(200)).ok().unwrap(), "\"http://h/a\\\"b\\\\c\" file uploaded");
    assert_eq!(m.complete(&id, &up, BackendReply::HttpStatus(404)).err().unwrap(), "Unsuccessful file upload: 404");
    assert_eq!(m.complete(&id, &up, BackendReply::Done).err().unwrap(), "unexpected reply from the runtime adapter");
    assert_eq!(m.complete(&"zz".to_string(), &up, BackendReply::Done).err().unwrap(), "session not found: zz");
}

#[test]
fn error_messages() {
    assert_eq!(Error::Error("x".to_string()).message(), "error: x");
    assert_eq!(Error::IoError("x".to_string()).message(), "IO error: x");
    assert_eq!(Error::NoSuchSession("x".to_string()).message(), "session not found: x");
    assert_eq!(Error::NoSuchChild("x".to_string()).message(), "child not found: x");
    assert_eq!(Error::UnknownEnv("x".to_string()).message(), "unknown exec environment: x");
}

#[test]
fn empty_update_on_live_session_succeeds_with_nothing() {
    let mut m = manager_with_session("c1", &[]);
    let (r, calls) = run_update(&mut m, "c1", vec![], vec![]);
    assert!(r.ok().unwrap().is_empty());
    assert_eq!(calls, 0);
}

#[test]
fn finishing_teardown_of_unknown_session_fails() {
    let mut m = manager_with_session("c1", &[]);
    match m.finish_destroy(&"c9".to_string(), Ok(())) {
        Err(Error::NoSuchSession(t)) => assert_eq!(t, "c9"),
        _ => panic!("expected no such session"),
    }
    assert_eq!(m.list_info().len(), 1);
}

#[test]
fn stop_ends_a_started_process() {
    let mut m = manager_with_session("c1", &[]);
    let id = "c1".to_string();
    let start = Command::Start { executable: "sleep".to_string(), args: strings(&["60"]) };
    match m.step(&id, &start) {
        Step::Backend(BackendOp::Spawn { container, argv }) => {
            assert_eq!(container, "c1");
            assert_eq!(argv, strings(&["sleep", "60"]));
        }
        _ => panic!("start goes to the backend"),
    }
    assert_eq!(m.complete(&id, &start, BackendReply::Output("p7".to_string())).ok().unwrap(), "p7");
    assert_eq!(m.list_info()[0].processes, strings(&["p7"]));
    let close = Command::Close;
    assert!(m.complete(&id, &close, BackendReply::Done).is_ok());
    assert_eq!(m.list_info()[0].status, SessionStatus::Stopped);
    let stop = Command::Stop { child_id: "p7".to_string() };
    match m.step(&id, &stop) {
        Step::Backend(BackendOp::Kill { container, child_id }) => {
            assert_eq!(container, "c1");
            assert_eq!(child_id, "p7");
        }
        _ => panic!("stopping a known process goes to the backend"),
    }
    assert_eq!(m.complete(&id, &stop, BackendReply::Done).ok().unwrap(), "OK");
    assert!(m.list_info()[0].processes.is_empty());
    // the deployment's own status is left alone
    assert_eq!(m.list_info()[0].status, SessionStatus::Stopped);
    match m.step(&id, &stop) {
        Step::Done(Err(t)) => assert_eq!(t, "child not found: p7"),
        _ => panic!("the process is gone"),
    }
}

#[test]
fn start_needs_a_process_id_from_the_backend() {
    let mut m = manager_with_session("c1", &[]);
    let id = "c1".to_string();
    let start = Command::Start { executable: "x".to_string(), args: vec![] };
    assert_eq!(m.complete(&id, &start, BackendReply::Done).err().unwrap(), "unexpected reply from the runtime adapter");
    assert!(m.list_info()[0].processes.is_empty());
    assert_eq!(m.list_info()[0].status, SessionStatus::Created);
}
