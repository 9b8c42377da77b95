use vstd::prelude::*;

use crate::api::{Command, CreateSession, ResourceFormat, SessionInfo, SessionStatus, SessionUpdate};
use crate::dispatch::{outcome_of, Outcome, UpdateRun};
use crate::error::Error;
use crate::keyed::KeyedVec;
use crate::text::{debug_string, debug_text, debug_texts, list_string, list_text};
use crate::workspace::{
    binds_of, decimal, decimal_text, holds_name, names, usable_volumes, workspace_dir, Workspace,
    WorkspacesManager,
};

verus! {

/// One managed execution environment: its workspace, the backend resource
/// that runs it, its lifecycle status, and the ids of the background
/// processes started in it.
pub struct Deployment {
    pub workspace: Workspace,
    pub container: String,
    pub status: SessionStatus,
    pub processes: Vec<String>,
}

/// Work that only the runtime adapter can do, for one command.
pub enum BackendOp {
    Start { container: String },
    Stop { container: String },
    Wait { container: String },
    Spawn { container: String, argv: Vec<String> },
    Kill { container: String, child_id: String },
    Exec { container: String, argv: Vec<String> },
    Download { container: String, uri: String, file_path: String, format: ResourceFormat },
    Upload { container: String, uri: String, file_path: String, format: ResourceFormat },
}

/// What running a command takes: it is done already, or it needs the backend.
pub enum Step {
    Done(Result<String, String>),
    Backend(BackendOp),
}

/// What the runtime adapter reported for a backend operation.
pub enum BackendReply {
    Done,
    Output(String),
    HttpStatus(u16),
    Failed(String),
}

/// Everything a new session needs before its backend resource exists.
pub struct CreatePlan {
    pub workspace: Workspace,
    pub binds: Vec<String>,
    pub image_url: String,
}

/// How provisioning a new session went.
pub enum CreateOutcome {
    DirsFailed(String),
    ContainerFailed(String),
    Created(String),
}

/// An error of the backend while deleting a resource, with the HTTP status
/// of the backend's answer where there was one.
pub struct DeleteError {
    pub status: Option<u16>,
    pub message: String,
}

pub open spec fn not_ready_text() -> Seq<char> {
    "runtime adapter not initialized"@
}

pub open spec fn ok_text() -> Seq<char> {
    "OK"@
}

pub open spec fn unexpected_reply_text() -> Seq<char> {
    "unexpected reply from the runtime adapter"@
}

pub open spec fn tags_added_text(tags: Seq<String>) -> Seq<char> {
    "tags inserted. Current tags are: "@ + list_text(debug_texts(tags))
}

pub open spec fn tags_removed_text(tags: Seq<String>) -> Seq<char> {
    "tags removed. Current tags are: "@ + list_text(debug_texts(tags))
}

/// `op` is the backend operation for command `c` on `container`.
pub open spec fn op_for(op: BackendOp, c: Command, container: Seq<char>) -> bool {
    match (c, op) {
        (Command::Open, BackendOp::Start { container: k }) => k@ == container,
        (Command::Start { executable, args }, BackendOp::Spawn { container: k, argv }) => {
            k@ == container && argv@ == seq![executable] + args@
        },
        (Command::Stop { child_id }, BackendOp::Kill { container: k, child_id: c }) => {
            k@ == container && c == child_id
        },
        (Command::Close, BackendOp::Stop { container: k }) => k@ == container,
        (Command::Wait, BackendOp::Wait { container: k }) => k@ == container,
        (Command::Exec { executable, args }, BackendOp::Exec { container: k, argv }) => {
            k@ == container && argv@ == seq![executable] + args@
        },
        (
            Command::DownloadFile { uri, file_path, format },
            BackendOp::Download { container: k, uri: u, file_path: p, format: f },
        ) => k@ == container && u == uri && p == file_path && f == format,
        (
            Command::UploadFile { uri, file_path, format },
            BackendOp::Upload { container: k, uri: u, file_path: p, format: f },
        ) => k@ == container && u == uri && p == file_path && f == format,
        _ => false,
    }
}

/// Whether an HTTP status is a success.
pub open spec fn http_success(status: u16) -> bool {
    200 <= status < 300
}

/// What a command gave, from what the runtime adapter reported.
pub open spec fn reply_outcome(c: Command, reply: BackendReply) -> Outcome {
    match reply {
        BackendReply::Failed(e) => Err(e@),
        BackendReply::Done => match c {
            Command::Open | Command::Close | Command::Wait | Command::Stop { .. }
            | Command::DownloadFile { .. } => Ok(ok_text()),
            _ => Err(unexpected_reply_text()),
        },
        BackendReply::Output(out) => match c {
            Command::Exec { .. } | Command::Start { .. } => Ok(out@),
            _ => Err(unexpected_reply_text()),
        },
        BackendReply::HttpStatus(status) => match c {
            Command::UploadFile { uri, .. } => if http_success(status) {
                Ok(debug_text(uri@) + " file uploaded"@)
            } else {
                Err("Unsuccessful file upload: "@ + decimal_text(status as nat))
            },
            _ => Err(unexpected_reply_text()),
        },
    }
}

/// The status of a deployment after command `c` succeeded on it.
pub open spec fn status_after(c: Command, s: SessionStatus) -> SessionStatus {
    match c {
        Command::Open | Command::Start { .. } => SessionStatus::Running,
        Command::Close => SessionStatus::Stopped,
        _ => s,
    }
}

/// The strings of `ps` but those with the text `id`, in order.
pub open spec fn without(ps: Seq<String>, id: Seq<char>) -> Seq<String>
    decreases ps.len(),
{
    if ps.len() == 0 {
        Seq::empty()
    } else if ps.last()@ == id {
        without(ps.drop_last(), id)
    } else {
        without(ps.drop_last(), id).push(ps.last())
    }
}

/// The background processes of a deployment after command `c` succeeded
/// on it with `reply`: `Start` adds the id that the backend gave, `Stop`
/// drops the process it stopped.
pub open spec fn processes_after(c: Command, reply: BackendReply, ps: Seq<String>) -> Seq<String> {
    match (c, reply) {
        (Command::Start { .. }, BackendReply::Output(child)) => ps.push(child),
        (Command::Stop { child_id }, _) => without(ps, child_id@),
        _ => ps,
    }
}

/// `b` is `a` with another status and other background processes.
pub open spec fn with_status(a: Deployment, b: Deployment, s: SessionStatus, ps: Seq<String>) -> bool {
    &&& b.workspace == a.workspace
    &&& b.container == a.container
    &&& b.status == s
    &&& b.processes@ == ps
}

/// `d` is the deployment of a session just made in workspace `w` on `container`.
pub open spec fn fresh_deployment(d: Deployment, w: Workspace, container: String) -> bool {
    &&& d.workspace == w
    &&& d.container == container
    &&& d.status == SessionStatus::Created
    &&& d.processes@.len() == 0
}

/// `b` is `a` with another tag set.
pub open spec fn with_tags(a: Deployment, b: Deployment, tags: Set<Seq<char>>) -> bool {
    &&& b.workspace.wf()
    &&& b.workspace.tag_set() == tags
    &&& b.workspace.spec_name() == a.workspace.spec_name()
    &&& b.workspace.spec_path() == a.workspace.spec_path()
    &&& b.workspace.spec_note() == a.workspace.spec_note()
    &&& b.workspace.spec_volumes() == a.workspace.spec_volumes()
    &&& b.container == a.container
    &&& b.status == a.status
    &&& b.processes == a.processes
}

/// `info` describes deployment `d` under `id`.
pub open spec fn describes(info: SessionInfo, id: Seq<char>, d: Deployment) -> bool {
    &&& info.id@ == id
    &&& info.name@ == d.workspace.spec_name()
    &&& info.status == d.status
    &&& info.tags@.map_values(|t: String| t@) == d.workspace.tag_list().map_values(|t: String| t@)
    &&& info.note == d.workspace.spec_note()
    &&& info.processes@ == d.processes@
}

/// The command line `executable args...`.
fn command_line(executable: &String, args: &Vec<String>) -> (r: Vec<String>)
    ensures
        r@ == seq![*executable] + args@,
{
    let mut argv: Vec<String> = Vec::new();
    argv.push(executable.clone());
    let mut j: usize = 0;
    while j < args.len()
        invariant
            j <= args@.len(),
            argv@ == seq![*executable] + args@.take(j as int),
        decreases args@.len() - j,
    {
        argv.push(args[j].clone());
        proof {
            assert(seq![*executable] + args@.take(j as int + 1) =~= (seq![*executable] + args@.take(
                j as int,
            )).push(args@[j as int]));
        }
        j = j + 1;
    }
    proof {
        assert(args@.take(args@.len() as int) =~= args@);
    }
    argv
}

/// A copy of a list of strings.
fn copy_strings(v: &Vec<String>) -> (r: Vec<String>)
    ensures
        r@ == v@,
{
    let mut r: Vec<String> = Vec::new();
    let mut j: usize = 0;
    while j < v.len()
        invariant
            j <= v@.len(),
            r@ == v@.take(j as int),
        decreases v@.len() - j,
    {
        r.push(v[j].clone());
        j = j + 1;
        assert(r@ =~= v@.take(j as int));
    }
    assert(v@.take(v@.len() as int) =~= v@);
    r
}

/// The list without the strings that have the text of `id`.
fn remove_all(v: Vec<String>, id: &String) -> (r: Vec<String>)
    ensures
        r@ == without(v@, id@),
{
    let mut r: Vec<String> = Vec::new();
    let mut j: usize = 0;
    while j < v.len()
        invariant
            j <= v@.len(),
            r@ == without(v@.take(j as int), id@),
        decreases v@.len() - j,
    {
        proof {
            assert(v@.take(j as int + 1).drop_last() =~= v@.take(j as int));
        }
        if !v[j].eq(id) {
            r.push(v[j].clone());
        }
        j = j + 1;
    }
    assert(v@.take(v@.len() as int) =~= v@);
    r
}

/// Whether the backend's answer to a delete means that the resource is gone:
/// success, or "not found".
pub open spec fn delete_succeeds(r: Result<(), DeleteError>) -> bool {
    match r {
        Ok(_) => true,
        Err(e) => e.status == Some(404u16),
    }
}

/// A delete that meets a resource which an earlier delete removed gets
/// "not found" from the backend; that counts as success, so tearing down
/// twice never fails on the backend's side.
pub proof fn lemma_delete_idempotent(second: DeleteError)
    requires
        second.status == Some(404u16),
    ensures
        delete_succeeds(Ok(())),
        delete_succeeds(Err(second)),
{
}

/// The error of a teardown that the backend refused.
pub open spec fn delete_error_text() -> Seq<char> {
    "docker error"@
}

/// Recording a created session under an id that no live session has adds
/// exactly that one session, with status `Created`; on a node with no
/// sessions it is then the only one.
pub proof fn lemma_create_adds_one(before: Map<Seq<char>, Deployment>, id: Seq<char>, d: Deployment)
    requires
        !before.contains_key(id),
        d.status == SessionStatus::Created,
    ensures
        before.insert(id, d).dom() == before.dom().insert(id),
        before.insert(id, d)[id].status == SessionStatus::Created,
        before == Map::<Seq<char>, Deployment>::empty() ==> before.insert(id, d).dom() == set![id],
{
    assert(before.insert(id, d).dom() =~= before.dom().insert(id));
    if before == Map::<Seq<char>, Deployment>::empty() {
        assert(before.insert(id, d).dom() =~= set![id]);
    }
}

/// Maps the backend's answer to a delete to the result of the teardown.
/// Any answer but success or "not found" fails it with one fixed text.
pub fn delete_outcome(r: Result<(), DeleteError>) -> (out: Result<(), Error>)
    ensures
        out is Ok <==> delete_succeeds(r),
        out matches Err(e) ==> (e matches Error::Error(t) && t@ == delete_error_text()),
{
    match r {
        Ok(()) => Ok(()),
        Err(d) => {
            if d.status == Some(404u16) {
                Ok(())
            } else {
                Err(Error::Error(String::from_str("docker error")))
            }
        },
    }
}

/// Why removing a workspace directory failed: whether there was no such
/// directory, and the error's text.
pub struct ClearError {
    pub not_found: bool,
    pub message: String,
}

/// The reply to a teardown, once clearing the workspace directory was
/// tried. A directory that is gone already counts as cleared, so clearing
/// twice is no error.
pub fn destroy_reply(cleared: Result<(), ClearError>) -> (r: Result<String, Error>)
    ensures
        match cleared {
            Ok(_) => r matches Ok(t) && t@ == "done"@,
            Err(e) => if e.not_found {
                r matches Ok(t) && t@ == "done"@
            } else {
                r == Err::<String, Error>(Error::IoError(e.message))
            },
        },
{
    match cleared {
        Ok(()) => Ok(String::from_str("done")),
        Err(e) => {
            if e.not_found {
                Ok(String::from_str("done"))
            } else {
                Err(Error::IoError(e.message))
            }
        },
    }
}

/// The environment manager of one backend type: its deployments, keyed by
/// session id, and the workspaces it hands out.
pub struct EnvManager {
    env_type: String,
    adapter_ready: bool,
    deploys: KeyedVec<Deployment>,
    workspaces: WorkspacesManager,
}

impl EnvManager {
    /// The live deployments, by session id.
    pub closed spec fn sessions(&self) -> Map<Seq<char>, Deployment> {
        self.deploys.map()
    }

    pub closed spec fn spec_env_type(&self) -> Seq<char> {
        self.env_type@
    }

    /// Whether the runtime adapter is there.
    pub closed spec fn spec_ready(&self) -> bool {
        self.adapter_ready
    }

    pub closed spec fn spec_workspaces(&self) -> WorkspacesManager {
        self.workspaces
    }

    pub closed spec fn wf(&self) -> bool {
        &&& self.deploys.wf()
        &&& forall|k: Seq<char>| #[trigger]
            self.deploys.map().contains_key(k) ==> self.deploys.map()[k].workspace.wf()
                && self.deploys.map()[k].status != SessionStatus::Destroyed
    }

    /// A manager with no deployments and no runtime adapter yet.
    pub fn new(env_type: String, workspace_root: String) -> (r: EnvManager)
        ensures
            r.wf(),
            r.spec_env_type() == env_type@,
            !r.spec_ready(),
            r.sessions() == Map::<Seq<char>, Deployment>::empty(),
            r.spec_workspaces().spec_root() == workspace_root@,
            r.spec_workspaces().spec_next() == 0,
    {
        EnvManager {
            env_type,
            adapter_ready: false,
            deploys: KeyedVec::new(),
            workspaces: WorkspacesManager::new(workspace_root),
        }
    }

    pub fn env_type(&self) -> (r: &String)
        ensures
            r@ == self.spec_env_type(),
    {
        &self.env_type
    }

    pub fn is_ready(&self) -> (r: bool)
        ensures
            r == self.spec_ready(),
    {
        self.adapter_ready
    }

    /// Notes that the runtime adapter has started.
    pub fn adapter_started(&mut self)
        requires
            old(self).wf(),
        ensures
            final(self).wf(),
            final(self).spec_ready(),
            final(self).sessions() == old(self).sessions(),
            final(self).spec_env_type() == old(self).spec_env_type(),
            final(self).spec_workspaces() == old(self).spec_workspaces(),
    {
        self.adapter_ready = true;
    }

    pub fn contains(&self, id: &String) -> (r: bool)
        requires
            self.wf(),
        ensures
            r == self.sessions().contains_key(id@),
    {
        self.deploys.contains_key(id)
    }

    pub fn deployment(&self, id: &String) -> (r: Option<&Deployment>)
        requires
            self.wf(),
        ensures
            r is None <==> !self.sessions().contains_key(id@),
            r matches Some(d) ==> *d == self.sessions()[id@],
    {
        self.deploys.get(id)
    }

    /// Plans a new session: a fresh workspace with the request's name, note,
    /// tags and volumes, and the bind specifications for the backend.
    pub fn prepare_create(&mut self, msg: CreateSession) -> (r: Result<CreatePlan, Error>)
        requires
            old(self).wf(),
        ensures
            final(self).wf(),
            final(self).sessions() == old(self).sessions(),
            final(self).spec_ready() == old(self).spec_ready(),
            final(self).spec_env_type() == old(self).spec_env_type(),
            final(self).spec_workspaces().spec_root() == old(self).spec_workspaces().spec_root(),
            !old(self).spec_ready() ==> r == Err::<CreatePlan, Error>(Error::UnknownEnv(msg.env_type)),
            old(self).spec_ready() && old(self).spec_workspaces().spec_next() == u64::MAX ==> (r
                matches Err(Error::Error(t)) && t@ == "no workspace left"@),
            old(self).spec_ready() && old(self).spec_workspaces().spec_next() < u64::MAX ==> r is Ok,
            r matches Ok(plan) ==> {
                &&& old(self).spec_ready()
                &&& old(self).spec_workspaces().spec_next() != u64::MAX
                &&& plan.workspace.wf()
                &&& plan.workspace.spec_path() == workspace_dir(
                    old(self).spec_workspaces().spec_root(),
                    old(self).spec_workspaces().spec_next(),
                )
                &&& plan.workspace.spec_name() == msg.name@
                &&& plan.workspace.spec_note() == msg.note
                &&& plan.workspace.tag_set() == names(msg.tags@)
                &&& plan.workspace.spec_volumes() == usable_volumes(msg.volumes@)
                &&& plan.binds@.map_values(|b: String| b@) == binds_of(msg.volumes@)
                &&& plan.image_url == msg.image.url
                &&& final(self).spec_workspaces().spec_next() == old(self).spec_workspaces().spec_next() + 1
            },
            r is Err ==> final(self).spec_workspaces().spec_next() == old(self).spec_workspaces().spec_next(),
    {
        if !self.adapter_ready {
            return Err(Error::UnknownEnv(msg.env_type));
        }
        let CreateSession { env_type: _, image, name, tags, note, volumes } = msg;
        match self.workspaces.binds_and_workspace(name, note, &volumes) {
            None => Err(Error::Error(String::from_str("no workspace left"))),
            Some((binds, workspace)) => {
                let mut workspace = workspace;
                workspace.add_tags(tags);
                proof {
                    assert(Set::<Seq<char>>::empty().union(names(tags@)) =~= names(tags@));
                }
                Ok(CreatePlan { workspace, binds, image_url: image.url })
            },
        }
    }

    /// Records a new session once its backend resource was made, or reports
    /// why it could not be.
    pub fn finish_create(&mut self, plan: CreatePlan, outcome: CreateOutcome) -> (r: Result<String, Error>)
        requires
            old(self).wf(),
            plan.workspace.wf(),
        ensures
            final(self).wf(),
            final(self).spec_ready() == old(self).spec_ready(),
            final(self).spec_env_type() == old(self).spec_env_type(),
            final(self).spec_workspaces() == old(self).spec_workspaces(),
            match outcome {
                CreateOutcome::DirsFailed(e) => {
                    &&& r matches Err(Error::IoError(t)) && t@ == "cannot create directory "@
                        + plan.workspace.spec_path() + ": "@ + e@
                    &&& final(self).sessions() == old(self).sessions()
                },
                CreateOutcome::ContainerFailed(e) => {
                    &&& r == Err::<String, Error>(Error::IoError(e))
                    &&& final(self).sessions() == old(self).sessions()
                },
                CreateOutcome::Created(id) => if old(self).sessions().contains_key(id@) {
                    &&& r matches Err(Error::Error(t)) && t@ == "session id conflict: "@ + id@
                    &&& final(self).sessions() == old(self).sessions()
                } else {
                    &&& r == Ok::<String, Error>(id)
                    &&& exists|d: Deployment|
                        fresh_deployment(d, plan.workspace, id) && final(self).sessions() == old(
                            self,
                        ).sessions().insert(id@, d)
                },
            },
    {
        match outcome {
            CreateOutcome::DirsFailed(e) => {
                let mut t = String::from_str("cannot create directory ");
                t.append(plan.workspace.path().as_str());
                t.append(": ");
                t.append(e.as_str());
                Err(Error::IoError(t))
            },
            CreateOutcome::ContainerFailed(e) => Err(Error::IoError(e)),
            CreateOutcome::Created(id) => {
                if self.deploys.contains_key(&id) {
                    let mut t = String::from_str("session id conflict: ");
                    t.append(id.as_str());
                    Err(Error::Error(t))
                } else {
                    let d = Deployment {
                        workspace: plan.workspace,
                        container: id.clone(),
                        status: SessionStatus::Created,
                        processes: Vec::new(),
                    };
                    let ghost g = d;
                    let key = id.clone();
                    self.deploys.insert_new(key, d);
                    assert(fresh_deployment(g, plan.workspace, id));
                    Ok(id)
                }
            },
        }
    }

    /// Describes every live session, in the order of creation.
    pub fn list_info(&self) -> (r: Vec<SessionInfo>)
        requires
            self.wf(),
        ensures
            forall|k: Seq<char>|
                self.sessions().contains_key(k) <==> exists|i: int|
                    0 <= i < r@.len() && #[trigger] r@[i].id@ == k,
            forall|i: int|
                0 <= i < r@.len() ==> self.sessions().contains_key(#[trigger] r@[i].id@)
                    && describes(r@[i], r@[i].id@, self.sessions()[r@[i].id@]),
            forall|i: int, j: int|
                0 <= i < r@.len() && 0 <= j < r@.len() && i != j ==> #[trigger] r@[i].id@
                    != #[trigger] r@[j].id@,
    {
        let mut r: Vec<SessionInfo> = Vec::new();
        let n = self.deploys.len();
        let mut i: usize = 0;
        while i < n
            invariant
                self.wf(),
                n == self.deploys.entries().len(),
                i <= n,
                r@.len() == i,
                forall|j: int| 0 <= j < i ==> #[trigger] r@[j].id@ == self.deploys.entries()[j].0@,
                forall|j: int|
                    0 <= j < i ==> self.sessions().contains_key(#[trigger] r@[j].id@)
                        && describes(r@[j], r@[j].id@, self.sessions()[r@[j].id@]),
            decreases n - i,
        {
            let (id, d) = self.deploys.entry_at(i);
            let note = match &d.workspace.note() {
                Some(t) => Some(t.clone()),
                None => None,
            };
            let info = SessionInfo {
                id: id.clone(),
                name: d.workspace.name().clone(),
                status: d.status,
                tags: d.workspace.tags(),
                note,
                processes: copy_strings(&d.processes),
            };
            r.push(info);
            i = i + 1;
        }
        proof {
            assert forall|k: Seq<char>| self.sessions().contains_key(k) implies exists|i: int|
                0 <= i < r@.len() && #[trigger] r@[i].id@ == k by {
                let j = choose|j: int|
                    0 <= j < self.deploys.entries().len() && self.deploys.entries()[j].0@ == k;
                assert(r@[j].id@ == k);
            }
            assert forall|a: int, b: int|
                0 <= a < r@.len() && 0 <= b < r@.len() && a != b implies #[trigger] r@[a].id@
                != #[trigger] r@[b].id@ by {
                assert(r@[a].id@ == self.deploys.entries()[a].0@);
                assert(r@[b].id@ == self.deploys.entries()[b].0@);
            }
        }
        r
    }

    /// Starts an update request: it fails at once, with the one text
    /// "session not found: <id>", where the session is unknown, and no command
    /// runs.
    pub fn begin_update(&self, msg: SessionUpdate) -> (r: Result<UpdateRun, Vec<String>>)
        requires
            self.wf(),
        ensures
            !self.sessions().contains_key(msg.session_id@) ==> (r matches Err(l) && l@.len() == 1
                && l@[0]@ == Error::NoSuchSession(msg.session_id).text()),
            self.sessions().contains_key(msg.session_id@) ==> (r matches Ok(run) && {
                &&& run.wf()
                &&& run.spec_session_id() == msg.session_id@
                &&& run.spec_commands() == msg.commands@
                &&& run.history() == Seq::<Outcome>::empty()
                &&& !run.spec_failed()
            }),
    {
        let SessionUpdate { session_id, commands } = msg;
        if !self.deploys.contains_key(&session_id) {
            let e = Error::NoSuchSession(session_id);
            let mut l: Vec<String> = Vec::new();
            l.push(e.message());
            return Err(l);
        }
        Ok(UpdateRun::new(session_id, commands))
    }

    /// Runs a command as far as this manager can: tag commands are done
    /// here, as is `Stop` of a process that the session does not have; the
    /// others are handed out as work for the runtime adapter.
    pub fn step(&mut self, id: &String, cmd: &Command) -> (r: Step)
        requires
            old(self).wf(),
        ensures
            final(self).wf(),
            final(self).spec_ready() == old(self).spec_ready(),
            final(self).spec_env_type() == old(self).spec_env_type(),
            final(self).spec_workspaces() == old(self).spec_workspaces(),
            !old(self).spec_ready() ==> (r matches Step::Done(Err(t)) && t@ == not_ready_text())
                && final(self).sessions() == old(self).sessions(),
            old(self).spec_ready() && !old(self).sessions().contains_key(id@) ==> (r matches Step::Done(
                Err(t),
            ) && t@ == Error::NoSuchSession(*id).text()) && final(self).sessions() == old(
                self,
            ).sessions(),
            old(self).spec_ready() && old(self).sessions().contains_key(id@) ==> {
                let d = old(self).sessions()[id@];
                match *cmd {
                    Command::AddTags(ts) => exists|d2: Deployment|
                        {
                            &&& with_tags(d, d2, d.workspace.tag_set().union(names(ts@)))
                            &&& final(self).sessions() == old(self).sessions().insert(id@, d2)
                            &&& r matches Step::Done(Ok(t)) && t@ == tags_added_text(
                                d2.workspace.tag_list(),
                            )
                        },
                    Command::DelTags(ts) => exists|d2: Deployment|
                        {
                            &&& with_tags(d, d2, d.workspace.tag_set().difference(names(ts@)))
                            &&& final(self).sessions() == old(self).sessions().insert(id@, d2)
                            &&& r matches Step::Done(Ok(t)) && t@ == tags_removed_text(
                                d2.workspace.tag_list(),
                            )
                        },
                    Command::Stop { child_id } => {
                        &&& final(self).sessions() == old(self).sessions()
                        &&& names(d.processes@).contains(child_id@) ==> (r matches Step::Backend(op)
                            && op_for(op, *cmd, d.container@))
                        &&& !names(d.processes@).contains(child_id@) ==> (r matches Step::Done(Err(t))
                            && t@ == Error::NoSuchChild(child_id).text())
                    },
                    _ => {
                        &&& r matches Step::Backend(op) && op_for(op, *cmd, d.container@)
                        &&& final(self).sessions() == old(self).sessions()
                    },
                }
            },
    {
        if !self.adapter_ready {
            return Step::Done(Err(String::from_str("runtime adapter not initialized")));
        }
        let d = match self.deploys.get(id) {
            Some(d) => d,
            None => {
                let e = Error::NoSuchSession(id.clone());
                return Step::Done(Err(e.message()));
            },
        };
        let container = d.container.clone();
        match cmd {
            Command::AddTags(ts) => {
                let (i, key, dep) = self.deploys.take(id).unwrap();
                let Deployment { workspace, container, status, processes } = dep;
                let mut workspace = workspace;
                workspace.add_tags(ts.clone());
                let mut t = String::from_str("tags inserted. Current tags are: ");
                t.append(list_string(&workspace.tags()).as_str());
                let d2 = Deployment { workspace, container, status, processes };
                let ghost g = d2;
                self.deploys.restore(i, key, d2);
                proof {
                    assert(self.sessions() =~= old(self).sessions().insert(id@, g));
                    assert(with_tags(old(self).sessions()[id@], g, old(self).sessions()[id@].workspace.tag_set().union(names(ts@))));
                }
                Step::Done(Ok(t))
            },
            Command::DelTags(ts) => {
                let (i, key, dep) = self.deploys.take(id).unwrap();
                let Deployment { workspace, container, status, processes } = dep;
                let mut workspace = workspace;
                workspace.remove_tags(ts.clone());
                let mut t = String::from_str("tags removed. Current tags are: ");
                t.append(list_string(&workspace.tags()).as_str());
                let d2 = Deployment { workspace, container, status, processes };
                let ghost g = d2;
                self.deploys.restore(i, key, d2);
                proof {
                    assert(self.sessions() =~= old(self).sessions().insert(id@, g));
                    assert(with_tags(old(self).sessions()[id@], g, old(self).sessions()[id@].workspace.tag_set().difference(names(ts@))));
                }
                Step::Done(Ok(t))
            },
            Command::Stop { child_id } => {
                if holds_name(&d.processes, child_id) {
                    Step::Backend(BackendOp::Kill { container, child_id: child_id.clone() })
                } else {
                    let e = Error::NoSuchChild(child_id.clone());
                    Step::Done(Err(e.message()))
                }
            },
            Command::Open => Step::Backend(BackendOp::Start { container }),
            Command::Start { executable, args } => {
                let argv = command_line(executable, args);
                Step::Backend(BackendOp::Spawn { container, argv })
            },
            Command::Close => Step::Backend(BackendOp::Stop { container }),
            Command::Wait => Step::Backend(BackendOp::Wait { container }),
            Command::Exec { executable, args } => {
                let argv = command_line(executable, args);
                Step::Backend(BackendOp::Exec { container, argv })
            },
            Command::DownloadFile { uri, file_path, format } => Step::Backend(
                BackendOp::Download {
                    container,
                    uri: uri.clone(),
                    file_path: file_path.clone(),
                    format: *format,
                },
            ),
            Command::UploadFile { uri, file_path, format } => Step::Backend(
                BackendOp::Upload {
                    container,
                    uri: uri.clone(),
                    file_path: file_path.clone(),
                    format: *format,
                },
            ),
        }
    }

    /// Takes in what the runtime adapter reported for a command's backend
    /// operation. A lifecycle command that succeeded moves the status; a
    /// `Start` records the id of the process it began, and a `Stop` drops it.
    pub fn complete(&mut self, id: &String, cmd: &Command, reply: BackendReply) -> (r: Result<String, String>)
        requires
            old(self).wf(),
        ensures
            final(self).wf(),
            final(self).spec_ready() == old(self).spec_ready(),
            final(self).spec_env_type() == old(self).spec_env_type(),
            final(self).spec_workspaces() == old(self).spec_workspaces(),
            !old(self).sessions().contains_key(id@) ==> outcome_of(r) == Err::<Seq<char>, Seq<char>>(
                Error::NoSuchSession(*id).text(),
            ) && final(self).sessions() == old(self).sessions(),
            old(self).sessions().contains_key(id@) ==> {
                let d = old(self).sessions()[id@];
                &&& outcome_of(r) == reply_outcome(*cmd, reply)
                &&& r is Err ==> final(self).sessions() == old(self).sessions()
                &&& r is Ok ==> exists|d2: Deployment|
                    with_status(
                        d,
                        d2,
                        status_after(*cmd, d.status),
                        processes_after(*cmd, reply, d.processes@),
                    ) && final(self).sessions() == old(self).sessions().insert(id@, d2)
            },
    {
        if !self.deploys.contains_key(id) {
            let e = Error::NoSuchSession(id.clone());
            return Err(e.message());
        }
        let ghost reply0 = reply;
        let mut child: Option<String> = None;
        let r: Result<String, String> = match reply {
            BackendReply::Failed(e) => Err(e),
            BackendReply::Done => match cmd {
                Command::Open | Command::Close | Command::Wait | Command::Stop { .. }
                | Command::DownloadFile { .. } => Ok(String::from_str("OK")),
                _ => Err(String::from_str("unexpected reply from the runtime adapter")),
            },
            BackendReply::Output(out) => match cmd {
                Command::Exec { .. } => Ok(out),
                Command::Start { .. } => {
                    child = Some(out.clone());
                    Ok(out)
                },
                _ => Err(String::from_str("unexpected reply from the runtime adapter")),
            },
            BackendReply::HttpStatus(status) => match cmd {
                Command::UploadFile { uri, .. } => {
                    if 200 <= status && status < 300 {
                        let mut t = debug_string(uri.as_str());
                        t.append(" file uploaded");
                        Ok(t)
                    } else {
                        let mut t = String::from_str("Unsuccessful file upload: ");
                        t.append(decimal(status as u64).as_str());
                        Err(t)
                    }
                },
                _ => Err(String::from_str("unexpected reply from the runtime adapter")),
            },
        };
        if r.is_ok() {
            let (i, key, dep) = self.deploys.take(id).unwrap();
            let Deployment { workspace, container, status, processes } = dep;
            let new_status = match cmd {
                Command::Open | Command::Start { .. } => SessionStatus::Running,
                Command::Close => SessionStatus::Stopped,
                _ => status,
            };
            let ghost ps = processes@;
            let new_processes = match cmd {
                Command::Start { .. } => {
                    let mut p = processes;
                    match child {
                        Some(c) => p.push(c),
                        None => {},
                    }
                    p
                },
                Command::Stop { child_id } => remove_all(processes, child_id),
                _ => processes,
            };
            assert(new_processes@ == processes_after(*cmd, reply0, ps));
            let d2 = Deployment { workspace, container, status: new_status, processes: new_processes };
            let ghost g = d2;
            self.deploys.restore(i, key, d2);
            proof {
                assert(self.sessions() =~= old(self).sessions().insert(id@, g));
            }
        }
        r
    }

    /// Starts tearing a session down: hands out its backend resource, or says
    /// why there is none to tear down.
    pub fn begin_destroy(&self, id: &String) -> (r: Result<String, Error>)
        requires
            self.wf(),
        ensures
            !self.spec_ready() ==> (r matches Err(Error::UnknownEnv(t)) && t@ == self.spec_env_type()),
            self.spec_ready() && !self.sessions().contains_key(id@) ==> r == Err::<String, Error>(
                Error::NoSuchSession(*id),
            ),
            self.spec_ready() && self.sessions().contains_key(id@) ==> r == Ok::<String, Error>(
                self.sessions()[id@].container,
            ),
    {
        if !self.adapter_ready {
            return Err(Error::UnknownEnv(self.env_type.clone()));
        }
        match self.deploys.get(id) {
            Some(d) => Ok(d.container.clone()),
            None => Err(Error::NoSuchSession(id.clone())),
        }
    }

    /// Takes in the backend's answer to deleting a session's resource. Where
    /// the resource is gone the session leaves the store and its workspace is
    /// handed back to be cleared; otherwise the session stays.
    pub fn finish_destroy(&mut self, id: &String, deleted: Result<(), DeleteError>) -> (r: Result<Workspace, Error>)
        requires
            old(self).wf(),
        ensures
            final(self).wf(),
            final(self).spec_ready() == old(self).spec_ready(),
            final(self).spec_env_type() == old(self).spec_env_type(),
            final(self).spec_workspaces() == old(self).spec_workspaces(),
            !old(self).sessions().contains_key(id@) ==> r == Err::<Workspace, Error>(Error::NoSuchSession(*id))
                && final(self).sessions() == old(self).sessions(),
            old(self).sessions().contains_key(id@) && !delete_succeeds(deleted) ==> (r matches Err(
                Error::Error(t),
            ) && t@ == delete_error_text()) && final(self).sessions() == old(self).sessions(),
            old(self).sessions().contains_key(id@) && delete_succeeds(deleted) ==> r == Ok::<Workspace, Error>(
                old(self).sessions()[id@].workspace,
            ) && final(self).sessions() == old(self).sessions().remove(id@),
    {
        if !self.deploys.contains_key(id) {
            return Err(Error::NoSuchSession(id.clone()));
        }
        match delete_outcome(deleted) {
            Err(e) => Err(e),
            Ok(()) => {
                let d = self.deploys.remove(id).unwrap();
                Ok(d.workspace)
            },
        }
    }
}

} // verus!
