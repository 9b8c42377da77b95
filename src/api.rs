use vstd::prelude::*;

use crate::workspace::VolumeDef;

verus! {

/// How a transferred file travels: as the bare file, or as a tar archive.
#[derive(PartialEq, Eq, Structural, Clone, Copy, Debug)]
pub enum ResourceFormat {
    Raw,
    Tar,
}

/// The lifecycle status of a deployment.
#[derive(PartialEq, Eq, Structural, Clone, Copy, Debug)]
pub enum SessionStatus {
    Created,
    Running,
    Stopped,
    Destroyed,
}

/// The image with the binaries and resources of a session.
pub struct Image {
    pub url: String,
    pub hash: String,
}

/// Asks for a new session of an environment type.
pub struct CreateSession {
    pub env_type: String,
    pub image: Image,
    pub name: String,
    pub tags: Vec<String>,
    pub note: Option<String>,
    pub volumes: Vec<VolumeDef>,
}

impl CreateSession {
    pub const ID: u32 = 37;
}

/// One unit of the update protocol.
pub enum Command {
    Open,
    Close,
    Exec { executable: String, args: Vec<String> },
    Start { executable: String, args: Vec<String> },
    Stop { child_id: String },
    Wait,
    DownloadFile { uri: String, file_path: String, format: ResourceFormat },
    UploadFile { uri: String, file_path: String, format: ResourceFormat },
    AddTags(Vec<String>),
    DelTags(Vec<String>),
}

/// An ordered list of commands for one session.
pub struct SessionUpdate {
    pub session_id: String,
    pub commands: Vec<Command>,
}

impl SessionUpdate {
    pub const ID: u32 = 38;
}

/// Asks for the list of live sessions.
pub struct GetSessions {}

impl GetSessions {
    pub const ID: u32 = 39;
}

/// Asks for a session to be torn down.
pub struct DestroySession {
    pub session_id: String,
}

impl DestroySession {
    pub const ID: u32 = 40;
}

/// The common description of a live session.
pub struct SessionInfo {
    pub id: String,
    pub name: String,
    pub status: SessionStatus,
    pub tags: Vec<String>,
    pub note: Option<String>,
    pub processes: Vec<String>,
}

} // verus!
