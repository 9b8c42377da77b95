//! The environment manager of a compute node: it keeps the node's
//! deployments, runs update commands on them in order up to the first
//! failure, tears them down, and frames the files that move in and out of
//! them. The runtime adapter and the network are driven from outside; the
//! decisions are made, and proved, here.

pub mod api;
pub mod dispatch;
pub mod error;
pub mod keyed;
pub mod manager;
pub mod registry;
pub mod responses;
pub mod tar;
pub mod text;
pub mod transfer;
pub mod workspace;
