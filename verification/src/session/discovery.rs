//! What an owner publishes about itself, so a client can find it.
//!
//! The descriptor sits in a sidecar beside the project file; anyone who can
//! read that file is on the same machine and in the same user account, which
//! is the trust boundary the token stands for.

use vstd::prelude::*;

use crate::model::ids::{random_uuid, uuid_chars, uuid_text};
use crate::paths::{session_file_path, sidecar};
use crate::session::protocol::SESSION_PROTOCOL_VERSION;

verus! {

/// What the owner advertises about itself.
#[derive(Clone, Debug, PartialEq)]
pub struct SessionDescriptor {
    pub protocol_version: u32,
    /// Loopback port. The listener never binds a routable interface.
    pub port: u16,
    /// Shared secret every request must echo back.
    pub token: String,
    pub project_path: String,
    /// Owner process ID, for diagnostics only: liveness is decided by whether
    /// the port still answers.
    pub process_id: u32,
}

impl SessionDescriptor {
    /// A descriptor at this build's protocol version for the owner process
    /// `process_id`.
    pub fn new(project_path: &str, port: u16, token: &str, process_id: u32) -> (descriptor: Self)
        ensures
            descriptor.protocol_version == SESSION_PROTOCOL_VERSION,
            descriptor.port == port,
            descriptor.token@ == token@,
            descriptor.project_path@ == project_path@,
            descriptor.process_id == process_id,
    {
        SessionDescriptor {
            protocol_version: SESSION_PROTOCOL_VERSION,
            port,
            token: String::from_str(token),
            project_path: String::from_str(project_path),
            process_id,
        }
    }
}

/// A descriptor together with the session file it is published in.
#[derive(Debug)]
pub struct PublishedSession {
    path: String,
    descriptor: SessionDescriptor,
}

impl PublishedSession {
    /// The publication of `descriptor`: its file is the `.session` sidecar of
    /// its project.
    pub fn new(descriptor: SessionDescriptor) -> (published: Self)
        ensures
            published.path_text() == sidecar(descriptor.project_path@, ".session"@),
            published.descriptor_value() == descriptor,
    {
        let path = session_file_path(descriptor.project_path.as_str());
        PublishedSession { path, descriptor }
    }

    pub closed spec fn path_text(&self) -> Seq<char> {
        self.path@
    }

    pub closed spec fn descriptor_value(&self) -> SessionDescriptor {
        self.descriptor
    }

    pub fn descriptor(&self) -> (descriptor: &SessionDescriptor)
        ensures
            *descriptor == self.descriptor_value(),
    {
        &self.descriptor
    }

    pub fn path(&self) -> (path: &str)
        ensures
            path@ == self.path_text(),
    {
        self.path.as_str()
    }
}

/// A fresh shared secret for one session: a random version 4 UUID, spelled
/// the hyphenated way.
pub fn new_token() -> (token: String)
    ensures
        exists|value: u128| #[trigger] uuid_chars(value) == token@ && (value >> 76u128) & 0xfu128 == 4
            && (value >> 62u128) & 0x3u128 == 2,
{
    let value = random_uuid();
    let token = uuid_text(value);
    assert(uuid_chars(value) == token@);
    token
}

} // verus!
