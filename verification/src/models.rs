//! The entities the service persists: users, sessions, tasks and instances.
//!
//! Timestamps are seconds since the Unix epoch. A session is valid exactly
//! while `now < expires_at`; an instance is live exactly while its status is
//! `Running`.

use vstd::prelude::*;

verus! {

/// Lifecycle state of an instance. `Running` is the only live state;
/// `Stopped` and `Expired` are terminal.
#[derive(Clone, Copy, PartialEq, Eq, Structural, Debug)]
pub enum InstanceStatus {
    Running,
    Stopped,
    Expired,
}

/// The stable string form of each status, as it is persisted and reported.
pub open spec fn status_name(s: InstanceStatus) -> Seq<char> {
    match s {
        InstanceStatus::Running => "Running"@,
        InstanceStatus::Stopped => "Stopped"@,
        InstanceStatus::Expired => "Expired"@,
    }
}

impl InstanceStatus {
    pub fn as_str(self) -> (r: &'static str)
        ensures
            r@ == status_name(self),
    {
        match self {
            InstanceStatus::Running => "Running",
            InstanceStatus::Stopped => "Stopped",
            InstanceStatus::Expired => "Expired",
        }
    }
}

/// A registered user. Identifiers are assigned monotonically by the store.
#[derive(Debug)]
pub struct User {
    pub id: i32,
    pub username: String,
    pub created_at: u64,
}

impl User {
    /// An owned copy equal to `self`.
    pub fn duplicate(&self) -> (r: User)
        ensures
            r == *self,
    {
        User { id: self.id, username: self.username.clone(), created_at: self.created_at }
    }
}

/// A bearer session. Valid exactly while `now < expires_at`.
#[derive(Debug)]
pub struct UserSession {
    pub session_id: String,
    pub user_id: i32,
    pub created_at: u64,
    pub expires_at: u64,
}

impl UserSession {
    /// An owned copy equal to `self`.
    pub fn duplicate(&self) -> (r: UserSession)
        ensures
            r == *self,
    {
        UserSession {
            session_id: self.session_id.clone(),
            user_id: self.user_id,
            created_at: self.created_at,
            expires_at: self.expires_at,
        }
    }
}

/// A deployable task: a name and the path of its build recipe.
#[derive(Debug)]
pub struct Task {
    pub name: String,
    pub dockerfile_path: String,
    pub created_at: u64,
}

impl Task {
    /// An owned copy equal to `self`.
    pub fn duplicate(&self) -> (r: Task)
        ensures
            r == *self,
    {
        Task {
            name: self.name.clone(),
            dockerfile_path: self.dockerfile_path.clone(),
            created_at: self.created_at,
        }
    }
}

/// One deployed container instance. `port` is the reserved host port when
/// the deployment used port routing, and `None` under proxy routing.
#[derive(Debug)]
pub struct TaskInstance {
    pub id: i32,
    pub task_name: String,
    pub container_id: String,
    pub port: Option<u16>,
    pub created_at: u64,
    pub expires_at: u64,
    pub status: InstanceStatus,
    pub user_id: i32,
    pub endpoint: String,
}

impl TaskInstance {
    /// An owned copy equal to `self`.
    pub fn duplicate(&self) -> (r: TaskInstance)
        ensures
            r == *self,
    {
        TaskInstance {
            id: self.id,
            task_name: self.task_name.clone(),
            container_id: self.container_id.clone(),
            port: match &self.port {
                Some(p) => Some(*p),
                None => None,
            },
            created_at: self.created_at,
            expires_at: self.expires_at,
            status: self.status,
            user_id: self.user_id,
            endpoint: self.endpoint.clone(),
        }
    }

    /// Whether the instance is live.
    pub open spec fn is_running(&self) -> bool {
        self.status == InstanceStatus::Running
    }

    /// Whether the instance is live but past its expiry at time `now`.
    pub open spec fn is_expired_at(&self, now: u64) -> bool {
        self.is_running() && self.expires_at < now
    }
}

} // verus!
