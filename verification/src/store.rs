//! The record store: users, sessions, tasks and instances, with the
//! transactional queries the gateway and the reaper run against them.
//!
//! Identifiers are assigned monotonically. Usernames, session tokens, task
//! names and instance identifiers are unique; sessions and instances refer
//! only to existing users, instances only to registered tasks.

use vstd::prelude::*;
use vstd::pervasive::VecAdditionalExecFns;
use crate::models::{InstanceStatus, Task, TaskInstance, User, UserSession};

verus! {

/// Why a store operation was refused.
#[derive(Clone, Copy, PartialEq, Eq, Structural, Debug)]
pub enum ServiceError {
    /// An insert collided with an existing primary key.
    Conflict,
    /// A row referred to a user the store does not hold.
    UnknownUser,
    /// A row referred to a task the store does not hold.
    UnknownTask,
}

/// Whether `inst` counts toward `uid`'s running instances.
pub open spec fn running_contrib(inst: TaskInstance, uid: i32) -> nat {
    if inst.user_id == uid && inst.is_running() {
        1
    } else {
        0
    }
}

/// How many instances of `s` are running and owned by `uid`.
pub open spec fn count_running(s: Seq<TaskInstance>, uid: i32) -> nat
    decreases s.len(),
{
    if s.len() == 0 {
        0
    } else {
        count_running(s.drop_last(), uid) + running_contrib(s.last(), uid)
    }
}

/// The instances of `s` that are running and owned by `uid`, in order.
pub open spec fn running_for(s: Seq<TaskInstance>, uid: i32) -> Seq<TaskInstance>
    decreases s.len(),
{
    if s.len() == 0 {
        Seq::empty()
    } else {
        let rest = running_for(s.drop_last(), uid);
        if s.last().user_id == uid && s.last().is_running() {
            rest.push(s.last())
        } else {
            rest
        }
    }
}

/// The running instances of `s` whose expiry lies strictly before `now`.
pub open spec fn expired_running(s: Seq<TaskInstance>, now: u64) -> Seq<TaskInstance>
    decreases s.len(),
{
    if s.len() == 0 {
        Seq::empty()
    } else {
        let rest = expired_running(s.drop_last(), now);
        if s.last().is_expired_at(now) {
            rest.push(s.last())
        } else {
            rest
        }
    }
}

/// Whether `s` authenticates `uid` at time `now`.
pub open spec fn session_matches(s: UserSession, uid: i32, now: u64) -> bool {
    s.user_id == uid && now < s.expires_at
}

/// Law: the user-facing instance listing never shows a stopped or expired
/// instance — every element the `running_for` filter keeps is a running
/// instance of the requested user.
pub proof fn lemma_listing_running_only(s: Seq<TaskInstance>, uid: i32, i: int)
    requires
        0 <= i < running_for(s, uid).len(),
    ensures
        running_for(s, uid)[i].is_running(),
        running_for(s, uid)[i].user_id == uid,
    decreases s.len(),
{
    if s.len() > 0 {
        let rest = running_for(s.drop_last(), uid);
        if s.last().user_id == uid && s.last().is_running() {
            if i < rest.len() {
                lemma_listing_running_only(s.drop_last(), uid, i);
            }
        } else {
            lemma_listing_running_only(s.drop_last(), uid, i);
        }
    }
}

pub(crate) proof fn lemma_count_running_push(s: Seq<TaskInstance>, x: TaskInstance, uid: i32)
    ensures
        count_running(s.push(x), uid) == count_running(s, uid) + running_contrib(x, uid),
{
    let t = s.push(x);
    assert(t.drop_last() =~= s);
    assert(t.last() == x);
}

pub(crate) proof fn lemma_count_running_update(
    s: Seq<TaskInstance>,
    j: int,
    x: TaskInstance,
    uid: i32,
)
    requires
        0 <= j < s.len(),
    ensures
        count_running(s.update(j, x), uid) + running_contrib(s[j], uid) == count_running(s, uid)
            + running_contrib(x, uid),
    decreases s.len(),
{
    let t = s.update(j, x);
    if j == s.len() - 1 {
        assert(t.drop_last() =~= s.drop_last());
        assert(t.last() == x);
    } else {
        assert(t.drop_last() =~= s.drop_last().update(j, x));
        assert(t.last() == s.last());
        lemma_count_running_update(s.drop_last(), j, x, uid);
    }
}

/// The in-memory record store.
pub struct Db {
    pub users: Vec<User>,
    pub sessions: Vec<UserSession>,
    pub tasks: Vec<Task>,
    pub instances: Vec<TaskInstance>,
    pub next_user_id: i32,
    pub next_instance_id: i32,
}

impl Db {
    /// Whether some user carries identifier `id`.
    pub open spec fn has_user_id(&self, id: i32) -> bool {
        exists|i: int| 0 <= i < self.users@.len() && (#[trigger] self.users@[i]).id == id
    }

    /// The user carrying identifier `id` (meaningful when `has_user_id`).
    pub open spec fn user_with_id(&self, id: i32) -> User {
        self.users@[choose|i: int|
            0 <= i < self.users@.len() && (#[trigger] self.users@[i]).id == id]
    }

    /// Whether some user carries username `name`.
    pub open spec fn has_username(&self, name: Seq<char>) -> bool {
        exists|i: int| 0 <= i < self.users@.len() && (#[trigger] self.users@[i]).username@ == name
    }

    /// The user carrying username `name` (meaningful when `has_username`).
    pub open spec fn user_with_name(&self, name: Seq<char>) -> User {
        self.users@[choose|i: int|
            0 <= i < self.users@.len() && (#[trigger] self.users@[i]).username@ == name]
    }

    /// Whether some session carries token `tok`.
    pub open spec fn has_session(&self, tok: Seq<char>) -> bool {
        exists|i: int|
            0 <= i < self.sessions@.len() && (#[trigger] self.sessions@[i]).session_id@ == tok
    }

    /// The session carrying token `tok` (meaningful when `has_session`).
    pub open spec fn session_with(&self, tok: Seq<char>) -> UserSession {
        self.sessions@[choose|i: int|
            0 <= i < self.sessions@.len() && (#[trigger] self.sessions@[i]).session_id@ == tok]
    }

    /// Whether some task carries name `name`.
    pub open spec fn has_task(&self, name: Seq<char>) -> bool {
        exists|i: int| 0 <= i < self.tasks@.len() && (#[trigger] self.tasks@[i]).name@ == name
    }

    /// Whether some running instance holds the reserved host port `p`.
    pub open spec fn has_running_port(&self, p: u16) -> bool {
        exists|i: int|
            0 <= i < self.instances@.len() && (#[trigger] self.instances@[i]).is_running()
                && self.instances@[i].port == Some(p)
    }

    /// Whether some instance carries identifier `id`.
    pub open spec fn has_instance(&self, id: i32) -> bool {
        exists|i: int| 0 <= i < self.instances@.len() && (#[trigger] self.instances@[i]).id == id
    }

    /// The index of the instance carrying `id` (meaningful when `has_instance`).
    pub open spec fn instance_index(&self, id: i32) -> int {
        choose|i: int| 0 <= i < self.instances@.len() && (#[trigger] self.instances@[i]).id == id
    }

    /// The instance carrying identifier `id` (meaningful when `has_instance`).
    pub open spec fn instance_with_id(&self, id: i32) -> TaskInstance {
        self.instances@[self.instance_index(id)]
    }

    /// Valid user rows: positive identifiers below the counter, unique
    /// identifiers and unique usernames.
    pub open spec fn users_wf(&self) -> bool {
        &&& forall|i: int|
            0 <= i < self.users@.len() ==> 1 <= (#[trigger] self.users@[i]).id
                < self.next_user_id
        &&& forall|i: int, j: int|
            0 <= i < j < self.users@.len() ==> (#[trigger] self.users@[i]).id != (
            #[trigger] self.users@[j]).id
        &&& forall|i: int, j: int|
            0 <= i < j < self.users@.len() ==> (#[trigger] self.users@[i]).username@ != (
            #[trigger] self.users@[j]).username@
    }

    /// Valid session rows: unique tokens, each owned by an existing user.
    pub open spec fn sessions_wf(&self) -> bool {
        &&& forall|i: int, j: int|
            0 <= i < j < self.sessions@.len() ==> (#[trigger] self.sessions@[i]).session_id@ != (
            #[trigger] self.sessions@[j]).session_id@
        &&& forall|i: int|
            0 <= i < self.sessions@.len() ==> self.has_user_id(
                (#[trigger] self.sessions@[i]).user_id,
            )
    }

    /// Valid task rows: unique names.
    pub open spec fn tasks_wf(&self) -> bool {
        forall|i: int, j: int|
            0 <= i < j < self.tasks@.len() ==> (#[trigger] self.tasks@[i]).name@ != (
            #[trigger] self.tasks@[j]).name@
    }

    /// Valid instance rows: positive identifiers below the counter, unique
    /// identifiers, each referring to a registered task and an existing user.
    pub open spec fn instances_wf(&self) -> bool {
        &&& forall|i: int|
            0 <= i < self.instances@.len() ==> 1 <= (#[trigger] self.instances@[i]).id
                < self.next_instance_id
        &&& forall|i: int, j: int|
            0 <= i < j < self.instances@.len() ==> (#[trigger] self.instances@[i]).id != (
            #[trigger] self.instances@[j]).id
        &&& forall|i: int|
            0 <= i < self.instances@.len() ==> self.has_task(
                (#[trigger] self.instances@[i]).task_name@,
            )
        &&& forall|i: int|
            0 <= i < self.instances@.len() ==> self.has_user_id(
                (#[trigger] self.instances@[i]).user_id,
            )
    }

    /// Well-formedness of the whole store.
    pub open spec fn wf(&self) -> bool {
        &&& 1 <= self.next_user_id
        &&& 1 <= self.next_instance_id
        &&& self.users_wf()
        &&& self.sessions_wf()
        &&& self.tasks_wf()
        &&& self.instances_wf()
    }

    /// An empty store.
    pub fn new() -> (r: Db)
        ensures
            r.wf(),
            r.users@.len() == 0,
            r.sessions@.len() == 0,
            r.tasks@.len() == 0,
            r.instances@.len() == 0,
            r.next_user_id == 1,
            r.next_instance_id == 1,
    {
        Db {
            users: Vec::new(),
            sessions: Vec::new(),
            tasks: Vec::new(),
            instances: Vec::new(),
            next_user_id: 1,
            next_instance_id: 1,
        }
    }

    /// The existing user of that name, or a fresh row inserted for it.
    pub fn find_or_create_user(&mut self, name: &String, now: u64) -> (r: User)
        requires
            old(self).wf(),
            old(self).next_user_id < i32::MAX,
        ensures
            final(self).wf(),
            final(self).sessions == old(self).sessions,
            final(self).tasks == old(self).tasks,
            final(self).instances == old(self).instances,
            final(self).next_instance_id == old(self).next_instance_id,
            old(self).has_username(name@) ==> r == old(self).user_with_name(name@) && *final(self)
                == *old(self),
            !old(self).has_username(name@) ==> {
                &&& r.id == old(self).next_user_id
                &&& r.username@ == name@
                &&& r.created_at == now
                &&& final(self).users@ == old(self).users@.push(r)
                &&& final(self).next_user_id == old(self).next_user_id + 1
            },
            final(self).has_username(name@),
            r == final(self).user_with_name(name@),
    {
        let ghost pre = *old(self);
        let mut i: usize = 0;
        while i < self.users.len()
            invariant
                pre == *old(self),
                pre.wf(),
                *self == pre,
                i <= self.users@.len(),
                forall|k: int| 0 <= k < i ==> (#[trigger] pre.users@[k]).username@ != name@,
            decreases self.users@.len() - i,
        {
            if self.users[i].username == *name {
                let r = self.users[i].duplicate();
                proof {
                    let k = i as int;
                    assert(pre.users@[k].username@ == name@);
                    assert(pre.has_username(name@));
                    let c = choose|c: int|
                        0 <= c < pre.users@.len() && (#[trigger] pre.users@[c]).username@ == name@;
                    assert(c == k) by {
                        if c != k {
                            if c < k {
                                assert(pre.users@[c].username@ != pre.users@[k].username@);
                            } else {
                                assert(pre.users@[k].username@ != pre.users@[c].username@);
                            }
                        }
                    }
                }
                return r;
            }
            i = i + 1;
        }
        proof {
            assert(!pre.has_username(name@));
        }
        let id = self.next_user_id;
        let user = User { id, username: name.clone(), created_at: now };
        let r = user.duplicate();
        self.users.push(user);
        self.next_user_id = id + 1;
        proof {
            assert(self.users@ =~= pre.users@.push(r));
            assert forall|i0: int|
                0 <= i0 < self.users@.len() implies 1 <= (#[trigger] self.users@[i0]).id
                < self.next_user_id by {
                if i0 < pre.users@.len() {
                    assert(1 <= pre.users@[i0].id < pre.next_user_id);
                }
            }
            assert forall|a: int, b: int|
                0 <= a < b < self.users@.len() implies (#[trigger] self.users@[a]).id != (
            #[trigger] self.users@[b]).id by {
                if b == self.users@.len() - 1 {
                    assert(pre.users@[a].id < pre.next_user_id);
                } else {
                    assert(pre.users@[a].id != pre.users@[b].id);
                }
            }
            assert forall|a: int, b: int|
                0 <= a < b < self.users@.len() implies (#[trigger] self.users@[a]).username@ != (
            #[trigger] self.users@[b]).username@ by {
                if b == self.users@.len() - 1 {
                    assert(pre.users@[a].username@ != name@);
                } else {
                    assert(pre.users@[a].username@ != pre.users@[b].username@);
                }
            }
            assert forall|i0: int|
                0 <= i0 < self.sessions@.len() implies self.has_user_id(
                (#[trigger] self.sessions@[i0]).user_id,
            ) by {
                assert(pre.has_user_id(pre.sessions@[i0].user_id));
                let c = choose|c: int|
                    0 <= c < pre.users@.len() && (#[trigger] pre.users@[c]).id
                        == pre.sessions@[i0].user_id;
                assert(self.users@[c].id == self.sessions@[i0].user_id);
            }
            assert forall|i0: int|
                0 <= i0 < self.instances@.len() implies self.has_user_id(
                (#[trigger] self.instances@[i0]).user_id,
            ) by {
                assert(pre.has_user_id(pre.instances@[i0].user_id));
                let c = choose|c: int|
                    0 <= c < pre.users@.len() && (#[trigger] pre.users@[c]).id
                        == pre.instances@[i0].user_id;
                assert(self.users@[c].id == self.instances@[i0].user_id);
            }
            assert forall|i0: int|
                0 <= i0 < self.instances@.len() implies self.has_task(
                (#[trigger] self.instances@[i0]).task_name@,
            ) by {
                let x = self.instances@[i0].task_name@;
                assert(pre.has_task(pre.instances@[i0].task_name@));
                let c = choose|c: int|
                    0 <= c < pre.tasks@.len() && (#[trigger] pre.tasks@[c]).name@ == x;
                assert(self.tasks@[c].name@ == x);
            }
            assert(self.has_username(name@)) by {
                assert(self.users@[self.users@.len() - 1].username@ == name@);
            }
            assert(r == self.user_with_name(name@)) by {
                let c = choose|c: int|
                    0 <= c < self.users@.len() && (#[trigger] self.users@[c]).username@ == name@;
                if c != self.users@.len() - 1 {
                    assert(pre.users@[c].username@ == name@);
                    assert(pre.has_username(name@));
                }
            }
        }
        r
    }

    /// Insert a fresh session under `token`. Fails with `Conflict` exactly
    /// when the token is already taken, and with `UnknownUser` when `uid`
    /// names no user.
    pub fn create_session(&mut self, token: &str, uid: i32, expires_at: u64, now: u64) -> (r:
        Result<(), ServiceError>)
        requires
            old(self).wf(),
        ensures
            final(self).wf(),
            final(self).users == old(self).users,
            final(self).tasks == old(self).tasks,
            final(self).instances == old(self).instances,
            final(self).next_user_id == old(self).next_user_id,
            final(self).next_instance_id == old(self).next_instance_id,
            !old(self).has_user_id(uid) ==> r == Err::<(), ServiceError>(ServiceError::UnknownUser)
                && *final(self) == *old(self),
            old(self).has_user_id(uid) && old(self).has_session(token@) ==> r == Err::<(),
                ServiceError,
            >(ServiceError::Conflict) && *final(self) == *old(self),
            old(self).has_user_id(uid) && !old(self).has_session(token@) ==> {
                &&& r == Ok::<(), ServiceError>(())
                &&& final(self).sessions@.len() == old(self).sessions@.len() + 1
                &&& final(self).sessions@.subrange(0, old(self).sessions@.len() as int) == old(
                    self,
                ).sessions@
                &&& final(self).sessions@.last().session_id@ == token@
                &&& final(self).sessions@.last().user_id == uid
                &&& final(self).sessions@.last().created_at == now
                &&& final(self).sessions@.last().expires_at == expires_at
                &&& final(self).has_session(token@)
                &&& final(self).session_with(token@) == final(self).sessions@.last()
            },
    {
        let ghost pre = *old(self);
        if !self.has_user(uid) {
            return Err(ServiceError::UnknownUser);
        }
        let owned = token.to_owned();
        let mut i: usize = 0;
        while i < self.sessions.len()
            invariant
                pre == *old(self),
                pre.wf(),
                pre.has_user_id(uid),
                *self == pre,
                owned@ == token@,
                i <= self.sessions@.len(),
                forall|k: int| 0 <= k < i ==> (#[trigger] pre.sessions@[k]).session_id@ != token@,
            decreases self.sessions@.len() - i,
        {
            if self.sessions[i].session_id == owned {
                proof {
                    assert(pre.sessions@[i as int].session_id@ == token@);
                }
                return Err(ServiceError::Conflict);
            }
            i = i + 1;
        }
        proof {
            assert(!pre.has_session(token@));
        }
        let sess = UserSession { session_id: owned, user_id: uid, created_at: now, expires_at };
        self.sessions.push(sess);
        proof {
            assert(final(self).sessions@.subrange(0, pre.sessions@.len() as int) =~= pre.sessions@);
            assert forall|a: int, b: int|
                0 <= a < b < self.sessions@.len() implies (#[trigger] self.sessions@[a]).session_id@
                != (#[trigger] self.sessions@[b]).session_id@ by {
                if b == self.sessions@.len() - 1 {
                    assert(pre.sessions@[a].session_id@ != token@);
                } else {
                    assert(pre.sessions@[a].session_id@ != pre.sessions@[b].session_id@);
                }
            }
            assert forall|i0: int|
                0 <= i0 < self.sessions@.len() implies self.has_user_id(
                (#[trigger] self.sessions@[i0]).user_id,
            ) by {
                let x = self.sessions@[i0].user_id;
                if i0 < pre.sessions@.len() {
                    assert(pre.has_user_id(pre.sessions@[i0].user_id));
                } else {
                    assert(pre.has_user_id(uid));
                }
                let c = choose|c: int|
                    0 <= c < pre.users@.len() && (#[trigger] pre.users@[c]).id == x;
                assert(self.users@[c].id == x);
            }
            assert forall|i0: int|
                0 <= i0 < self.instances@.len() implies self.has_task(
                (#[trigger] self.instances@[i0]).task_name@,
            ) by {
                let x = self.instances@[i0].task_name@;
                assert(pre.has_task(pre.instances@[i0].task_name@));
                let c = choose|c: int|
                    0 <= c < pre.tasks@.len() && (#[trigger] pre.tasks@[c]).name@ == x;
                assert(self.tasks@[c].name@ == x);
            }
            assert(self.has_session(token@)) by {
                assert(self.sessions@[self.sessions@.len() - 1].session_id@ == token@);
            }
            assert(self.session_with(token@) == self.sessions@.last()) by {
                let c = choose|c: int|
                    0 <= c < self.sessions@.len() && (#[trigger] self.sessions@[c]).session_id@
                        == token@;
                if c != self.sessions@.len() - 1 {
                    assert(pre.sessions@[c].session_id@ == token@);
                    assert(pre.has_session(token@));
                }
            }
        }
        Ok(())
    }

    /// Whether `uid` names a user.
    pub fn has_user(&self, uid: i32) -> (r: bool)
        ensures
            r == self.has_user_id(uid),
    {
        let mut i: usize = 0;
        while i < self.users.len()
            invariant
                i <= self.users@.len(),
                forall|k: int| 0 <= k < i ==> (#[trigger] self.users@[k]).id != uid,
            decreases self.users@.len() - i,
        {
            if self.users[i].id == uid {
                return true;
            }
            i = i + 1;
        }
        false
    }

    /// Whether some running instance holds the reserved host port `p`.
    pub fn any_running_with_port(&self, p: u16) -> (r: bool)
        ensures
            r == self.has_running_port(p),
    {
        let mut i: usize = 0;
        while i < self.instances.len()
            invariant
                i <= self.instances@.len(),
                forall|k: int|
                    0 <= k < i ==> !((#[trigger] self.instances@[k]).is_running()
                        && self.instances@[k].port == Some(p)),
            decreases self.instances@.len() - i,
        {
            let running = matches!(self.instances[i].status, InstanceStatus::Running);
            let holds = match self.instances[i].port {
                Some(q) => q == p,
                None => false,
            };
            if running && holds {
                return true;
            }
            i = i + 1;
        }
        false
    }

    /// Whether `name` is a registered task.
    pub fn has_task_named(&self, name: &String) -> (r: bool)
        ensures
            r == self.has_task(name@),
    {
        let mut i: usize = 0;
        while i < self.tasks.len()
            invariant
                i <= self.tasks@.len(),
                forall|k: int| 0 <= k < i ==> (#[trigger] self.tasks@[k]).name@ != name@,
            decreases self.tasks@.len() - i,
        {
            if self.tasks[i].name == *name {
                return true;
            }
            i = i + 1;
        }
        false
    }

    /// Any one currently-valid session token of `uid`: the earliest-inserted
    /// valid row. `None` exactly when no valid session exists.
    pub fn find_valid_session_for_user(&self, uid: i32, now: u64) -> (r: Option<String>)
        ensures
            r is None ==> forall|i: int|
                0 <= i < self.sessions@.len() ==> !session_matches(
                    #[trigger] self.sessions@[i],
                    uid,
                    now,
                ),
            r matches Some(t) ==> exists|i: int|
                {
                    &&& 0 <= i < self.sessions@.len()
                    &&& session_matches(#[trigger] self.sessions@[i], uid, now)
                    &&& t@ == self.sessions@[i].session_id@
                    &&& forall|k: int| 0 <= k < i ==> !session_matches(self.sessions@[k], uid, now)
                },
    {
        let mut i: usize = 0;
        while i < self.sessions.len()
            invariant
                i <= self.sessions@.len(),
                forall|k: int| 0 <= k < i ==> !session_matches(#[trigger] self.sessions@[k], uid, now),
            decreases self.sessions@.len() - i,
        {
            if self.sessions[i].user_id == uid && now < self.sessions[i].expires_at {
                let t = self.sessions[i].session_id.clone();
                proof {
                    assert(session_matches(self.sessions@[i as int], uid, now));
                }
                return Some(t);
            }
            i = i + 1;
        }
        None
    }

    /// The full session row stored under `token`, if any.
    pub fn get_session(&self, token: &str) -> (r: Option<UserSession>)
        requires
            self.wf(),
        ensures
            self.has_session(token@) ==> r == Some(self.session_with(token@)),
            !self.has_session(token@) ==> r is None,
    {
        let owned = token.to_owned();
        let mut i: usize = 0;
        while i < self.sessions.len()
            invariant
                self.wf(),
                owned@ == token@,
                i <= self.sessions@.len(),
                forall|k: int| 0 <= k < i ==> (#[trigger] self.sessions@[k]).session_id@ != token@,
            decreases self.sessions@.len() - i,
        {
            if self.sessions[i].session_id == owned {
                let r = self.sessions[i].duplicate();
                proof {
                    let k = i as int;
                    assert(self.sessions@[k].session_id@ == token@);
                    let c = choose|c: int|
                        0 <= c < self.sessions@.len() && (#[trigger] self.sessions@[c]).session_id@
                            == token@;
                    assert(c == k) by {
                        if c < k {
                            assert(self.sessions@[c].session_id@ != self.sessions@[k].session_id@);
                        } else if c > k {
                            assert(self.sessions@[k].session_id@ != self.sessions@[c].session_id@);
                        }
                    }
                }
                return Some(r);
            }
            i = i + 1;
        }
        None
    }

    /// The user a session token authenticates at time `now`: the owner of
    /// the session stored under `token`, provided it has not expired.
    pub fn validate_session(&self, token: &str, now: u64) -> (r: Option<User>)
        requires
            self.wf(),
        ensures
            self.has_session(token@) && now < self.session_with(token@).expires_at ==> r == Some(
                self.user_with_id(self.session_with(token@).user_id),
            ),
            !(self.has_session(token@) && now < self.session_with(token@).expires_at) ==> r
                is None,
    {
        let sess = match self.get_session(token) {
            Some(s) => s,
            None => {
                return None;
            },
        };
        if now >= sess.expires_at {
            return None;
        }
        proof {
            assert(self.has_user_id(sess.user_id));
        }
        let mut i: usize = 0;
        while i < self.users.len()
            invariant
                self.wf(),
                self.has_session(token@),
                sess == self.session_with(token@),
                now < sess.expires_at,
                self.has_user_id(sess.user_id),
                i <= self.users@.len(),
                forall|k: int| 0 <= k < i ==> (#[trigger] self.users@[k]).id != sess.user_id,
            decreases self.users@.len() - i,
        {
            if self.users[i].id == sess.user_id {
                let r = self.users[i].duplicate();
                proof {
                    let k = i as int;
                    let c = choose|c: int|
                        0 <= c < self.users@.len() && (#[trigger] self.users@[c]).id
                            == sess.user_id;
                    assert(c == k) by {
                        if c < k {
                            assert(self.users@[c].id != self.users@[k].id);
                        } else if c > k {
                            assert(self.users@[k].id != self.users@[c].id);
                        }
                    }
                }
                return Some(r);
            }
            i = i + 1;
        }
        proof {
            assert(false);
        }
        None
    }

    /// Register `name` if it is new; an insert on an existing name changes
    /// nothing.
    pub fn ensure_task(&mut self, name: &String, dockerfile_path: &String, now: u64)
        requires
            old(self).wf(),
        ensures
            final(self).wf(),
            final(self).users == old(self).users,
            final(self).sessions == old(self).sessions,
            final(self).instances == old(self).instances,
            final(self).next_user_id == old(self).next_user_id,
            final(self).next_instance_id == old(self).next_instance_id,
            old(self).has_task(name@) ==> *final(self) == *old(self),
            !old(self).has_task(name@) ==> final(self).tasks@.len() == old(self).tasks@.len() + 1
                && final(self).tasks@.subrange(0, old(self).tasks@.len() as int) == old(self).tasks@
                && final(self).tasks@.last().name@ == name@
                && final(self).tasks@.last().dockerfile_path@ == dockerfile_path@
                && final(self).tasks@.last().created_at == now,
            final(self).has_task(name@),
    {
        let ghost pre = *old(self);
        let mut i: usize = 0;
        while i < self.tasks.len()
            invariant
                pre == *old(self),
                pre.wf(),
                *self == pre,
                i <= self.tasks@.len(),
                forall|k: int| 0 <= k < i ==> (#[trigger] pre.tasks@[k]).name@ != name@,
            decreases self.tasks@.len() - i,
        {
            if self.tasks[i].name == *name {
                proof {
                    assert(pre.tasks@[i as int].name@ == name@);
                }
                return ;
            }
            i = i + 1;
        }
        proof {
            assert(!pre.has_task(name@));
        }
        let task = Task {
            name: name.clone(),
            dockerfile_path: dockerfile_path.clone(),
            created_at: now,
        };
        self.tasks.push(task);
        proof {
            assert(self.tasks@.subrange(0, pre.tasks@.len() as int) =~= pre.tasks@);
            assert forall|a: int, b: int|
                0 <= a < b < self.tasks@.len() implies (#[trigger] self.tasks@[a]).name@ != (
            #[trigger] self.tasks@[b]).name@ by {
                if b == self.tasks@.len() - 1 {
                    assert(pre.tasks@[a].name@ != name@);
                } else {
                    assert(pre.tasks@[a].name@ != pre.tasks@[b].name@);
                }
            }
            assert forall|i0: int|
                0 <= i0 < self.instances@.len() implies self.has_task(
                (#[trigger] self.instances@[i0]).task_name@,
            ) by {
                assert(pre.has_task(pre.instances@[i0].task_name@));
                let c = choose|c: int|
                    0 <= c < pre.tasks@.len() && (#[trigger] pre.tasks@[c]).name@
                        == pre.instances@[i0].task_name@;
                assert(self.tasks@[c].name@ == self.instances@[i0].task_name@);
            }
            assert forall|i0: int|
                0 <= i0 < self.sessions@.len() implies self.has_user_id(
                (#[trigger] self.sessions@[i0]).user_id,
            ) by {
                let x = self.sessions@[i0].user_id;
                assert(pre.has_user_id(pre.sessions@[i0].user_id));
                let c = choose|c: int|
                    0 <= c < pre.users@.len() && (#[trigger] pre.users@[c]).id == x;
                assert(self.users@[c].id == x);
            }
            assert forall|i0: int|
                0 <= i0 < self.instances@.len() implies self.has_user_id(
                (#[trigger] self.instances@[i0]).user_id,
            ) by {
                let x = self.instances@[i0].user_id;
                assert(pre.has_user_id(pre.instances@[i0].user_id));
                let c = choose|c: int|
                    0 <= c < pre.users@.len() && (#[trigger] pre.users@[c]).id == x;
                assert(self.users@[c].id == x);
            }
            assert(self.has_task(name@)) by {
                assert(self.tasks@[self.tasks@.len() - 1].name@ == name@);
            }
        }
    }

    /// Insert a copy of `inst` owned by `uid`, under a fresh identifier,
    /// and return the row as stored. Fails when `uid` names no user or the
    /// instance's task is not registered.
    #[verifier::rlimit(50)]
    pub fn create_instance_for_user(&mut self, inst: &TaskInstance, uid: i32) -> (r: Result<
        TaskInstance,
        ServiceError,
    >)
        requires
            old(self).wf(),
            old(self).next_instance_id < i32::MAX,
        ensures
            final(self).wf(),
            final(self).users == old(self).users,
            final(self).sessions == old(self).sessions,
            final(self).tasks == old(self).tasks,
            final(self).next_user_id == old(self).next_user_id,
            !old(self).has_user_id(uid) ==> r == Err::<TaskInstance, ServiceError>(
                ServiceError::UnknownUser,
            ) && *final(self) == *old(self),
            old(self).has_user_id(uid) && !old(self).has_task(inst.task_name@) ==> r == Err::<
                TaskInstance,
                ServiceError,
            >(ServiceError::UnknownTask) && *final(self) == *old(self),
            old(self).has_user_id(uid) && old(self).has_task(inst.task_name@) ==> {
                &&& r matches Ok(saved)
                &&& saved == (TaskInstance {
                    id: old(self).next_instance_id,
                    user_id: uid,
                    ..*inst
                })
                &&& final(self).instances@ == old(self).instances@.push(saved)
                &&& final(self).next_instance_id == old(self).next_instance_id + 1
            },
    {
        let ghost pre = *old(self);
        if !self.has_user(uid) {
            return Err(ServiceError::UnknownUser);
        }
        if !self.has_task_named(&inst.task_name) {
            return Err(ServiceError::UnknownTask);
        }
        let id = self.next_instance_id;
        let mut saved = inst.duplicate();
        saved.id = id;
        saved.user_id = uid;
        let r = saved.duplicate();
        self.instances.push(saved);
        self.next_instance_id = id + 1;
        proof {
            assert(self.instances@ =~= pre.instances@.push(r));
            assert forall|i0: int|
                0 <= i0 < self.instances@.len() implies 1 <= (#[trigger] self.instances@[i0]).id
                < self.next_instance_id by {
                if i0 < pre.instances@.len() {
                    assert(1 <= pre.instances@[i0].id < pre.next_instance_id);
                }
            }
            assert forall|a: int, b: int|
                0 <= a < b < self.instances@.len() implies (#[trigger] self.instances@[a]).id != (
            #[trigger] self.instances@[b]).id by {
                if b == self.instances@.len() - 1 {
                    assert(pre.instances@[a].id < pre.next_instance_id);
                } else {
                    assert(pre.instances@[a].id != pre.instances@[b].id);
                }
            }
            assert forall|i0: int|
                0 <= i0 < self.instances@.len() implies self.has_task(
                (#[trigger] self.instances@[i0]).task_name@,
            ) by {
                let x = self.instances@[i0].task_name@;
                if i0 < pre.instances@.len() {
                    assert(pre.has_task(pre.instances@[i0].task_name@));
                } else {
                    assert(pre.has_task(inst.task_name@));
                }
                let c = choose|c: int|
                    0 <= c < pre.tasks@.len() && (#[trigger] pre.tasks@[c]).name@ == x;
                assert(self.tasks@[c].name@ == x);
            }
            assert forall|i0: int|
                0 <= i0 < self.instances@.len() implies self.has_user_id(
                (#[trigger] self.instances@[i0]).user_id,
            ) by {
                let x = self.instances@[i0].user_id;
                if i0 < pre.instances@.len() {
                    assert(pre.has_user_id(pre.instances@[i0].user_id));
                } else {
                    assert(pre.has_user_id(uid));
                }
                let c = choose|c: int|
                    0 <= c < pre.users@.len() && (#[trigger] pre.users@[c]).id == x;
                assert(self.users@[c].id == x);
            }
            assert forall|i0: int|
                0 <= i0 < self.sessions@.len() implies self.has_user_id(
                (#[trigger] self.sessions@[i0]).user_id,
            ) by {
                let x = self.sessions@[i0].user_id;
                assert(pre.has_user_id(pre.sessions@[i0].user_id));
                let c = choose|c: int|
                    0 <= c < pre.users@.len() && (#[trigger] pre.users@[c]).id == x;
                assert(self.users@[c].id == x);
            }
            assert(self.users_wf());
            assert(self.sessions_wf());
            assert(self.tasks_wf());
            assert(self.instances_wf());
        }
        Ok(r)
    }

    /// Insert a copy of `inst` under a fresh identifier, owned by the user
    /// already named in the row.
    pub fn create_instance(&mut self, inst: &TaskInstance) -> (r: Result<
        TaskInstance,
        ServiceError,
    >)
        requires
            old(self).wf(),
            old(self).next_instance_id < i32::MAX,
        ensures
            final(self).wf(),
            final(self).users == old(self).users,
            final(self).sessions == old(self).sessions,
            final(self).tasks == old(self).tasks,
            final(self).next_user_id == old(self).next_user_id,
            !old(self).has_user_id(inst.user_id) ==> r == Err::<TaskInstance, ServiceError>(
                ServiceError::UnknownUser,
            ) && *final(self) == *old(self),
            old(self).has_user_id(inst.user_id) && !old(self).has_task(inst.task_name@) ==> r
                == Err::<TaskInstance, ServiceError>(ServiceError::UnknownTask) && *final(self)
                == *old(self),
            old(self).has_user_id(inst.user_id) && old(self).has_task(inst.task_name@) ==> {
                &&& r matches Ok(saved)
                &&& saved == (TaskInstance { id: old(self).next_instance_id, ..*inst })
                &&& final(self).instances@ == old(self).instances@.push(saved)
                &&& final(self).next_instance_id == old(self).next_instance_id + 1
            },
    {
        self.create_instance_for_user(inst, inst.user_id)
    }

    /// The instance stored under `id_`, if any.
    pub fn find_instance_by_id(&self, id_: i32) -> (r: Option<TaskInstance>)
        requires
            self.wf(),
        ensures
            self.has_instance(id_) ==> r == Some(self.instance_with_id(id_)),
            !self.has_instance(id_) ==> r is None,
    {
        let mut i: usize = 0;
        while i < self.instances.len()
            invariant
                self.wf(),
                i <= self.instances@.len(),
                forall|k: int| 0 <= k < i ==> (#[trigger] self.instances@[k]).id != id_,
            decreases self.instances@.len() - i,
        {
            if self.instances[i].id == id_ {
                let r = self.instances[i].duplicate();
                proof {
                    let k = i as int;
                    let c = self.instance_index(id_);
                    assert(self.instances@[k].id == id_);
                    assert(self.has_instance(id_));
                    assert(c == k) by {
                        if c < k {
                            assert(self.instances@[c].id != self.instances@[k].id);
                        } else if c > k {
                            assert(self.instances@[k].id != self.instances@[c].id);
                        }
                    }
                }
                return Some(r);
            }
            i = i + 1;
        }
        None
    }

    /// How many running instances `uid` owns.
    pub fn count_running_instances_for_user(&self, uid: i32) -> (r: usize)
        ensures
            r == count_running(self.instances@, uid),
    {
        let mut count: usize = 0;
        let mut i: usize = 0;
        while i < self.instances.len()
            invariant
                i <= self.instances@.len(),
                count == count_running(self.instances@.subrange(0, i as int), uid),
                count <= i,
            decreases self.instances@.len() - i,
        {
            proof {
                let s = self.instances@.subrange(0, i as int + 1);
                assert(s.drop_last() =~= self.instances@.subrange(0, i as int));
                assert(s.last() == self.instances@[i as int]);
            }
            if self.instances[i].user_id == uid && matches!(
                self.instances[i].status,
                InstanceStatus::Running
            ) {
                count = count + 1;
            }
            i = i + 1;
        }
        proof {
            assert(self.instances@.subrange(0, self.instances@.len() as int) =~= self.instances@);
        }
        count
    }

    /// The running instances `uid` owns, in insertion order.
    pub fn list_instances_for_user(&self, uid: i32) -> (r: Vec<TaskInstance>)
        ensures
            r@ == running_for(self.instances@, uid),
    {
        let mut r: Vec<TaskInstance> = Vec::new();
        let mut i: usize = 0;
        while i < self.instances.len()
            invariant
                i <= self.instances@.len(),
                r@ == running_for(self.instances@.subrange(0, i as int), uid),
            decreases self.instances@.len() - i,
        {
            proof {
                let s = self.instances@.subrange(0, i as int + 1);
                assert(s.drop_last() =~= self.instances@.subrange(0, i as int));
                assert(s.last() == self.instances@[i as int]);
            }
            if self.instances[i].user_id == uid && matches!(
                self.instances[i].status,
                InstanceStatus::Running
            ) {
                r.push(self.instances[i].duplicate());
            }
            i = i + 1;
        }
        proof {
            assert(self.instances@.subrange(0, self.instances@.len() as int) =~= self.instances@);
        }
        r
    }

    /// Every stored instance, in insertion order.
    pub fn list_instances(&self) -> (r: Vec<TaskInstance>)
        ensures
            r@ == self.instances@,
    {
        let mut r: Vec<TaskInstance> = Vec::new();
        let mut i: usize = 0;
        while i < self.instances.len()
            invariant
                i <= self.instances@.len(),
                r@ == self.instances@.subrange(0, i as int),
            decreases self.instances@.len() - i,
        {
            r.push(self.instances[i].duplicate());
            proof {
                assert(r@ =~= self.instances@.subrange(0, i as int + 1));
            }
            i = i + 1;
        }
        proof {
            assert(self.instances@.subrange(0, self.instances@.len() as int) =~= self.instances@);
        }
        r
    }

    /// The running instances whose expiry lies strictly before `now`, in
    /// insertion order.
    pub fn list_expired_instances(&self, now: u64) -> (r: Vec<TaskInstance>)
        ensures
            r@ == expired_running(self.instances@, now),
    {
        let mut r: Vec<TaskInstance> = Vec::new();
        let mut i: usize = 0;
        while i < self.instances.len()
            invariant
                i <= self.instances@.len(),
                r@ == expired_running(self.instances@.subrange(0, i as int), now),
            decreases self.instances@.len() - i,
        {
            proof {
                let s = self.instances@.subrange(0, i as int + 1);
                assert(s.drop_last() =~= self.instances@.subrange(0, i as int));
                assert(s.last() == self.instances@[i as int]);
            }
            if matches!(self.instances[i].status, InstanceStatus::Running)
                && self.instances[i].expires_at < now {
                r.push(self.instances[i].duplicate());
            }
            i = i + 1;
        }
        proof {
            assert(self.instances@.subrange(0, self.instances@.len() as int) =~= self.instances@);
        }
        r
    }

    /// Overwrite the status and expiry of the instance stored under `id_`;
    /// a missing identifier changes nothing.
    pub fn update_instance(&mut self, id_: i32, status_: InstanceStatus, expires_at_: u64)
        requires
            old(self).wf(),
        ensures
            final(self).wf(),
            final(self).users == old(self).users,
            final(self).sessions == old(self).sessions,
            final(self).tasks == old(self).tasks,
            final(self).next_user_id == old(self).next_user_id,
            final(self).next_instance_id == old(self).next_instance_id,
            final(self).instances@.len() == old(self).instances@.len(),
            forall|j: int|
                0 <= j < old(self).instances@.len() && (#[trigger] old(self).instances@[j]).id
                    != id_ ==> final(self).instances@[j] == old(self).instances@[j],
            forall|j: int|
                0 <= j < old(self).instances@.len() && (#[trigger] old(self).instances@[j]).id
                    == id_ ==> final(self).instances@[j] == (TaskInstance {
                    status: status_,
                    expires_at: expires_at_,
                    ..old(self).instances@[j]
                }),
            old(self).has_instance(id_) ==> final(self).instances@ == old(
                self,
            ).instances@.update(
                old(self).instance_index(id_),
                TaskInstance {
                    status: status_,
                    expires_at: expires_at_,
                    ..old(self).instances@[old(self).instance_index(id_)]
                },
            ),
            !old(self).has_instance(id_) ==> *final(self) == *old(self),
    {
        let ghost pre = *old(self);
        let mut i: usize = 0;
        while i < self.instances.len()
            invariant
                pre == *old(self),
                pre.wf(),
                *self == pre,
                i <= self.instances@.len(),
                forall|k: int| 0 <= k < i ==> (#[trigger] pre.instances@[k]).id != id_,
            decreases self.instances@.len() - i,
        {
            if self.instances[i].id == id_ {
                let mut row = self.instances[i].duplicate();
                row.status = status_;
                row.expires_at = expires_at_;
                self.instances.set(i, row);
                proof {
                    let k = i as int;
                    assert(pre.instances@[k].id == id_);
                    assert(pre.has_instance(id_));
                    assert(pre.instance_index(id_) == k) by {
                        let c = pre.instance_index(id_);
                        assert(0 <= c < pre.instances@.len() && pre.instances@[c].id == id_);
                        if c < k {
                            assert(pre.instances@[c].id != pre.instances@[k].id);
                        } else if c > k {
                            assert(pre.instances@[k].id != pre.instances@[c].id);
                        }
                    }
                    assert(self.instances@ =~= pre.instances@.update(k, self.instances@[k]));
                    assert forall|a: int, b: int|
                        0 <= a < b < self.instances@.len() implies (
                    #[trigger] self.instances@[a]).id != (#[trigger] self.instances@[b]).id by {
                        assert(pre.instances@[a].id != pre.instances@[b].id);
                        assert(self.instances@[a].id == pre.instances@[a].id);
                        assert(self.instances@[b].id == pre.instances@[b].id);
                    }
                    assert forall|i0: int|
                        0 <= i0 < self.instances@.len() implies self.has_task(
                        (#[trigger] self.instances@[i0]).task_name@,
                    ) by {
                        assert(pre.has_task(pre.instances@[i0].task_name@));
                        assert(self.instances@[i0].task_name@ == pre.instances@[i0].task_name@);
                        let c = choose|c: int|
                            0 <= c < pre.tasks@.len() && (#[trigger] pre.tasks@[c]).name@
                                == pre.instances@[i0].task_name@;
                        assert(self.tasks@[c].name@ == self.instances@[i0].task_name@);
                    }
                    assert forall|i0: int|
                        0 <= i0 < self.instances@.len() implies self.has_user_id(
                        (#[trigger] self.instances@[i0]).user_id,
                    ) by {
                        assert(pre.has_user_id(pre.instances@[i0].user_id));
                        assert(self.instances@[i0].user_id == pre.instances@[i0].user_id);
                        let c = choose|c: int|
                            0 <= c < pre.users@.len() && (#[trigger] pre.users@[c]).id
                                == pre.instances@[i0].user_id;
                        assert(self.users@[c].id == self.instances@[i0].user_id);
                    }
                    assert forall|j: int|
                        0 <= j < pre.instances@.len() && (#[trigger] pre.instances@[j]).id
                            == id_ implies self.instances@[j] == (TaskInstance {
                            status: status_,
                            expires_at: expires_at_,
                            ..pre.instances@[j]
                        }) by {
                        if j != k {
                            assert(pre.instances@[j].id != pre.instances@[k].id) by {
                                if j < k {
                                    assert(pre.instances@[j].id != pre.instances@[k].id);
                                } else {
                                    assert(pre.instances@[k].id != pre.instances@[j].id);
                                }
                            }
                        }
                    }
                }
                return ;
            }
            i = i + 1;
        }
        proof {
            assert(!pre.has_instance(id_));
        }
    }

    /// Overwrite only the status of the instance stored under `id_`; a
    /// missing identifier changes nothing.
    pub fn update_instance_status(&mut self, inst_id: i32, new_status: InstanceStatus)
        requires
            old(self).wf(),
        ensures
            final(self).wf(),
            final(self).users == old(self).users,
            final(self).sessions == old(self).sessions,
            final(self).tasks == old(self).tasks,
            final(self).next_user_id == old(self).next_user_id,
            final(self).next_instance_id == old(self).next_instance_id,
            final(self).instances@.len() == old(self).instances@.len(),
            forall|j: int|
                0 <= j < old(self).instances@.len() && (#[trigger] old(self).instances@[j]).id
                    != inst_id ==> final(self).instances@[j] == old(self).instances@[j],
            forall|j: int|
                0 <= j < old(self).instances@.len() && (#[trigger] old(self).instances@[j]).id
                    == inst_id ==> final(self).instances@[j] == (TaskInstance {
                    status: new_status,
                    ..old(self).instances@[j]
                }),
            old(self).has_instance(inst_id) ==> final(self).instances@ == old(
                self,
            ).instances@.update(
                old(self).instance_index(inst_id),
                TaskInstance {
                    status: new_status,
                    ..old(self).instances@[old(self).instance_index(inst_id)]
                },
            ),
            !old(self).has_instance(inst_id) ==> *final(self) == *old(self),
    {
        let ghost pre = *old(self);
        let mut i: usize = 0;
        while i < self.instances.len()
            invariant
                pre == *old(self),
                pre.wf(),
                *self == pre,
                i <= self.instances@.len(),
                forall|k: int| 0 <= k < i ==> (#[trigger] pre.instances@[k]).id != inst_id,
            decreases self.instances@.len() - i,
        {
            if self.instances[i].id == inst_id {
                let mut row = self.instances[i].duplicate();
                row.status = new_status;
                self.instances.set(i, row);
                proof {
                    let k = i as int;
                    assert(pre.instances@[k].id == inst_id);
                    assert(pre.has_instance(inst_id));
                    assert(pre.instance_index(inst_id) == k) by {
                        let c = pre.instance_index(inst_id);
                        assert(0 <= c < pre.instances@.len() && pre.instances@[c].id == inst_id);
                        if c < k {
                            assert(pre.instances@[c].id != pre.instances@[k].id);
                        } else if c > k {
                            assert(pre.instances@[k].id != pre.instances@[c].id);
                        }
                    }
                    assert(self.instances@ =~= pre.instances@.update(k, self.instances@[k]));
                    assert forall|a: int, b: int|
                        0 <= a < b < self.instances@.len() implies (
                    #[trigger] self.instances@[a]).id != (#[trigger] self.instances@[b]).id by {
                        assert(pre.instances@[a].id != pre.instances@[b].id);
                        assert(self.instances@[a].id == pre.instances@[a].id);
                        assert(self.instances@[b].id == pre.instances@[b].id);
                    }
                    assert forall|i0: int|
                        0 <= i0 < self.instances@.len() implies self.has_task(
                        (#[trigger] self.instances@[i0]).task_name@,
                    ) by {
                        assert(pre.has_task(pre.instances@[i0].task_name@));
                        assert(self.instances@[i0].task_name@ == pre.instances@[i0].task_name@);
                        let c = choose|c: int|
                            0 <= c < pre.tasks@.len() && (#[trigger] pre.tasks@[c]).name@
                                == pre.instances@[i0].task_name@;
                        assert(self.tasks@[c].name@ == self.instances@[i0].task_name@);
                    }
                    assert forall|i0: int|
                        0 <= i0 < self.instances@.len() implies self.has_user_id(
                        (#[trigger] self.instances@[i0]).user_id,
                    ) by {
                        assert(pre.has_user_id(pre.instances@[i0].user_id));
                        assert(self.instances@[i0].user_id == pre.instances@[i0].user_id);
                        let c = choose|c: int|
                            0 <= c < pre.users@.len() && (#[trigger] pre.users@[c]).id
                                == pre.instances@[i0].user_id;
                        assert(self.users@[c].id == self.instances@[i0].user_id);
                    }
                    assert forall|j: int|
                        0 <= j < pre.instances@.len() && (#[trigger] pre.instances@[j]).id
                            == inst_id implies self.instances@[j] == (TaskInstance {
                            status: new_status,
                            ..pre.instances@[j]
                        }) by {
                        if j != k {
                            if j < k {
                                assert(pre.instances@[j].id != pre.instances@[k].id);
                            } else {
                                assert(pre.instances@[k].id != pre.instances@[j].id);
                            }
                        }
                    }
                }
                return ;
            }
            i = i + 1;
        }
        proof {
            assert(!pre.has_instance(inst_id));
        }
    }
}

} // verus!
