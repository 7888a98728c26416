//! The gateway's decision logic: bearer-token authentication, token
//! issuance with reuse, quota enforcement at persistence, ownership checks
//! on the lifecycle endpoints, and the two listings.
//!
//! Each function here is one request's decisions over the engine's state;
//! the HTTP transport around them only parses bodies and maps `ApiError`
//! to a status code.

use vstd::prelude::*;
use vstd::string::StringExecFns;
use crate::clock::ttl_secs_until;
use crate::config::{Config, TaskConfig};
use crate::deploy::{DeployError, Deployer};
use crate::ident::fresh_token;
use crate::models::{status_name, InstanceStatus, TaskInstance, User};
use crate::ports::PortError;
use crate::store::{count_running, running_for, Db, ServiceError};

verus! {

/// What a request ended in, mapped onto an HTTP status by the transport.
#[derive(PartialEq, Eq, Debug)]
pub enum ApiError {
    /// The CAPTCHA verifier rejected the request.
    Captcha,
    /// The deployment engine failed.
    Deploy(DeployError),
    /// The record store failed.
    Db(ServiceError),
    /// The request itself was unacceptable.
    BadRequest(String),
    /// The caller does not own the named instance.
    Forbidden(String),
}

/// The status code each error surfaces as.
pub open spec fn api_status(e: ApiError) -> u16 {
    match e {
        ApiError::Captcha => 401,
        ApiError::Deploy(_) => 500,
        ApiError::Db(_) => 500,
        ApiError::BadRequest(_) => 400,
        ApiError::Forbidden(_) => 403,
    }
}

impl ApiError {
    /// The HTTP status this error surfaces as.
    pub fn status_code(&self) -> (r: u16)
        ensures
            r == api_status(*self),
    {
        match self {
            ApiError::Captcha => 401,
            ApiError::Deploy(_) => 500,
            ApiError::Db(_) => 500,
            ApiError::BadRequest(_) => 400,
            ApiError::Forbidden(_) => 403,
        }
    }
}

/// A deployment request: the task to deploy and the CAPTCHA token.
pub struct DeployReq {
    pub task: String,
    pub captcha_token: String,
}

/// A lifecycle request: which instance to act on.
pub struct ActionReq {
    pub instance_id: i32,
}

/// One row of the instance listing.
pub struct InstanceListItem {
    pub id: i32,
    pub task_name: String,
    pub expires_in_secs: u64,
    pub endpoint: String,
    pub status: String,
}

/// One row of the task listing.
pub struct TaskInfo {
    pub name: String,
    pub protocol: String,
    pub container_port: u16,
}

/// A token response: the bearer token and its absolute expiry.
pub struct TokenResp {
    pub token: String,
    pub expires_at: u64,
}

/// Whether an `Authorization` header value carries a bearer token.
pub open spec fn has_bearer(h: Seq<char>) -> bool {
    h.len() >= 7 && h.subrange(0, 7) == "Bearer "@
}

/// The token a bearer header carries.
pub open spec fn bearer_token(h: Seq<char>) -> Seq<char> {
    h.subrange(7, h.len() as int)
}

/// Whether the store authenticates `tok` at time `now`.
pub open spec fn session_authenticates(db: Db, tok: Seq<char>, now: u64) -> bool {
    db.has_session(tok) && now < db.session_with(tok).expires_at
}

/// Strip the `Bearer ` scheme off an `Authorization` header value.
pub fn parse_bearer(header: &String) -> (r: Option<String>)
    ensures
        has_bearer(header@) ==> (r matches Some(t) && t@ == bearer_token(header@)),
        !has_bearer(header@) ==> r is None,
{
    let n = header.as_str().unicode_len();
    if n < 7 {
        return None;
    }
    let prefix = header.as_str().substring_char(0, 7);
    let expected = "Bearer ".to_owned();
    if String::from_str(prefix) == expected {
        let token = String::from_str(header.as_str().substring_char(7, n));
        Some(token)
    } else {
        None
    }
}

/// Resolve the caller from the `Authorization` header: a missing or
/// schemeless header is a bad request, as is an unknown or expired token;
/// otherwise the session's owner is attached.
pub fn authenticate(db: &Db, header: Option<&String>, now: u64) -> (r: Result<User, ApiError>)
    requires
        db.wf(),
    ensures
        match header {
            None => (r matches Err(e) && e matches ApiError::BadRequest(m) && m@
                == "Missing token"@),
            Some(h) => {
                &&& !has_bearer(h@) ==> (r matches Err(e) && e matches ApiError::BadRequest(m)
                    && m@ == "Missing token"@)
                &&& has_bearer(h@) && session_authenticates(*db, bearer_token(h@), now) ==> r
                    == Ok::<User, ApiError>(
                    db.user_with_id(db.session_with(bearer_token(h@)).user_id),
                )
                &&& has_bearer(h@) && !session_authenticates(*db, bearer_token(h@), now) ==> (
                r matches Err(e) && e matches ApiError::BadRequest(m) && m@
                    == "Invalid or expired token"@)
            },
        },
{
    let token = match header {
        None => {
            return Err(ApiError::BadRequest("Missing token".to_owned()));
        },
        Some(h) => match parse_bearer(h) {
            None => {
                return Err(ApiError::BadRequest("Missing token".to_owned()));
            },
            Some(t) => t,
        },
    };
    match db.validate_session(token.as_str(), now) {
        Some(user) => Ok(user),
        None => Err(ApiError::BadRequest("Invalid or expired token".to_owned())),
    }
}

/// Whether `name` is a known user with at least one session that still
/// authenticates at time `now`.
pub open spec fn has_live_session_for(db: Db, name: Seq<char>, now: u64) -> bool {
    db.has_username(name) && exists|i: int|
        0 <= i < db.sessions@.len() && crate::store::session_matches(
            #[trigger] db.sessions@[i],
            db.user_with_name(name).id,
            now,
        )
}

/// Store a session for `username` under the externally minted `minted`
/// token, creating the user on first sight. An existing valid session is
/// reused with its original expiry and `minted` discarded; otherwise the
/// session is inserted with `expires_at = now + ttl_hours`, failing with a
/// conflict exactly when `minted` collides with a stored token.
pub fn issue_token(db: &mut Db, username: &String, minted: String, ttl_hours: i64, now: u64) -> (r:
    Result<TokenResp, ApiError>)
    requires
        old(db).wf(),
        old(db).next_user_id < i32::MAX,
        1 <= ttl_hours,
        now + (ttl_hours as u64) * 3600 <= u64::MAX,
    ensures
        final(db).wf(),
        final(db).tasks == old(db).tasks,
        final(db).instances == old(db).instances,
        final(db).has_username(username@),
        r matches Ok(resp) ==> {
            &&& session_authenticates(*final(db), resp.token@, now)
            &&& final(db).session_with(resp.token@).expires_at == resp.expires_at
            &&& final(db).session_with(resp.token@).user_id == final(db).user_with_name(
                username@,
            ).id
        },
        r is Err ==> r == Err::<TokenResp, ApiError>(ApiError::Db(ServiceError::Conflict)),
        // token reuse: an existing user with a live session gets that
        // session back, and the store does not change
        has_live_session_for(*old(db), username@, now) ==> *final(db) == *old(db) && (
        r matches Ok(resp) && exists|i: int|
            {
                &&& 0 <= i < old(db).sessions@.len()
                &&& crate::store::session_matches(
                    #[trigger] old(db).sessions@[i],
                    old(db).user_with_name(username@).id,
                    now,
                )
                &&& resp.token@ == old(db).sessions@[i].session_id@
                &&& resp.expires_at == old(db).sessions@[i].expires_at
                &&& forall|k: int|
                    0 <= k < i ==> !crate::store::session_matches(
                        old(db).sessions@[k],
                        old(db).user_with_name(username@).id,
                        now,
                    )
            }),
        // without a live session the minted token decides: a collision is
        // refused, anything else is stored exactly as given
        !has_live_session_for(*old(db), username@, now) && old(db).has_session(minted@) ==> r
            == Err::<TokenResp, ApiError>(ApiError::Db(ServiceError::Conflict))
            && final(db).sessions == old(db).sessions,
        !has_live_session_for(*old(db), username@, now) && !old(db).has_session(minted@) ==> (
        r matches Ok(resp) && {
            &&& resp.token == minted
            &&& resp.expires_at == now + (ttl_hours as u64) * 3600
            &&& final(db).sessions@.len() == old(db).sessions@.len() + 1
            &&& final(db).sessions@.subrange(0, old(db).sessions@.len() as int) == old(
                db,
            ).sessions@
            &&& final(db).sessions@.last().session_id@ == minted@
            &&& final(db).sessions@.last().expires_at == now + (ttl_hours as u64) * 3600
            &&& final(db).sessions@.last().user_id == final(db).user_with_name(username@).id
        }),
{
    let ghost pre = *old(db);
    let user = db.find_or_create_user(username, now);
    let ghost after_user = *db;
    match db.find_valid_session_for_user(user.id, now) {
        Some(tok) => {
            proof {
                // a matching session belongs to an already existing user:
                // a fresh identifier sits above every stored session's owner
                let i = choose|i: int|
                    {
                        &&& 0 <= i < db.sessions@.len()
                        &&& crate::store::session_matches(#[trigger] db.sessions@[i], user.id, now)
                        &&& tok@ == db.sessions@[i].session_id@
                        &&& forall|k: int|
                            0 <= k < i ==> !crate::store::session_matches(
                                db.sessions@[k],
                                user.id,
                                now,
                            )
                    };
                if !pre.has_username(username@) {
                    assert(pre.sessions@[i].user_id == user.id);
                    assert(pre.has_user_id(user.id));
                    let c = choose|c: int|
                        0 <= c < pre.users@.len() && (#[trigger] pre.users@[c]).id == user.id;
                    assert(pre.users@[c].id < pre.next_user_id);
                    assert(user.id == pre.next_user_id);
                    assert(false);
                }
                assert(has_live_session_for(pre, username@, now)) by {
                    assert(user == pre.user_with_name(username@));
                    assert(crate::store::session_matches(
                        pre.sessions@[i],
                        pre.user_with_name(username@).id,
                        now,
                    ));
                }
            }
            let sess = match db.get_session(tok.as_str()) {
                Some(s) => s,
                None => {
                    proof {
                        assert(false);
                    }
                    return Err(ApiError::Db(ServiceError::Conflict));
                },
            };
            proof {
                assert(session_authenticates(*db, tok@, now)) by {
                    let i = choose|i: int|
                        {
                            &&& 0 <= i < db.sessions@.len()
                            &&& crate::store::session_matches(
                                #[trigger] db.sessions@[i],
                                user.id,
                                now,
                            )
                            &&& tok@ == db.sessions@[i].session_id@
                            &&& forall|k: int|
                                0 <= k < i ==> !crate::store::session_matches(
                                    db.sessions@[k],
                                    user.id,
                                    now,
                                )
                        };
                    assert(db.has_session(tok@)) by {
                        assert(db.sessions@[i].session_id@ == tok@);
                    }
                    let c = choose|c: int|
                        0 <= c < db.sessions@.len() && (#[trigger] db.sessions@[c]).session_id@
                            == tok@;
                    assert(c == i) by {
                        if c < i {
                            assert(db.sessions@[c].session_id@ != db.sessions@[i].session_id@);
                        } else if c > i {
                            assert(db.sessions@[i].session_id@ != db.sessions@[c].session_id@);
                        }
                    }
                }
            }
            Ok(TokenResp { token: tok, expires_at: sess.expires_at })
        },
        None => {
            let t = minted;
            let expires = now + (ttl_hours as u64) * 3600;
            proof {
                assert(db.has_user_id(user.id)) by {
                    let c = choose|c: int|
                        0 <= c < db.users@.len() && (#[trigger] db.users@[c]).username@
                            == username@;
                    assert(db.users@[c] == user);
                    assert(db.users@[c].id == user.id);
                }
            }
            match db.create_session(t.as_str(), user.id, expires, now) {
                Ok(()) => {
                    proof {
                        assert(session_authenticates(*db, t@, now));
                        assert(final(db).has_username(username@));
                        assert(db.user_with_name(username@) == after_user.user_with_name(
                            username@,
                        )) by {
                            let c = choose|c: int|
                                0 <= c < db.users@.len() && (#[trigger] db.users@[c]).username@
                                    == username@;
                            assert(after_user.users@[c].username@ == username@);
                            assert(after_user.has_username(username@));
                            let c2 = choose|c2: int|
                                0 <= c2 < after_user.users@.len() && (
                                #[trigger] after_user.users@[c2]).username@ == username@;
                            assert(c2 == c) by {
                                if c2 < c {
                                    assert(after_user.users@[c2].username@
                                        != after_user.users@[c].username@);
                                } else if c2 > c {
                                    assert(after_user.users@[c].username@
                                        != after_user.users@[c2].username@);
                                }
                            }
                        }
                    }
                    Ok(TokenResp { token: t, expires_at: expires })
                },
                Err(_) => Err(ApiError::Db(ServiceError::Conflict)),
            }
        },
    }
}

/// Issue a token for `username`: mint a fresh random token and store it
/// through `issue_token`, which reuses an existing valid session instead
/// where one is live. Fails only when the minted token collides with a
/// stored one.
pub fn token(db: &mut Db, username: &String, ttl_hours: i64, now: u64) -> (r: Result<
    TokenResp,
    ApiError,
>)
    requires
        old(db).wf(),
        old(db).next_user_id < i32::MAX,
        1 <= ttl_hours,
        now + (ttl_hours as u64) * 3600 <= u64::MAX,
    ensures
        final(db).wf(),
        final(db).tasks == old(db).tasks,
        final(db).instances == old(db).instances,
        final(db).has_username(username@),
        r matches Ok(resp) ==> {
            &&& session_authenticates(*final(db), resp.token@, now)
            &&& final(db).session_with(resp.token@).expires_at == resp.expires_at
            &&& final(db).session_with(resp.token@).user_id == final(db).user_with_name(
                username@,
            ).id
        },
        r is Err ==> r == Err::<TokenResp, ApiError>(ApiError::Db(ServiceError::Conflict)),
        has_live_session_for(*old(db), username@, now) ==> *final(db) == *old(db) && (
        r matches Ok(resp) && exists|i: int|
            {
                &&& 0 <= i < old(db).sessions@.len()
                &&& crate::store::session_matches(
                    #[trigger] old(db).sessions@[i],
                    old(db).user_with_name(username@).id,
                    now,
                )
                &&& resp.token@ == old(db).sessions@[i].session_id@
                &&& resp.expires_at == old(db).sessions@[i].expires_at
                &&& forall|k: int|
                    0 <= k < i ==> !crate::store::session_matches(
                        old(db).sessions@[k],
                        old(db).user_with_name(username@).id,
                        now,
                    )
            }),
{
    let minted = fresh_token();
    issue_token(db, username, minted, ttl_hours, now)
}

/// Whether the engine would accept a deployment draft's port: absent, or
/// reserved in the allocator and held by no running instance.
pub open spec fn draft_port_ok(d: Deployer, draft: TaskInstance) -> bool {
    match draft.port {
        Some(p) => d.ports.is_in_use(p) && !d.db.has_running_port(p),
        None => true,
    }
}

/// The cheap gates, checked before any engine work is spent on a request:
/// rejects callers at or over the quota, and tasks the store does not
/// know.
pub fn deploy_precheck(d: &Deployer, user_id: i32, req: &DeployReq) -> (r: Result<(), ApiError>)
    ensures
        count_running(d.db.instances@, user_id) >= d.cfg.sessions.max_instances ==> (
        r matches Err(e) && e matches ApiError::BadRequest(m) && m@ == "instance limit reached"@),
        count_running(d.db.instances@, user_id) < d.cfg.sessions.max_instances && !d.db.has_task(
            req.task@,
        ) ==> (r matches Err(e) && e matches ApiError::BadRequest(m) && m@ == "unknown task"@),
        count_running(d.db.instances@, user_id) < d.cfg.sessions.max_instances && d.db.has_task(
            req.task@,
        ) ==> r == Ok::<(), ApiError>(()),
{
    let running = d.db.count_running_instances_for_user(user_id);
    if running >= d.cfg.sessions.max_instances as usize {
        return Err(ApiError::BadRequest("instance limit reached".to_owned()));
    }
    if !d.db.has_task_named(&req.task) {
        return Err(ApiError::BadRequest("unknown task".to_owned()));
    }
    Ok(())
}

/// Persist a completed deployment for `user_id`, enforcing the quota
/// atomically with the insert. Rejects over-quota callers and unknown
/// tasks as bad requests, refuses a draft whose port is not cleanly
/// reserved, and surfaces an unknown user as a store failure.
pub fn deploy(d: &mut Deployer, user_id: i32, draft: &TaskInstance) -> (r: Result<
    TaskInstance,
    ApiError,
>)
    requires
        old(d).wf(),
        old(d).db.next_instance_id < i32::MAX,
    ensures
        final(d).wf(),
        final(d).cfg == old(d).cfg,
        final(d).ports == old(d).ports,
        final(d).db.users == old(d).db.users,
        final(d).db.sessions == old(d).db.sessions,
        final(d).db.tasks == old(d).db.tasks,
        count_running(old(d).db.instances@, user_id) >= old(d).cfg.sessions.max_instances ==> (
        r matches Err(e) && e matches ApiError::BadRequest(m) && m@ == "instance limit reached"@)
            && *final(d) == *old(d),
        count_running(old(d).db.instances@, user_id) < old(d).cfg.sessions.max_instances && !old(
            d,
        ).db.has_task(draft.task_name@) ==> (r matches Err(e) && e matches ApiError::BadRequest(m)
            && m@ == "unknown task"@) && *final(d) == *old(d),
        count_running(old(d).db.instances@, user_id) < old(d).cfg.sessions.max_instances && old(
            d,
        ).db.has_task(draft.task_name@) && !draft_port_ok(*old(d), *draft) ==> r == Err::<
            TaskInstance,
            ApiError,
        >(ApiError::Deploy(DeployError::Port(PortError::InvalidPort))) && *final(d) == *old(d),
        count_running(old(d).db.instances@, user_id) < old(d).cfg.sessions.max_instances && old(
            d,
        ).db.has_task(draft.task_name@) && draft_port_ok(*old(d), *draft) && !old(
            d,
        ).db.has_user_id(user_id) ==> r == Err::<TaskInstance, ApiError>(
            ApiError::Db(ServiceError::UnknownUser),
        ) && *final(d) == *old(d),
        count_running(old(d).db.instances@, user_id) < old(d).cfg.sessions.max_instances && old(
            d,
        ).db.has_task(draft.task_name@) && draft_port_ok(*old(d), *draft) && old(
            d,
        ).db.has_user_id(user_id) ==> (r matches Ok(saved) && {
            &&& saved == (TaskInstance { id: old(d).db.next_instance_id, user_id, ..*draft })
            &&& final(d).db.instances@ == old(d).db.instances@.push(saved)
            &&& final(d).db.next_instance_id == old(d).db.next_instance_id + 1
            &&& count_running(final(d).db.instances@, user_id)
                <= final(d).cfg.sessions.max_instances
        }),
{
    let ghost pre = *old(d);
    let running = d.db.count_running_instances_for_user(user_id);
    if running >= d.cfg.sessions.max_instances as usize {
        return Err(ApiError::BadRequest("instance limit reached".to_owned()));
    }
    if !d.db.has_task_named(&draft.task_name) {
        return Err(ApiError::BadRequest("unknown task".to_owned()));
    }
    match draft.port {
        Some(p) => {
            if !d.ports.contains_in_use(p) {
                return Err(ApiError::Deploy(DeployError::Port(PortError::InvalidPort)));
            }
            if d.db.any_running_with_port(p) {
                return Err(ApiError::Deploy(DeployError::Port(PortError::InvalidPort)));
            }
        },
        None => {},
    }
    match d.db.create_instance_for_user(draft, user_id) {
        Err(ServiceError::UnknownUser) => Err(ApiError::Db(ServiceError::UnknownUser)),
        Err(e) => {
            proof {
                assert(false);
            }
            Err(ApiError::Db(e))
        },
        Ok(saved) => {
            proof {
                let ghost newrow = saved;
                assert(d.db.instances@ == pre.db.instances@.push(newrow));
                // coupling: the new row's port was checked in use
                assert forall|i: int|
                    0 <= i < d.db.instances@.len() implies crate::deploy::instance_port_coupled(
                    #[trigger] d.db.instances@[i],
                    d.ports,
                ) by {
                    if i < pre.db.instances@.len() {
                        assert(crate::deploy::instance_port_coupled(
                            pre.db.instances@[i],
                            pre.ports,
                        ));
                    } else {
                        assert(d.db.instances@[i] == newrow);
                    }
                }
                // no running instance held the draft's port, so running
                // ports stay pairwise distinct
                assert forall|a: int, b: int|
                    0 <= a < b < d.db.instances@.len() implies crate::deploy::distinct_running_ports(
                    #[trigger] d.db.instances@[a],
                    #[trigger] d.db.instances@[b],
                ) by {
                    if b < pre.db.instances@.len() {
                        assert(crate::deploy::distinct_running_ports(
                            pre.db.instances@[a],
                            pre.db.instances@[b],
                        ));
                    } else {
                        assert(d.db.instances@[b] == newrow);
                        let aa = pre.db.instances@[a];
                        if aa.is_running() && newrow.is_running() {
                            match (aa.port, newrow.port) {
                                (Some(q), Some(p)) => {
                                    assert(!pre.db.has_running_port(p));
                                    if q == p {
                                        assert(pre.db.instances@[a].is_running()
                                            && pre.db.instances@[a].port == Some(p));
                                    }
                                },
                                _ => {},
                            }
                        }
                    }
                }
                // quota: the caller was below the limit, others are untouched
                assert forall|u: i32|
                    #[trigger] count_running(d.db.instances@, u)
                    <= d.cfg.sessions.max_instances by {
                    crate::store::lemma_count_running_push(pre.db.instances@, newrow, u);
                    assert(count_running(pre.db.instances@, u) <= pre.cfg.sessions.max_instances);
                    if u == user_id {
                        assert(count_running(pre.db.instances@, user_id)
                            < pre.cfg.sessions.max_instances);
                    } else {
                        assert(crate::store::running_contrib(newrow, u) == 0);
                    }
                }
            }
            Ok(saved)
        },
    }
}

/// Stop an instance on behalf of `user_id`: a missing identifier is a bad
/// request, someone else's instance is forbidden and left untouched, and
/// the caller's own instance is driven to `Stopped` with its port freed.
pub fn stop(d: &mut Deployer, user_id: i32, req: &ActionReq, now: u64) -> (r: Result<
    (),
    ApiError,
>)
    requires
        old(d).wf(),
    ensures
        final(d).wf(),
        final(d).cfg == old(d).cfg,
        !old(d).db.has_instance(req.instance_id) ==> (r matches Err(e) && e
            matches ApiError::BadRequest(m) && m@ == "Instance not found"@) && *final(d) == *old(d),
        old(d).db.has_instance(req.instance_id) && old(d).db.instances@[old(d).db.instance_index(
            req.instance_id,
        )].user_id != user_id ==> (r matches Err(e) && e matches ApiError::Forbidden(m) && m@
            == "Not your instance"@) && *final(d) == *old(d),
        old(d).db.has_instance(req.instance_id) && old(d).db.instances@[old(d).db.instance_index(
            req.instance_id,
        )].user_id == user_id ==> r == Ok::<(), ApiError>(()) && {
            let j = old(d).db.instance_index(req.instance_id);
            let row = old(d).db.instances@[j];
            &&& final(d).db.instances@ == old(d).db.instances@.update(
                j,
                TaskInstance { status: InstanceStatus::Stopped, expires_at: now, ..row },
            )
            &&& (match row.port {
                Some(p) => row.is_running() ==> final(d).ports.is_free(p),
                None => true,
            })
        },
{
    let row = match d.db.find_instance_by_id(req.instance_id) {
        None => {
            return Err(ApiError::BadRequest("Instance not found".to_owned()));
        },
        Some(row) => row,
    };
    if row.user_id != user_id {
        return Err(ApiError::Forbidden("Not your instance".to_owned()));
    }
    d.stop(&row, now);
    Ok(())
}

/// Restart an instance on behalf of `user_id`: ownership as for `stop`;
/// the instance keeps running with a fresh default TTL. A terminal
/// instance is refused rather than resurrected.
pub fn restart(d: &mut Deployer, user_id: i32, req: &ActionReq, now: u64) -> (r: Result<
    (),
    ApiError,
>)
    requires
        old(d).wf(),
        now + old(d).cfg.ports.default_ttl_secs <= u64::MAX,
    ensures
        final(d).wf(),
        final(d).cfg == old(d).cfg,
        final(d).ports == old(d).ports,
        !old(d).db.has_instance(req.instance_id) ==> (r matches Err(e) && e
            matches ApiError::BadRequest(m) && m@ == "Instance not found"@) && *final(d) == *old(d),
        old(d).db.has_instance(req.instance_id) && old(d).db.instances@[old(d).db.instance_index(
            req.instance_id,
        )].user_id != user_id ==> (r matches Err(e) && e matches ApiError::Forbidden(m) && m@
            == "Not your instance"@) && *final(d) == *old(d),
        old(d).db.has_instance(req.instance_id) && old(d).db.instances@[old(d).db.instance_index(
            req.instance_id,
        )].user_id == user_id && !old(d).db.instances@[old(d).db.instance_index(
            req.instance_id,
        )].is_running() ==> (r matches Err(e) && e matches ApiError::BadRequest(m) && m@
            == "instance not running"@) && *final(d) == *old(d),
        old(d).db.has_instance(req.instance_id) && old(d).db.instances@[old(d).db.instance_index(
            req.instance_id,
        )].user_id == user_id && old(d).db.instances@[old(d).db.instance_index(
            req.instance_id,
        )].is_running() ==> r == Ok::<(), ApiError>(()) && {
            let j = old(d).db.instance_index(req.instance_id);
            let row = old(d).db.instances@[j];
            final(d).db.instances@ == old(d).db.instances@.update(
                j,
                TaskInstance {
                    status: InstanceStatus::Running,
                    expires_at: (now + old(d).cfg.ports.default_ttl_secs) as u64,
                    ..row
                },
            )
        },
{
    let row = match d.db.find_instance_by_id(req.instance_id) {
        None => {
            return Err(ApiError::BadRequest("Instance not found".to_owned()));
        },
        Some(row) => row,
    };
    if row.user_id != user_id {
        return Err(ApiError::Forbidden("Not your instance".to_owned()));
    }
    match d.restart(&row, now) {
        Ok(()) => Ok(()),
        Err(_) => Err(ApiError::BadRequest("instance not running".to_owned())),
    }
}

/// Extend an instance's lifetime on behalf of `user_id` by the configured
/// extension window: ownership as for `stop`; the stored expiry moves to
/// `now + extend_time_secs`, the port's in-use score with it.
pub fn extend(d: &mut Deployer, user_id: i32, req: &ActionReq, now: u64) -> (r: Result<
    (),
    ApiError,
>)
    requires
        old(d).wf(),
        now + old(d).cfg.ports.extend_time_secs <= u64::MAX,
    ensures
        final(d).wf(),
        final(d).cfg == old(d).cfg,
        !old(d).db.has_instance(req.instance_id) ==> (r matches Err(e) && e
            matches ApiError::BadRequest(m) && m@ == "Instance not found"@) && *final(d) == *old(d),
        old(d).db.has_instance(req.instance_id) && old(d).db.instances@[old(d).db.instance_index(
            req.instance_id,
        )].user_id != user_id ==> (r matches Err(e) && e matches ApiError::Forbidden(m) && m@
            == "Not your instance"@) && *final(d) == *old(d),
        old(d).db.has_instance(req.instance_id) && old(d).db.instances@[old(d).db.instance_index(
            req.instance_id,
        )].user_id == user_id && r is Ok ==> {
            let j = old(d).db.instance_index(req.instance_id);
            let row = old(d).db.instances@[j];
            final(d).db.instances@ == old(d).db.instances@.update(
                j,
                TaskInstance {
                    expires_at: (now + old(d).cfg.ports.extend_time_secs) as u64,
                    ..row
                },
            )
        },
        old(d).db.has_instance(req.instance_id) && old(d).db.instances@[old(d).db.instance_index(
            req.instance_id,
        )].user_id == user_id ==> match old(d).db.instances@[old(d).db.instance_index(
            req.instance_id,
        )].port {
            Some(p) => (!old(d).ports.is_in_use(p) ==> r == Err::<(), ApiError>(
                ApiError::Deploy(DeployError::Port(PortError::InvalidPort)),
            ) && *final(d) == *old(d)) && (old(d).ports.is_in_use(p) ==> r is Ok),
            None => r is Ok,
        },
{
    let row = match d.db.find_instance_by_id(req.instance_id) {
        None => {
            return Err(ApiError::BadRequest("Instance not found".to_owned()));
        },
        Some(row) => row,
    };
    if row.user_id != user_id {
        return Err(ApiError::Forbidden("Not your instance".to_owned()));
    }
    let extra = d.cfg.ports.extend_time_secs;
    match d.extend(&row, extra, now) {
        Ok(()) => Ok(()),
        Err(e) => Err(ApiError::Deploy(e)),
    }
}

/// The caller's running instances, as the listing shows them: identifier,
/// task, seconds left, endpoint and status text.
pub fn list_instances(db: &Db, user_id: i32, now: u64) -> (r: Vec<InstanceListItem>)
    ensures
        r@.len() == running_for(db.instances@, user_id).len(),
        forall|i: int|
            0 <= i < r@.len() ==> {
                let src = running_for(db.instances@, user_id)[i];
                &&& (#[trigger] r@[i]).id == src.id
                &&& r@[i].task_name@ == src.task_name@
                &&& r@[i].endpoint@ == src.endpoint@
                &&& r@[i].status@ == status_name(src.status)
                &&& r@[i].expires_in_secs == (if src.expires_at > now {
                    src.expires_at - now
                } else {
                    0
                })
            },
{
    let rows = db.list_instances_for_user(user_id);
    let mut r: Vec<InstanceListItem> = Vec::new();
    let mut i: usize = 0;
    while i < rows.len()
        invariant
            rows@ == running_for(db.instances@, user_id),
            i <= rows@.len(),
            r@.len() == i,
            forall|k: int|
                0 <= k < i ==> {
                    let src = rows@[k];
                    &&& (#[trigger] r@[k]).id == src.id
                    &&& r@[k].task_name@ == src.task_name@
                    &&& r@[k].endpoint@ == src.endpoint@
                    &&& r@[k].status@ == status_name(src.status)
                    &&& r@[k].expires_in_secs == (if src.expires_at > now {
                        src.expires_at - now
                    } else {
                        0
                    })
                },
        decreases rows@.len() - i,
    {
        let row = &rows[i];
        let item = InstanceListItem {
            id: row.id,
            task_name: row.task_name.clone(),
            expires_in_secs: ttl_secs_until(row.expires_at, now),
            endpoint: row.endpoint.clone(),
            status: row.status.as_str().to_owned(),
        };
        r.push(item);
        i = i + 1;
    }
    r
}

/// The task entries shown to users: everything except `_default`.
pub open spec fn public_task_entries(s: Seq<(String, TaskConfig)>) -> Seq<(String, TaskConfig)>
    decreases s.len(),
{
    if s.len() == 0 {
        Seq::empty()
    } else {
        let rest = public_task_entries(s.drop_last());
        if s.last().0@ == "_default"@ {
            rest
        } else {
            rest.push(s.last())
        }
    }
}

/// The deployable tasks, one row each, excluding the `_default` fallback.
pub fn list_tasks(cfg: &Config) -> (r: Vec<TaskInfo>)
    ensures
        r@.len() == public_task_entries(cfg.tasks@).len(),
        forall|i: int|
            0 <= i < r@.len() ==> {
                let src = public_task_entries(cfg.tasks@)[i];
                &&& (#[trigger] r@[i]).name@ == src.0@
                &&& r@[i].protocol@ == src.1.protocol@
                &&& r@[i].container_port == src.1.container_port
            },
{
    let default_name = "_default".to_owned();
    let mut r: Vec<TaskInfo> = Vec::new();
    let mut i: usize = 0;
    while i < cfg.tasks.len()
        invariant
            default_name@ == "_default"@,
            i <= cfg.tasks@.len(),
            r@.len() == public_task_entries(cfg.tasks@.subrange(0, i as int)).len(),
            forall|k: int|
                0 <= k < r@.len() ==> {
                    let src = public_task_entries(cfg.tasks@.subrange(0, i as int))[k];
                    &&& (#[trigger] r@[k]).name@ == src.0@
                    &&& r@[k].protocol@ == src.1.protocol@
                    &&& r@[k].container_port == src.1.container_port
                },
        decreases cfg.tasks@.len() - i,
    {
        proof {
            let s = cfg.tasks@.subrange(0, i as int + 1);
            assert(s.drop_last() =~= cfg.tasks@.subrange(0, i as int));
            assert(s.last() == cfg.tasks@[i as int]);
        }
        if !(cfg.tasks[i].0 == default_name) {
            let entry = TaskInfo {
                name: cfg.tasks[i].0.clone(),
                protocol: cfg.tasks[i].1.protocol.clone(),
                container_port: cfg.tasks[i].1.container_port,
            };
            r.push(entry);
        }
        i = i + 1;
    }
    proof {
        assert(cfg.tasks@.subrange(0, cfg.tasks@.len() as int) =~= cfg.tasks@);
    }
    r
}

/// Law: a token the store holds authenticates every request until its
/// expiry passes — authentication at time `now2` asks exactly whether the
/// session exists and `now2` lies before its expiry, so any `now2` below
/// the expiry is accepted and any later one refused.
pub proof fn lemma_token_valid_until_expiry(db: Db, tok: Seq<char>, now2: u64)
    requires
        db.has_session(tok),
    ensures
        now2 < db.session_with(tok).expires_at <==> session_authenticates(db, tok, now2),
{
}

} // verus!
