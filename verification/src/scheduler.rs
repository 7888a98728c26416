//! The reaper: one sweep over the store that drives every expired running
//! instance to the `Stopped` terminal state and returns its reserved port.
//!
//! The surrounding process runs this periodically; each call is one tick.
//! A tick is idempotent, and a tick after a crash mid-sweep simply
//! re-attempts whatever is still marked running past its expiry.

use vstd::prelude::*;
use crate::deploy::Deployer;
use crate::models::{InstanceStatus, TaskInstance};

verus! {

/// One reaper sweep at time `now`. Afterwards no instance is both running
/// and past its expiry: every such instance has been stopped, with its
/// expiry pinned at `now` and its reserved port returned to the free pool;
/// everything else is untouched.
pub fn reap_tick(d: &mut Deployer, now: u64)
    requires
        old(d).wf(),
    ensures
        final(d).wf(),
        final(d).cfg == old(d).cfg,
        final(d).db.users == old(d).db.users,
        final(d).db.sessions == old(d).db.sessions,
        final(d).db.tasks == old(d).db.tasks,
        final(d).db.next_user_id == old(d).db.next_user_id,
        final(d).db.next_instance_id == old(d).db.next_instance_id,
        final(d).db.instances@.len() == old(d).db.instances@.len(),
        forall|k: int|
            0 <= k < old(d).db.instances@.len() && (#[trigger] old(
                d,
            ).db.instances@[k]).is_expired_at(now) ==> final(d).db.instances@[k] == (TaskInstance {
                status: InstanceStatus::Stopped,
                expires_at: now,
                ..old(d).db.instances@[k]
            }),
        forall|k: int|
            0 <= k < old(d).db.instances@.len() && !(#[trigger] old(
                d,
            ).db.instances@[k]).is_expired_at(now) ==> final(d).db.instances@[k] == old(
                d,
            ).db.instances@[k],
        forall|k: int|
            0 <= k < old(d).db.instances@.len() ==> match (#[trigger] old(
                d,
            ).db.instances@[k]).port {
                Some(p) => old(d).db.instances@[k].is_expired_at(now) ==> final(d).ports.is_free(
                    p,
                ),
                None => true,
            },
        forall|k: int|
            0 <= k < final(d).db.instances@.len()
                ==> !((#[trigger] final(d).db.instances@[k]).is_expired_at(now)),
{
    let ghost pre = *old(d);
    let mut i: usize = 0;
    while i < d.db.instances.len()
        invariant
            pre == *old(d),
            pre.wf(),
            d.wf(),
            d.cfg == pre.cfg,
            d.db.users == pre.db.users,
            d.db.sessions == pre.db.sessions,
            d.db.tasks == pre.db.tasks,
            d.db.next_user_id == pre.db.next_user_id,
            d.db.next_instance_id == pre.db.next_instance_id,
            d.db.instances@.len() == pre.db.instances@.len(),
            i <= d.db.instances@.len(),
            forall|k: int|
                i <= k < pre.db.instances@.len() ==> #[trigger] d.db.instances@[k]
                    == pre.db.instances@[k],
            forall|k: int|
                0 <= k < i && (#[trigger] pre.db.instances@[k]).is_expired_at(now)
                    ==> d.db.instances@[k] == (TaskInstance {
                    status: InstanceStatus::Stopped,
                    expires_at: now,
                    ..pre.db.instances@[k]
                }),
            forall|k: int|
                0 <= k < i && !(#[trigger] pre.db.instances@[k]).is_expired_at(now)
                    ==> d.db.instances@[k] == pre.db.instances@[k],
            forall|k: int|
                0 <= k < i ==> match (#[trigger] pre.db.instances@[k]).port {
                    Some(p) => pre.db.instances@[k].is_expired_at(now) ==> d.ports.is_free(p)
                        && !(d.ports.is_in_use(p)),
                    None => true,
                },
        decreases d.db.instances@.len() - i,
    {
        let row = d.db.instances[i].duplicate();
        let expired = matches!(row.status, InstanceStatus::Running) && row.expires_at < now;
        if expired {
            let ghost mid = *d;
            proof {
                assert(mid.db.instances@[i as int] == pre.db.instances@[i as int]);
                assert(mid.db.has_instance(row.id)) by {
                    assert(mid.db.instances@[i as int].id == row.id);
                }
                assert(mid.db.instance_index(row.id) == i as int) by {
                    let c = mid.db.instance_index(row.id);
                    assert(0 <= c < mid.db.instances@.len() && mid.db.instances@[c].id == row.id);
                    if c < i as int {
                        assert(mid.db.instances@[c].id != mid.db.instances@[i as int].id);
                    } else if c > i as int {
                        assert(mid.db.instances@[i as int].id != mid.db.instances@[c].id);
                    }
                }
            }
            d.stop(&row, now);
            proof {
                let j = i as int;
                assert(d.db.instances@ == mid.db.instances@.update(
                    j,
                    TaskInstance {
                        status: InstanceStatus::Stopped,
                        expires_at: now,
                        ..mid.db.instances@[j]
                    },
                ));
                // earlier-released ports stay free: two expired rows were
                // both running before the sweep, so their ports differ
                assert forall|k: int|
                    0 <= k < j + 1 implies match (#[trigger] pre.db.instances@[k]).port {
                    Some(p) => pre.db.instances@[k].is_expired_at(now) ==> d.ports.is_free(p) && !(
                    d.ports.is_in_use(p)),
                    None => true,
                } by {
                    match pre.db.instances@[k].port {
                        Some(p) => {
                            if pre.db.instances@[k].is_expired_at(now) {
                                if k == j {
                                    assert(d.ports.is_free(p));
                                } else {
                                    assert(mid.ports.is_free(p) && !(mid.ports.is_in_use(p)));
                                    match row.port {
                                        Some(rp) => {
                                            assert(crate::deploy::distinct_running_ports(
                                                pre.db.instances@[if k < j {
                                                    k
                                                } else {
                                                    j
                                                }],
                                                pre.db.instances@[if k < j {
                                                    j
                                                } else {
                                                    k
                                                }],
                                            ));
                                            assert(p != rp);
                                        },
                                        None => {},
                                    }
                                }
                            }
                        },
                        None => {},
                    }
                }
            }
        }
        i = i + 1;
    }
    proof {
        assert forall|k: int|
            0 <= k < final(d).db.instances@.len() implies !((#[trigger] final(
            d).db.instances@[k]).is_expired_at(now)) by {
            if pre.db.instances@[k].is_expired_at(now) {
                assert(final(d).db.instances@[k].status == InstanceStatus::Stopped);
            } else {
                assert(final(d).db.instances@[k] == pre.db.instances@[k]);
            }
        }
    }
}

} // verus!
