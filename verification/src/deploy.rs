//! The deployer: per-request planning of a container deployment, and the
//! lifecycle operations stop, restart and extend.
//!
//! Everything the container engine needs — image tag, network, router
//! labels, port binding — is computed here as plain data with an exact
//! specification; the engine call itself happens outside and hands back a
//! container identifier. A deployment that fails part-way is cancelled, and
//! cancellation returns the reserved port.

use vstd::prelude::*;
use vstd::string::StringExecFns;
use crate::config::Config;
use crate::ident::{fresh_token, fresh_uid};
use crate::models::{InstanceStatus, TaskInstance};
use crate::ports::{saturating_add, PortError, PortManager};
use crate::store::{count_running, Db, ServiceError};
use crate::textnum::{dec_digits, u16_to_dec};

verus! {

/// Why a deployment or lifecycle operation failed.
#[derive(PartialEq, Eq, Debug)]
pub enum DeployError {
    /// The container engine reported a failure.
    Docker(String),
    /// The port allocator refused the operation.
    Port(PortError),
    /// The record store refused the operation.
    Service(ServiceError),
    /// An image build ended with an error message.
    Build(String),
    /// The configuration cannot drive a deployment.
    Config(String),
    /// The named instance is missing or no longer running.
    NotRunning,
}

/// The one host-port publication of a planned container:
/// `container_port/tcp` exposed at `host_ip:host_port`.
pub struct PortBindingSpec {
    pub container_port_key: String,
    pub host_ip: String,
    pub host_port_str: String,
    pub host_port: u16,
}

/// Everything the container engine is asked to create: name, image,
/// network, router labels and the optional port binding.
pub struct ContainerSpec {
    pub name: String,
    pub image: String,
    pub network: String,
    pub labels: Vec<(String, String)>,
    pub binding: Option<PortBindingSpec>,
}

/// What a correct port binding holds.
pub open spec fn binding_ok(b: PortBindingSpec, cport: u16, host_port: u16) -> bool {
    &&& b.container_port_key@ == dec_digits(cport as nat) + "/tcp"@
    &&& b.host_ip@ == "0.0.0.0"@
    &&& b.host_port_str@ == dec_digits(host_port as nat)
    &&& b.host_port == host_port
}

/// What the five router labels of a proxied container hold: the router is
/// keyed by `uniq`, dispatches on the instance hostname, uses the
/// configured entry point, and points its service at the container port.
pub open spec fn labels_ok(
    ls: Seq<(String, String)>,
    http: bool,
    uniq: Seq<char>,
    hostname: Seq<char>,
    http_entry: Seq<char>,
    tcp_entry: Seq<char>,
    cport: u16,
) -> bool {
    &&& ls.len() == 5
    &&& ls[0].0@ == "traefik.enable"@ && ls[0].1@ == "true"@
    &&& ls[1].0@ == "traefik.docker.network"@ && ls[1].1@ == "ctf-net"@
    &&& http ==> {
        &&& ls[2].0@ == "traefik.http.routers."@ + uniq + ".rule"@
        &&& ls[2].1@ == "Host(`"@ + hostname + "`)"@
        &&& ls[3].0@ == "traefik.http.routers."@ + uniq + ".entrypoints"@
        &&& ls[3].1@ == http_entry
        &&& ls[4].0@ == "traefik.http.services."@ + uniq + ".loadbalancer.server.port"@
        &&& ls[4].1@ == dec_digits(cport as nat)
    }
    &&& !http ==> {
        &&& ls[2].0@ == "traefik.tcp.routers."@ + uniq + ".rule"@
        &&& ls[2].1@ == "HostSNI(`"@ + hostname + "`)"@
        &&& ls[3].0@ == "traefik.tcp.routers."@ + uniq + ".entrypoints"@
        &&& ls[3].1@ == tcp_entry
        &&& ls[4].0@ == "traefik.tcp.services."@ + uniq + ".loadbalancer.server.port"@
        &&& ls[4].1@ == dec_digits(cport as nat)
    }
}

/// What a correct container plan holds. Port routing publishes the binding
/// on the default bridge network with no labels; proxy routing joins the
/// proxy network and carries the router labels instead.
pub open spec fn container_spec_ok(
    c: ContainerSpec,
    port_mode: bool,
    http: bool,
    tag: Seq<char>,
    uniq: Seq<char>,
    hostname: Seq<char>,
    http_entry: Seq<char>,
    tcp_entry: Seq<char>,
    cport: u16,
    host_port: u16,
) -> bool {
    &&& c.name@ == tag
    &&& c.image@ == tag
    &&& port_mode ==> {
        &&& c.network@ == "bridge"@
        &&& c.labels@.len() == 0
        &&& c.binding matches Some(b) && binding_ok(b, cport, host_port)
    }
    &&& !port_mode ==> {
        &&& c.network@ == "ctf-net"@
        &&& c.binding is None
        &&& labels_ok(c.labels@, http, uniq, hostname, http_entry, tcp_entry, cport)
    }
}

/// The user-visible way to reach an instance, by routing scheme and
/// protocol: a URL on the shared domain and host port, a `nc` command on
/// them, a URL on the per-instance hostname, or a `nc` command against the
/// proxy's TCP entry port.
pub open spec fn endpoint_view(
    port_mode: bool,
    http: bool,
    domain: Seq<char>,
    hostname: Seq<char>,
    host_port: u16,
) -> Seq<char> {
    if port_mode {
        if http {
            "http://"@ + domain + ":"@ + dec_digits(host_port as nat)
        } else {
            "nc "@ + domain + " "@ + dec_digits(host_port as nat)
        }
    } else {
        if http {
            "http://"@ + hostname
        } else {
            "nc "@ + hostname + " 9000"@
        }
    }
}

/// A planned deployment, between planning and persistence: the reserved
/// port (under port routing), the image tag, the per-instance routing
/// identifier and hostname, the container plan and the endpoint.
pub struct DeployPrep {
    pub task_name: String,
    pub port: Option<u16>,
    pub tag: String,
    pub uniq: String,
    pub hostname: String,
    pub container: ContainerSpec,
    pub endpoint: String,
}

/// What a correct plan for `task_name` under `cfg` holds. The helper
/// `host_port` is the reserved port, or zero under proxy routing, where no
/// port is reserved.
pub open spec fn prep_ok(prep: DeployPrep, cfg: Config, task_name: Seq<char>) -> bool {
    let tc = cfg.resolved_task(task_name);
    let port_mode = cfg.is_port_variant();
    let hp = prep_host_port(prep);
    &&& prep.task_name@ == task_name
    &&& prep.uniq@.len() == 32
    &&& prep.hostname@ == prep.uniq@ + "."@ + cfg.routing.traefik_domain@
    &&& (port_mode <==> prep.port is Some)
    &&& container_spec_ok(
        prep.container,
        port_mode,
        tc.is_http(),
        prep.tag@,
        prep.uniq@,
        prep.hostname@,
        cfg.routing.http_entry@,
        cfg.routing.tcp_entry@,
        tc.container_port,
        hp,
    )
    &&& prep.endpoint@ == endpoint_view(
        port_mode,
        tc.is_http(),
        cfg.routing.domain@,
        prep.hostname@,
        hp,
    )
}

/// The reserved host port of a plan, or zero where none was reserved.
pub open spec fn prep_host_port(prep: DeployPrep) -> u16 {
    match prep.port {
        Some(p) => p,
        None => 0,
    }
}

/// Whether a stored instance's reserved port, if it is running and has
/// one, is held in the allocator's in-use pool.
pub open spec fn instance_port_coupled(inst: TaskInstance, pm: PortManager) -> bool {
    inst.is_running() ==> match inst.port {
        Some(p) => pm.is_in_use(p),
        None => true,
    }
}

/// Whether two stored instances avoid holding the same reserved port while
/// both running.
pub open spec fn distinct_running_ports(a: TaskInstance, b: TaskInstance) -> bool {
    a.is_running() && b.is_running() ==> match (a.port, b.port) {
        (Some(p), Some(q)) => p != q,
        _ => true,
    }
}

/// The lifecycle engine: the record store, the port allocator and the
/// configuration, kept consistent with one another.
pub struct Deployer {
    pub db: Db,
    pub ports: PortManager,
    pub cfg: Config,
}

impl Deployer {
    /// Consistency of the whole engine: each part well-formed, the
    /// allocator spanning the configured range, every running instance's
    /// port held in use, no port shared by two running instances, and
    /// every user within the configured instance quota.
    pub open spec fn wf(&self) -> bool {
        &&& self.db.wf()
        &&& self.ports.wf()
        &&& self.cfg.wf()
        &&& self.ports.min == self.cfg.ports.min
        &&& self.ports.max == self.cfg.ports.max
        &&& forall|i: int|
            0 <= i < self.db.instances@.len() ==> instance_port_coupled(
                #[trigger] self.db.instances@[i],
                self.ports,
            )
        &&& forall|i: int, j: int|
            0 <= i < j < self.db.instances@.len() ==> distinct_running_ports(
                #[trigger] self.db.instances@[i],
                #[trigger] self.db.instances@[j],
            )
        &&& forall|u: i32|
            #[trigger] count_running(self.db.instances@, u) <= self.cfg.sessions.max_instances
    }

    /// A fresh engine over `cfg`: an empty store and a full port pool.
    /// Fails with the first broken configuration rule.
    pub fn new(cfg: Config) -> (r: Result<Deployer, crate::config::ConfigError>)
        ensures
            match r {
                Ok(d) => {
                    &&& cfg.wf()
                    &&& d.wf()
                    &&& d.cfg == cfg
                    &&& d.db.users@.len() == 0
                    &&& d.db.sessions@.len() == 0
                    &&& d.db.tasks@.len() == 0
                    &&& d.db.instances@.len() == 0
                    &&& d.ports.in_use@.len() == 0
                    &&& d.ports.free@.len() == cfg.ports.max - cfg.ports.min + 1
                },
                Err(_) => !cfg.wf(),
            },
    {
        match cfg.validate() {
            Ok(()) => {},
            Err(e) => {
                return Err(e);
            },
        }
        let ports = PortManager::new(cfg.ports.min, cfg.ports.max, cfg.ports.default_ttl_secs);
        let db = Db::new();
        let d = Deployer { db, ports, cfg };
        proof {
            assert forall|u: i32|
                #[trigger] count_running(d.db.instances@, u) <= d.cfg.sessions.max_instances by {
                assert(count_running(d.db.instances@, u) == 0);
            }
        }
        Ok(d)
    }

    /// Plan a deployment of `task_name`: resolve its settings, reserve the
    /// smallest free host port under port routing, and compute the image
    /// tag, routing identifier, hostname, container plan and endpoint.
    /// Fails with `OutOfPorts` exactly when port routing finds the free
    /// pool empty.
    pub fn deploy_begin(&mut self, task_name: &String, now: u64) -> (r: Result<
        DeployPrep,
        DeployError,
    >)
        requires
            old(self).wf(),
            now + old(self).cfg.ports.default_ttl_secs <= u64::MAX,
        ensures
            final(self).wf(),
            final(self).db == old(self).db,
            final(self).cfg == old(self).cfg,
            final(self).ports.same_config(&old(self).ports),
            r matches Ok(prep) ==> prep_ok(prep, old(self).cfg, task_name@),
            old(self).cfg.is_port_variant() && old(self).ports.free@.len() == 0 ==> r == Err::<
                DeployPrep,
                DeployError,
            >(DeployError::Port(PortError::OutOfPorts)) && final(self).ports == old(self).ports,
            old(self).cfg.is_port_variant() && old(self).ports.free@.len() > 0 ==> (r matches Ok(
                prep,
            ) && {
                let p = old(self).ports.free@[0];
                &&& prep.port == Some(p)
                &&& final(self).ports.free@ == old(self).ports.free@.subrange(
                    1,
                    old(self).ports.free@.len() as int,
                )
                &&& final(self).ports.in_use@ == old(self).ports.in_use@.push(
                    (p, (now + old(self).cfg.ports.default_ttl_secs) as u64),
                )
            }),
            !old(self).cfg.is_port_variant() ==> final(self).ports == old(self).ports && (
            r matches Ok(prep) && prep.port is None),
    {
        let ghost pre = *old(self);
        let tc = self.cfg.resolve_task(task_name);
        let port_name = "port".to_owned();
        let port_mode = self.cfg.routing.variant == port_name;
        proof {
            assert(port_mode == pre.cfg.is_port_variant());
        }
        let port_opt: Option<u16> = if port_mode {
            let ttl = self.cfg.ports.default_ttl_secs;
            match self.ports.reserve_port(Some(ttl), now) {
                Ok(p) => Some(p),
                Err(e) => {
                    proof {
                        assert(pre.ports.free@.len() == 0);
                    }
                    return Err(DeployError::Port(e));
                },
            }
        } else {
            None
        };
        proof {
            // a grown in-use pool keeps every port that was in use
            assert forall|q: u16| pre.ports.is_in_use(q) implies self.ports.is_in_use(q) by {
                let a = choose|a: int|
                    0 <= a < pre.ports.in_use@.len() && (#[trigger] pre.ports.in_use@[a]).0 == q;
                assert(self.ports.in_use@[a].0 == q);
            }
            assert forall|i: int|
                0 <= i < self.db.instances@.len() implies instance_port_coupled(
                #[trigger] self.db.instances@[i],
                self.ports,
            ) by {
                assert(instance_port_coupled(pre.db.instances@[i], pre.ports));
            }
            assert forall|u: i32|
                #[trigger] count_running(self.db.instances@, u)
                <= self.cfg.sessions.max_instances by {
                assert(count_running(pre.db.instances@, u) <= pre.cfg.sessions.max_instances);
            }
        }
        let tag_uuid = fresh_token();
        let tag = "ctf-".to_owned().concat(task_name.as_str()).concat("-").concat(
            tag_uuid.as_str(),
        );
        let uniq = fresh_uid();
        let hostname = uniq.clone().concat(".").concat(self.cfg.routing.traefik_domain.as_str());
        let http_name = "http".to_owned();
        let is_http = tc.protocol == http_name;
        let container = if port_mode {
            let hp = match port_opt {
                Some(p) => p,
                None => 0,
            };
            let binding = PortBindingSpec {
                container_port_key: u16_to_dec(tc.container_port).concat("/tcp"),
                host_ip: "0.0.0.0".to_owned(),
                host_port_str: u16_to_dec(hp),
                host_port: hp,
            };
            ContainerSpec {
                name: tag.clone(),
                image: tag.clone(),
                network: "bridge".to_owned(),
                labels: Vec::new(),
                binding: Some(binding),
            }
        } else {
            let mut labels: Vec<(String, String)> = Vec::new();
            labels.push(("traefik.enable".to_owned(), "true".to_owned()));
            labels.push(("traefik.docker.network".to_owned(), "ctf-net".to_owned()));
            if is_http {
                labels.push(
                    (
                        "traefik.http.routers.".to_owned().concat(uniq.as_str()).concat(".rule"),
                        "Host(`".to_owned().concat(hostname.as_str()).concat("`)"),
                    ),
                );
                labels.push(
                    (
                        "traefik.http.routers.".to_owned().concat(uniq.as_str()).concat(
                            ".entrypoints",
                        ),
                        self.cfg.routing.http_entry.clone(),
                    ),
                );
                labels.push(
                    (
                        "traefik.http.services.".to_owned().concat(uniq.as_str()).concat(
                            ".loadbalancer.server.port",
                        ),
                        u16_to_dec(tc.container_port),
                    ),
                );
            } else {
                labels.push(
                    (
                        "traefik.tcp.routers.".to_owned().concat(uniq.as_str()).concat(".rule"),
                        "HostSNI(`".to_owned().concat(hostname.as_str()).concat("`)"),
                    ),
                );
                labels.push(
                    (
                        "traefik.tcp.routers.".to_owned().concat(uniq.as_str()).concat(
                            ".entrypoints",
                        ),
                        self.cfg.routing.tcp_entry.clone(),
                    ),
                );
                labels.push(
                    (
                        "traefik.tcp.services.".to_owned().concat(uniq.as_str()).concat(
                            ".loadbalancer.server.port",
                        ),
                        u16_to_dec(tc.container_port),
                    ),
                );
            }
            ContainerSpec {
                name: tag.clone(),
                image: tag.clone(),
                network: "ctf-net".to_owned(),
                labels,
                binding: None,
            }
        };
        let endpoint = if port_mode {
            let hp = match port_opt {
                Some(p) => p,
                None => 0,
            };
            if is_http {
                "http://".to_owned().concat(self.cfg.routing.domain.as_str()).concat(":").concat(
                    u16_to_dec(hp).as_str(),
                )
            } else {
                "nc ".to_owned().concat(self.cfg.routing.domain.as_str()).concat(" ").concat(
                    u16_to_dec(hp).as_str(),
                )
            }
        } else {
            if is_http {
                "http://".to_owned().concat(hostname.as_str())
            } else {
                "nc ".to_owned().concat(hostname.as_str()).concat(" 9000")
            }
        };
        let prep = DeployPrep {
            task_name: task_name.clone(),
            port: port_opt,
            tag,
            uniq,
            hostname,
            container,
            endpoint,
        };
        Ok(prep)
    }

    /// Abandon a planned deployment: return its reserved port to the free
    /// pool. The port is left alone in the unexpected case that a running
    /// instance already holds it.
    pub fn deploy_cancel(&mut self, prep: &DeployPrep)
        requires
            old(self).wf(),
        ensures
            final(self).wf(),
            final(self).db == old(self).db,
            final(self).cfg == old(self).cfg,
            final(self).ports.same_config(&old(self).ports),
            match prep.port {
                None => *final(self) == *old(self),
                Some(p) => !old(self).db.has_running_port(p) && old(self).ports.in_range(p)
                    ==> final(self).ports.is_free(p),
            },
    {
        let ghost pre = *old(self);
        match prep.port {
            None => {},
            Some(p) => {
                if !self.db.any_running_with_port(p) {
                    self.ports.release_port(p);
                    proof {
                        assert forall|i: int|
                            0 <= i < self.db.instances@.len() implies instance_port_coupled(
                            #[trigger] self.db.instances@[i],
                            self.ports,
                        ) by {
                            let inst = self.db.instances@[i];
                            assert(instance_port_coupled(inst, pre.ports));
                            if inst.is_running() {
                                match inst.port {
                                    Some(q) => {
                                        assert(q != p);
                                        assert(pre.ports.is_in_use(q));
                                        assert(pre.ports.in_range(q));
                                    },
                                    None => {},
                                }
                            }
                        }
                        assert forall|u: i32|
                            #[trigger] count_running(self.db.instances@, u)
                            <= self.cfg.sessions.max_instances by {
                            assert(count_running(pre.db.instances@, u)
                                <= pre.cfg.sessions.max_instances);
                        }
                    }
                }
            },
        }
    }

    /// The draft instance a completed plan persists: running, owned by
    /// nobody yet, expiring one default TTL from `now`.
    pub fn deploy_finish(&self, prep: &DeployPrep, container_id: String, now: u64) -> (r:
        TaskInstance)
        requires
            now + self.cfg.ports.default_ttl_secs <= u64::MAX,
        ensures
            r == (TaskInstance {
                id: 0,
                task_name: prep.task_name,
                container_id,
                port: prep.port,
                created_at: now,
                expires_at: (now + self.cfg.ports.default_ttl_secs) as u64,
                status: InstanceStatus::Running,
                user_id: 0,
                endpoint: prep.endpoint,
            }),
    {
        let expires_at = now + self.cfg.ports.default_ttl_secs;
        TaskInstance {
            id: 0,
            task_name: prep.task_name.clone(),
            container_id,
            port: match prep.port {
                Some(p) => Some(p),
                None => None,
            },
            created_at: now,
            expires_at,
            status: InstanceStatus::Running,
            user_id: 0,
            endpoint: prep.endpoint.clone(),
        }
    }

    /// Drive the instance stored under `inst.id` to the `Stopped` terminal
    /// state at time `now`, returning its reserved port to the free pool.
    /// Converges: stopping an already stopped instance rewrites the same
    /// terminal row and leaves the allocator alone, and a missing
    /// identifier changes nothing.
    pub fn stop(&mut self, inst: &TaskInstance, now: u64)
        requires
            old(self).wf(),
        ensures
            final(self).wf(),
            final(self).cfg == old(self).cfg,
            final(self).db.users == old(self).db.users,
            final(self).db.sessions == old(self).db.sessions,
            final(self).db.tasks == old(self).db.tasks,
            final(self).db.next_user_id == old(self).db.next_user_id,
            final(self).db.next_instance_id == old(self).db.next_instance_id,
            final(self).ports.same_config(&old(self).ports),
            !old(self).db.has_instance(inst.id) ==> *final(self) == *old(self),
            old(self).db.has_instance(inst.id) ==> {
                let j = old(self).db.instance_index(inst.id);
                let row = old(self).db.instances@[j];
                &&& final(self).db.instances@ == old(self).db.instances@.update(
                    j,
                    TaskInstance { status: InstanceStatus::Stopped, expires_at: now, ..row },
                )
                &&& (match row.port {
                    Some(p) => row.is_running() ==> final(self).ports.is_free(p)
                        && !(final(self).ports.is_in_use(p)),
                    None => true,
                })
                &&& !(row.is_running() && row.port is Some) ==> final(self).ports == old(
                    self,
                ).ports
                &&& forall|q: u16|
                    (match row.port {
                        Some(p) => q != p,
                        None => true,
                    }) ==> ((final(self).ports.is_free(q) <==> old(self).ports.is_free(q)) && (
                    final(self).ports.is_in_use(q) <==> old(self).ports.is_in_use(q)))
            },
    {
        let ghost pre = *old(self);
        let stored = self.db.find_instance_by_id(inst.id);
        match stored {
            None => {},
            Some(row) => {
                let ghost j = pre.db.instance_index(inst.id);
                let was_running = matches!(row.status, InstanceStatus::Running);
                self.db.update_instance(inst.id, InstanceStatus::Stopped, now);
                proof {
                    lemma_after_update_wf(pre, *self, j, InstanceStatus::Stopped, now);
                }
                if was_running {
                    match row.port {
                        Some(p) => {
                            let ghost mid = *self;
                            proof {
                                // a running row's port is in use, hence in range
                                assert(instance_port_coupled(pre.db.instances@[j], pre.ports));
                                assert(pre.ports.is_in_use(p));
                                let a = choose|a: int|
                                    0 <= a < pre.ports.in_use@.len() && (
                                    #[trigger] pre.ports.in_use@[a]).0 == p;
                                assert(pre.ports.in_range(p));
                            }
                            self.ports.release_port(p);
                            proof {
                                // no other running row holds p, so coupling survives
                                assert forall|i: int|
                                    0 <= i < self.db.instances@.len() implies instance_port_coupled(
                                    #[trigger] self.db.instances@[i],
                                    self.ports,
                                ) by {
                                    let cur = self.db.instances@[i];
                                    if i == j {
                                        assert(!cur.is_running());
                                    } else {
                                        assert(cur == pre.db.instances@[i]);
                                        assert(instance_port_coupled(
                                            pre.db.instances@[i],
                                            pre.ports,
                                        ));
                                        if cur.is_running() {
                                            match cur.port {
                                                Some(q) => {
                                                    assert(distinct_running_ports(
                                                        pre.db.instances@[if i < j {
                                                            i
                                                        } else {
                                                            j
                                                        }],
                                                        pre.db.instances@[if i < j {
                                                            j
                                                        } else {
                                                            i
                                                        }],
                                                    ));
                                                    assert(q != p);
                                                    assert(mid.ports.is_in_use(q));
                                                },
                                                None => {},
                                            }
                                        }
                                    }
                                }
                                assert forall|u: i32|
                                    #[trigger] count_running(self.db.instances@, u)
                                    <= self.cfg.sessions.max_instances by {
                                    assert(count_running(mid.db.instances@, u)
                                        <= pre.cfg.sessions.max_instances);
                                }
                            }
                        },
                        None => {},
                    }
                }
            },
        }
    }

    /// Mark the running instance stored under `inst.id` as freshly started:
    /// status kept `Running`, expiry one default TTL from `now`, port
    /// untouched. A missing or terminal instance is refused, never
    /// resurrected.
    pub fn restart(&mut self, inst: &TaskInstance, now: u64) -> (r: Result<(), DeployError>)
        requires
            old(self).wf(),
            now + old(self).cfg.ports.default_ttl_secs <= u64::MAX,
        ensures
            final(self).wf(),
            final(self).cfg == old(self).cfg,
            final(self).ports == old(self).ports,
            final(self).db.users == old(self).db.users,
            final(self).db.sessions == old(self).db.sessions,
            final(self).db.tasks == old(self).db.tasks,
            final(self).db.next_user_id == old(self).db.next_user_id,
            final(self).db.next_instance_id == old(self).db.next_instance_id,
            !(old(self).db.has_instance(inst.id) && old(self).db.instances@[old(
                self,
            ).db.instance_index(inst.id)].is_running()) ==> r == Err::<(), DeployError>(
                DeployError::NotRunning,
            ) && *final(self) == *old(self),
            old(self).db.has_instance(inst.id) && old(self).db.instances@[old(
                self,
            ).db.instance_index(inst.id)].is_running() ==> r == Ok::<(), DeployError>(()) && {
                let j = old(self).db.instance_index(inst.id);
                let row = old(self).db.instances@[j];
                final(self).db.instances@ == old(self).db.instances@.update(
                    j,
                    TaskInstance {
                        status: InstanceStatus::Running,
                        expires_at: (now + old(self).cfg.ports.default_ttl_secs) as u64,
                        ..row
                    },
                )
            },
    {
        let ghost pre = *old(self);
        let stored = self.db.find_instance_by_id(inst.id);
        match stored {
            None => Err(DeployError::NotRunning),
            Some(row) => {
                if !matches!(row.status, InstanceStatus::Running) {
                    return Err(DeployError::NotRunning);
                }
                let ghost j = pre.db.instance_index(inst.id);
                let new_expiry = now + self.cfg.ports.default_ttl_secs;
                self.db.update_instance(inst.id, InstanceStatus::Running, new_expiry);
                proof {
                    lemma_after_update_wf(pre, *self, j, InstanceStatus::Running, new_expiry);
                }
                Ok(())
            },
        }
    }

    /// Push the stored expiry of the instance under `inst.id` out to
    /// `now + extra_ttl_secs`, extending its reserved port's in-use score
    /// by the same amount first; the stored status is preserved. Fails
    /// with `InvalidPort` when the row names a port that is not in use.
    pub fn extend(&mut self, inst: &TaskInstance, extra_ttl_secs: u64, now: u64) -> (r: Result<
        (),
        DeployError,
    >)
        requires
            old(self).wf(),
            now + extra_ttl_secs <= u64::MAX,
        ensures
            final(self).wf(),
            final(self).cfg == old(self).cfg,
            final(self).ports.same_config(&old(self).ports),
            final(self).db.users == old(self).db.users,
            final(self).db.sessions == old(self).db.sessions,
            final(self).db.tasks == old(self).db.tasks,
            final(self).db.next_user_id == old(self).db.next_user_id,
            final(self).db.next_instance_id == old(self).db.next_instance_id,
            !old(self).db.has_instance(inst.id) ==> r == Err::<(), DeployError>(
                DeployError::NotRunning,
            ) && *final(self) == *old(self),
            old(self).db.has_instance(inst.id) ==> {
                let j = old(self).db.instance_index(inst.id);
                let row = old(self).db.instances@[j];
                match row.port {
                    Some(p) => {
                        &&& !old(self).ports.is_in_use(p) ==> r == Err::<(), DeployError>(
                            DeployError::Port(PortError::InvalidPort),
                        ) && *final(self) == *old(self)
                        &&& old(self).ports.is_in_use(p) ==> r == Ok::<(), DeployError>(()) && {
                            &&& final(self).db.instances@ == old(self).db.instances@.update(
                                j,
                                TaskInstance { expires_at: (now + extra_ttl_secs) as u64, ..row },
                            )
                            &&& final(self).ports.expiry_of(p) == saturating_add(
                                old(self).ports.expiry_of(p) as nat,
                                extra_ttl_secs as nat,
                            )
                            &&& final(self).ports.free@ == old(self).ports.free@
                            &&& forall|q: u16|
                                #[trigger] final(self).ports.is_in_use(q) <==> old(
                                self,
                            ).ports.is_in_use(q)
                        }
                    },
                    None => r == Ok::<(), DeployError>(()) && final(self).ports == old(self).ports
                        && final(self).db.instances@ == old(self).db.instances@.update(
                        j,
                        TaskInstance { expires_at: (now + extra_ttl_secs) as u64, ..row },
                    ),
                }
            },
    {
        let ghost pre = *old(self);
        let stored = self.db.find_instance_by_id(inst.id);
        match stored {
            None => Err(DeployError::NotRunning),
            Some(row) => {
                let ghost j = pre.db.instance_index(inst.id);
                match row.port {
                    Some(p) => {
                        match self.ports.extend_port(p, extra_ttl_secs) {
                            Ok(()) => {},
                            Err(e) => {
                                return Err(DeployError::Port(e));
                            },
                        }
                    },
                    None => {},
                }
                let ghost mid = *self;
                proof {
                    // extending expiries moves no port between the pools
                    assert(mid.db == pre.db);
                    assert forall|i: int|
                        0 <= i < self.db.instances@.len() implies instance_port_coupled(
                        #[trigger] self.db.instances@[i],
                        self.ports,
                    ) by {
                        let cur = self.db.instances@[i];
                        assert(instance_port_coupled(pre.db.instances@[i], pre.ports));
                        if cur.is_running() {
                            match cur.port {
                                Some(q) => {
                                    assert(pre.ports.is_in_use(q));
                                },
                                None => {},
                            }
                        }
                    }
                    assert forall|u: i32|
                        #[trigger] count_running(self.db.instances@, u)
                        <= self.cfg.sessions.max_instances by {
                        assert(count_running(pre.db.instances@, u)
                            <= pre.cfg.sessions.max_instances);
                    }
                    assert(mid.wf());
                }
                let new_expiry = now + extra_ttl_secs;
                self.db.update_instance(inst.id, row.status, new_expiry);
                proof {
                    lemma_after_update_wf(mid, *self, j, row.status, new_expiry);
                    assert(self.db.instances@ =~= pre.db.instances@.update(
                        j,
                        TaskInstance {
                            expires_at: new_expiry,
                            ..pre.db.instances@[j]
                        },
                    ));
                }
                Ok(())
            },
        }
    }
}

/// Law: for every running instance the store holds, the port named in its
/// row — when it names one — is in the allocator's in-use pool. This is
/// part of the engine's well-formedness, which every operation preserves.
pub proof fn lemma_running_port_in_use(d: Deployer, i: int)
    requires
        d.wf(),
        0 <= i < d.db.instances@.len(),
        d.db.instances@[i].is_running(),
    ensures
        match d.db.instances@[i].port {
            Some(p) => d.ports.is_in_use(p),
            None => true,
        },
{
    assert(instance_port_coupled(d.db.instances@[i], d.ports));
}

/// Law: at quiescence no user's running-instance count exceeds the
/// configured quota. This too is part of the engine's well-formedness,
/// which every operation preserves.
pub proof fn lemma_quota_respected(d: Deployer, u: i32)
    requires
        d.wf(),
    ensures
        count_running(d.db.instances@, u) <= d.cfg.sessions.max_instances,
{
}

/// Law: stopping an instance is idempotent. A second stop at the same
/// time finds the row already in the terminal state it would write, so
/// the store is unchanged; and since the row is no longer running, the
/// allocator is untouched as well — `Deployer::stop`'s contract gives
/// `post.ports == mid.ports` directly for such a row.
pub proof fn lemma_stop_idempotent(mid: Deployer, post: Deployer, id: i32, now: u64)
    requires
        mid.wf(),
        mid.db.has_instance(id),
        mid.db.instances@[mid.db.instance_index(id)].status == InstanceStatus::Stopped,
        mid.db.instances@[mid.db.instance_index(id)].expires_at == now,
        // what the second stop writes, as `Deployer::stop` ensures it
        post.db.instances@ == mid.db.instances@.update(
            mid.db.instance_index(id),
            TaskInstance {
                status: InstanceStatus::Stopped,
                expires_at: now,
                ..mid.db.instances@[mid.db.instance_index(id)]
            },
        ),
        post.ports == mid.ports,
    ensures
        post.db.instances@ == mid.db.instances@,
        post.ports == mid.ports,
{
    let j = mid.db.instance_index(id);
    assert(post.db.instances@ =~= mid.db.instances@);
}

/// After one row of a well-formed engine's store is overwritten with a new
/// status and expiry, the engine is well-formed again, provided the write
/// does not turn a non-running row into a running one.
proof fn lemma_after_update_wf(
    pre: Deployer,
    post: Deployer,
    j: int,
    status: InstanceStatus,
    expires_at: u64,
)
    requires
        pre.wf(),
        0 <= j < pre.db.instances@.len(),
        post.db.wf(),
        post.ports == pre.ports,
        post.cfg == pre.cfg,
        post.db.instances@ == pre.db.instances@.update(
            j,
            TaskInstance { status, expires_at, ..pre.db.instances@[j] },
        ),
        status == InstanceStatus::Running ==> pre.db.instances@[j].is_running(),
    ensures
        post.wf(),
{
    let old_row = pre.db.instances@[j];
    let new_row = TaskInstance { status, expires_at, ..old_row };
    assert forall|i: int|
        0 <= i < post.db.instances@.len() implies instance_port_coupled(
        #[trigger] post.db.instances@[i],
        post.ports,
    ) by {
        assert(instance_port_coupled(pre.db.instances@[i], pre.ports));
        if i == j {
            if new_row.is_running() {
                assert(old_row.is_running());
            }
        }
    }
    assert forall|a: int, b: int|
        0 <= a < b < post.db.instances@.len() implies distinct_running_ports(
        #[trigger] post.db.instances@[a],
        #[trigger] post.db.instances@[b],
    ) by {
        assert(distinct_running_ports(pre.db.instances@[a], pre.db.instances@[b]));
        if a == j || b == j {
            if new_row.is_running() {
                assert(old_row.is_running());
            }
        }
    }
    assert forall|u: i32|
        #[trigger] count_running(post.db.instances@, u) <= post.cfg.sessions.max_instances by {
        crate::store::lemma_count_running_update(pre.db.instances@, j, new_row, u);
        assert(count_running(pre.db.instances@, u) <= pre.cfg.sessions.max_instances);
        assert(crate::store::running_contrib(new_row, u) <= crate::store::running_contrib(
            old_row,
            u,
        ));
    }
}

} // verus!
