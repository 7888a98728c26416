//! Typed configuration: routing scheme, port range, session policy and task
//! entries.
//!
//! The routing variant is a closed set, `port` or `traefik`; anything else
//! is refused at startup. The task table must carry a `_default` entry, the
//! fallback for tasks without a section of their own.

use vstd::prelude::*;
use vstd::string::StringExecFns;

verus! {

/// Why a configuration was refused at startup.
#[derive(Clone, Copy, PartialEq, Eq, Structural, Debug)]
pub enum ConfigError {
    /// `routing.variant` names no known routing scheme.
    UnknownVariant,
    /// The task table has no `_default` entry.
    MissingDefaultTask,
    /// Two task entries share a name.
    DuplicateTask,
    /// The port range is empty (`min > max`).
    EmptyPortRange,
}

/// How instances are reached: a published host port per instance, or a
/// reverse proxy dispatching on hostname.
pub struct RoutingConfig {
    pub variant: String,
    pub domain: String,
    pub traefik_domain: String,
    pub http_entry: String,
    pub tcp_entry: String,
}

/// Per-task settings: wire protocol and the port the workload listens on
/// inside its container.
pub struct TaskConfig {
    pub protocol: String,
    pub container_port: u16,
}

impl TaskConfig {
    /// An owned copy equal to `self`.
    pub fn duplicate(&self) -> (r: TaskConfig)
        ensures
            r == *self,
    {
        TaskConfig { protocol: self.protocol.clone(), container_port: self.container_port }
    }

    /// Whether the task speaks HTTP; anything else is treated as raw TCP.
    pub open spec fn is_http(&self) -> bool {
        self.protocol@ == "http"@
    }
}

/// The protocol a task uses when its entry leaves it unsaid.
pub fn default_protocol() -> (r: String)
    ensures
        r@ == "http"@,
{
    "http".to_owned()
}

/// The container port a task uses when its entry leaves it unsaid.
pub fn default_cport() -> (r: u16)
    ensures
        r == 3000,
{
    3000
}

/// The host port pool and its TTLs, in seconds.
pub struct Ports {
    pub min: u16,
    pub max: u16,
    pub default: u16,
    pub default_ttl_secs: u64,
    pub extend_time_secs: u64,
}

/// How often the reaper sweeps, in seconds.
pub struct Scheduler {
    pub poll_interval_secs: u64,
}

/// Where the relational store lives.
pub struct Database {
    pub url: String,
}

/// Where the shared key-value store lives.
pub struct Redis {
    pub url: String,
}

/// Session issuance policy: token lifetime and the per-user cap on
/// concurrently running instances.
pub struct Sessions {
    pub ttl_hours: i64,
    pub max_instances: u16,
}

/// The CAPTCHA verifier's endpoint and keys.
pub struct Captcha {
    pub provider: String,
    pub site_key: String,
    pub secret_key: String,
    pub verify_url: String,
}

/// The whole service configuration.
pub struct Config {
    pub routing: RoutingConfig,
    pub tasks: Vec<(String, TaskConfig)>,
    pub ports: Ports,
    pub database: Database,
    pub redis: Redis,
    pub captcha: Captcha,
    pub scheduler: Scheduler,
    pub sessions: Sessions,
}

impl Config {
    /// Whether the configuration routes by published host port.
    pub open spec fn is_port_variant(&self) -> bool {
        self.routing.variant@ == "port"@
    }

    /// Whether the configuration routes through the reverse proxy.
    pub open spec fn is_traefik_variant(&self) -> bool {
        self.routing.variant@ == "traefik"@
    }

    /// Whether the task table has an entry named `name`.
    pub open spec fn has_task_entry(&self, name: Seq<char>) -> bool {
        exists|i: int| 0 <= i < self.tasks@.len() && (#[trigger] self.tasks@[i]).0@ == name
    }

    /// The entry named `name` (meaningful when `has_task_entry`).
    pub open spec fn task_entry(&self, name: Seq<char>) -> TaskConfig {
        self.tasks@[choose|i: int|
            0 <= i < self.tasks@.len() && (#[trigger] self.tasks@[i]).0@ == name].1
    }

    /// The entry a task name resolves to: its own, or `_default`.
    pub open spec fn resolved_task(&self, name: Seq<char>) -> TaskConfig {
        if self.has_task_entry(name) {
            self.task_entry(name)
        } else {
            self.task_entry("_default"@)
        }
    }

    /// A configuration the service can start with: a known routing variant,
    /// unique task names, a `_default` entry, and a nonempty port range.
    pub open spec fn wf(&self) -> bool {
        &&& self.is_port_variant() || self.is_traefik_variant()
        &&& forall|i: int, j: int|
            0 <= i < j < self.tasks@.len() ==> (#[trigger] self.tasks@[i]).0@ != (
            #[trigger] self.tasks@[j]).0@
        &&& self.has_task_entry("_default"@)
        &&& self.ports.min <= self.ports.max
    }

    /// Whether two task entries share a name.
    pub open spec fn has_duplicate_task(&self) -> bool {
        exists|i: int, j: int|
            0 <= i < j < self.tasks@.len() && (#[trigger] self.tasks@[i]).0@ == (
            #[trigger] self.tasks@[j]).0@
    }

    /// Check `wf` at startup; a refused configuration reports the first
    /// broken rule, in the order of the `wf` clauses.
    pub fn validate(&self) -> (r: Result<(), ConfigError>)
        ensures
            r is Ok <==> self.wf(),
            !(self.is_port_variant() || self.is_traefik_variant()) ==> r == Err::<(), ConfigError>(
                ConfigError::UnknownVariant,
            ),
            (self.is_port_variant() || self.is_traefik_variant()) && self.has_duplicate_task()
                ==> r == Err::<(), ConfigError>(ConfigError::DuplicateTask),
            (self.is_port_variant() || self.is_traefik_variant()) && !self.has_duplicate_task()
                && !self.has_task_entry("_default"@) ==> r == Err::<(), ConfigError>(
                ConfigError::MissingDefaultTask,
            ),
            (self.is_port_variant() || self.is_traefik_variant()) && !self.has_duplicate_task()
                && self.has_task_entry("_default"@) && self.ports.min > self.ports.max ==> r
                == Err::<(), ConfigError>(ConfigError::EmptyPortRange),
    {
        let port_name = "port".to_owned();
        let traefik_name = "traefik".to_owned();
        if !(self.routing.variant == port_name || self.routing.variant == traefik_name) {
            return Err(ConfigError::UnknownVariant);
        }
        let mut i: usize = 0;
        while i < self.tasks.len()
            invariant
                self.is_port_variant() || self.is_traefik_variant(),
                i <= self.tasks@.len(),
                forall|a: int, b: int|
                    0 <= a < b < self.tasks@.len() && a < i ==> (#[trigger] self.tasks@[a]).0@ != (
                    #[trigger] self.tasks@[b]).0@,
            decreases self.tasks@.len() - i,
        {
            let mut j: usize = i + 1;
            while j < self.tasks.len()
                invariant
                    self.is_port_variant() || self.is_traefik_variant(),
                    i < j <= self.tasks@.len() || (i >= self.tasks@.len() && j == i + 1),
                    i < self.tasks@.len(),
                    forall|b: int| i < b < j ==> (#[trigger] self.tasks@[b]).0@ != self.tasks@[
                        i as int].0@,
                decreases self.tasks@.len() - j,
            {
                if self.tasks[i].0 == self.tasks[j].0 {
                    proof {
                        assert(self.tasks@[i as int].0@ == self.tasks@[j as int].0@);
                        assert(self.has_duplicate_task());
                    }
                    return Err(ConfigError::DuplicateTask);
                }
                j = j + 1;
            }
            i = i + 1;
        }
        let default_name = "_default".to_owned();
        if !self.has_entry(&default_name) {
            return Err(ConfigError::MissingDefaultTask);
        }
        if self.ports.min > self.ports.max {
            return Err(ConfigError::EmptyPortRange);
        }
        Ok(())
    }

    /// Whether the task table has an entry named `name`.
    pub fn has_entry(&self, name: &String) -> (r: bool)
        ensures
            r == self.has_task_entry(name@),
    {
        let mut i: usize = 0;
        while i < self.tasks.len()
            invariant
                i <= self.tasks@.len(),
                forall|k: int| 0 <= k < i ==> (#[trigger] self.tasks@[k]).0@ != name@,
            decreases self.tasks@.len() - i,
        {
            if self.tasks[i].0 == *name {
                return true;
            }
            i = i + 1;
        }
        false
    }

    /// The settings for `task_name`: its own entry, or the `_default` one.
    pub fn resolve_task(&self, task_name: &String) -> (r: TaskConfig)
        requires
            self.wf(),
        ensures
            r == self.resolved_task(task_name@),
    {
        let ghost target: Seq<char> = if self.has_task_entry(task_name@) {
            task_name@
        } else {
            "_default"@
        };
        let mut i: usize = 0;
        while i < self.tasks.len()
            invariant
                self.wf(),
                i <= self.tasks@.len(),
                forall|k: int| 0 <= k < i ==> (#[trigger] self.tasks@[k]).0@ != task_name@,
            decreases self.tasks@.len() - i,
        {
            if self.tasks[i].0 == *task_name {
                let r = self.tasks[i].1.duplicate();
                proof {
                    let k = i as int;
                    assert(self.has_task_entry(task_name@));
                    let c = choose|c: int|
                        0 <= c < self.tasks@.len() && (#[trigger] self.tasks@[c]).0@ == task_name@;
                    assert(c == k) by {
                        if c < k {
                            assert(self.tasks@[c].0@ != self.tasks@[k].0@);
                        } else if c > k {
                            assert(self.tasks@[k].0@ != self.tasks@[c].0@);
                        }
                    }
                }
                return r;
            }
            i = i + 1;
        }
        proof {
            assert(!self.has_task_entry(task_name@));
        }
        let default_name = "_default".to_owned();
        let mut j: usize = 0;
        while j < self.tasks.len()
            invariant
                self.wf(),
                !self.has_task_entry(task_name@),
                default_name@ == "_default"@,
                j <= self.tasks@.len(),
                forall|k: int| 0 <= k < j ==> (#[trigger] self.tasks@[k]).0@ != "_default"@,
            decreases self.tasks@.len() - j,
        {
            if self.tasks[j].0 == default_name {
                let r = self.tasks[j].1.duplicate();
                proof {
                    let k = j as int;
                    let c = choose|c: int|
                        0 <= c < self.tasks@.len() && (#[trigger] self.tasks@[c]).0@
                            == "_default"@;
                    assert(c == k) by {
                        if c < k {
                            assert(self.tasks@[c].0@ != self.tasks@[k].0@);
                        } else if c > k {
                            assert(self.tasks@[k].0@ != self.tasks@[c].0@);
                        }
                    }
                }
                return r;
            }
            j = j + 1;
        }
        proof {
            assert(!self.has_task_entry("_default"@));
            assert(false);
        }
        unreached()
    }
}

} // verus!
