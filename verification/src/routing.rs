//! The user-visible access string of a stored instance: a URL for HTTP
//! tasks, a `nc` command line for raw TCP ones, against the shared domain
//! and host port under port routing, or the per-instance hostname under
//! proxy routing.

use vstd::prelude::*;
use vstd::string::StringExecFns;
use crate::config::Config;
use crate::models::TaskInstance;
use crate::textnum::{dec_digits, u16_to_dec};

verus! {

/// How a user reaches an instance: by URL, or by a shell command line.
pub enum AccessInfo {
    HttpUrl(String),
    TcpCmd(String),
}

/// The host an instance answers on: its own hostname under proxy routing,
/// the shared domain under port routing.
pub open spec fn access_host(inst: TaskInstance, cfg: Config) -> Seq<char> {
    if cfg.is_traefik_variant() {
        inst.container_id@ + "."@ + cfg.routing.traefik_domain@
    } else {
        cfg.routing.domain@
    }
}

/// The instance's reserved host port, or zero where none was reserved.
pub open spec fn access_port(inst: TaskInstance) -> u16 {
    match inst.port {
        Some(p) => p,
        None => 0,
    }
}

/// What the computed access string holds, by routing scheme and protocol.
pub open spec fn access_info_ok(r: AccessInfo, inst: TaskInstance, cfg: Config) -> bool {
    let host = access_host(inst, cfg);
    let http = cfg.resolved_task(inst.task_name@).is_http();
    if cfg.is_port_variant() {
        if http {
            r matches AccessInfo::HttpUrl(u) && u@ == "http://"@ + host + ":"@ + dec_digits(
                access_port(inst) as nat,
            )
        } else {
            r matches AccessInfo::TcpCmd(c) && c@ == "nc "@ + host + " "@ + dec_digits(
                access_port(inst) as nat,
            )
        }
    } else {
        if http {
            r matches AccessInfo::HttpUrl(u) && u@ == "http://"@ + host + "/"@
        } else {
            r matches AccessInfo::TcpCmd(c) && c@ == "nc "@ + host + " 9000"@
        }
    }
}

/// Compute the access string for a stored instance.
pub fn generate_access_info(inst: &TaskInstance, cfg: &Config) -> (r: AccessInfo)
    requires
        cfg.wf(),
    ensures
        access_info_ok(r, *inst, *cfg),
{
    let tc = cfg.resolve_task(&inst.task_name);
    let traefik_name = "traefik".to_owned();
    let is_traefik = cfg.routing.variant == traefik_name;
    proof {
        assert(is_traefik == cfg.is_traefik_variant());
        if !is_traefik {
            assert(cfg.is_port_variant());
        } else {
            // the two variant names differ already in length
            reveal_strlit("port");
            reveal_strlit("traefik");
            assert("port"@.len() == 4);
            assert("traefik"@.len() == 7);
            assert(!cfg.is_port_variant());
        }
    }
    let host = if is_traefik {
        inst.container_id.clone().concat(".").concat(cfg.routing.traefik_domain.as_str())
    } else {
        cfg.routing.domain.clone()
    };
    let http_name = "http".to_owned();
    let is_http = tc.protocol == http_name;
    let port = match inst.port {
        Some(p) => p,
        None => 0,
    };
    if !is_traefik {
        if is_http {
            AccessInfo::HttpUrl(
                "http://".to_owned().concat(host.as_str()).concat(":").concat(
                    u16_to_dec(port).as_str(),
                ),
            )
        } else {
            AccessInfo::TcpCmd(
                "nc ".to_owned().concat(host.as_str()).concat(" ").concat(
                    u16_to_dec(port).as_str(),
                ),
            )
        }
    } else {
        if is_http {
            AccessInfo::HttpUrl("http://".to_owned().concat(host.as_str()).concat("/"))
        } else {
            AccessInfo::TcpCmd("nc ".to_owned().concat(host.as_str()).concat(" 9000"))
        }
    }
}

} // verus!
