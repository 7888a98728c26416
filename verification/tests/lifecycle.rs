use ctfdeploy::config::{
    Captcha, Config, Database, Ports, Redis, RoutingConfig, Scheduler, Sessions, TaskConfig,
};
use ctfdeploy::deploy::{DeployError, Deployer};
use ctfdeploy::gateway::{self, ActionReq, ApiError, DeployReq};
use ctfdeploy::models::InstanceStatus;
use ctfdeploy::ports::PortError;
use ctfdeploy::scheduler::reap_tick;

fn test_config(variant: &str, port_min: u16, port_max: u16, max_instances: u16) -> Config {
    Config {
        routing: RoutingConfig {
            variant: variant.to_string(),
            domain: "localhost".to_string(),
            traefik_domain: "ctf.local".to_string(),
            http_entry: "web".to_string(),
            tcp_entry: "tcp".to_string(),
        },
        tasks: vec![
            (
                "_default".to_string(),
                TaskConfig {
                    protocol: "http".to_string(),
                    container_port: 3000,
                },
            ),
            (
                "foo_task".to_string(),
                TaskConfig {
                    protocol: "tcp".to_string(),
                    container_port: 4000,
                },
            ),
        ],
        ports: Ports {
            min: port_min,
            max: port_max,
            default: port_min,
            default_ttl_secs: 60,
            extend_time_secs: 600,
        },
        database: Database {
            url: String::new(),
        },
        redis: Redis {
            url: String::new(),
        },
        captcha: Captcha {
            provider: String::new(),
            site_key: String::new(),
            secret_key: String::new(),
            verify_url: String::new(),
        },
        scheduler: Scheduler {
            poll_interval_secs: 5,
        },
        sessions: Sessions {
            ttl_hours: 1,
            max_instances,
        },
    }
}

fn engine(variant: &str, port_min: u16, port_max: u16, max_instances: u16) -> Deployer {
    let mut d = Deployer::new(test_config(variant, port_min, port_max, max_instances)).unwrap();
    d.db.ensure_task(
        &"foo_task".to_string(),
        &"./tasks/foo_task".to_string(),
        0,
    );
    d.db.ensure_task(
        &"web_task".to_string(),
        &"./tasks/web_task".to_string(),
        0,
    );
    d
}

fn deploy_once(d: &mut Deployer, user_id: i32, task: &str, now: u64) -> Result<i32, ApiError> {
    let req = DeployReq {
        task: task.to_string(),
        captcha_token: String::new(),
    };
    gateway::deploy_precheck(d, user_id, &req)?;
    let prep = d
        .deploy_begin(&req.task, now)
        .map_err(ApiError::Deploy)?;
    let draft = d.deploy_finish(&prep, format!("container-{}", now), now);
    let saved = gateway::deploy(d, user_id, &draft)?;
    Ok(saved.id)
}

#[test]
fn token_reuse_returns_same_token() {
    let mut d = engine("port", 30000, 30010, 2);
    let now: u64 = 1_000;
    let first = gateway::token(&mut d.db, &"alice".to_string(), 1, now).unwrap();
    let second = gateway::token(&mut d.db, &"alice".to_string(), 1, now + 5).unwrap();
    assert_eq!(first.token, second.token);
    assert_eq!(first.expires_at, second.expires_at);
    assert_eq!(first.expires_at, now + 3600);
    assert_eq!(first.token.len(), 36);
}

#[test]
fn minted_token_is_stored_as_given() {
    let mut d = engine("port", 30000, 30010, 2);
    let resp = gateway::issue_token(
        &mut d.db,
        &"alice".to_string(),
        "minted-token".to_string(),
        1,
        100,
    )
    .unwrap();
    assert_eq!(resp.token, "minted-token");
    assert_eq!(resp.expires_at, 100 + 3600);
    let user = gateway::authenticate(&d.db, Some(&"Bearer minted-token".to_string()), 200).unwrap();
    assert_eq!(user.username, "alice");
}

#[test]
fn minted_token_collision_is_conflict() {
    let mut d = engine("port", 30000, 30010, 2);
    let bob = d.db.find_or_create_user(&"bob".to_string(), 0);
    // bob's session is long dead by the time alice asks
    d.db.create_session("known-token", bob.id, 50, 0).unwrap();
    match gateway::issue_token(
        &mut d.db,
        &"alice".to_string(),
        "known-token".to_string(),
        1,
        100,
    ) {
        Err(ApiError::Db(ctfdeploy::store::ServiceError::Conflict)) => {}
        _ => panic!("a colliding token must be refused"),
    }
}

#[test]
fn expired_token_is_replaced() {
    let mut d = engine("port", 30000, 30010, 2);
    let first = gateway::token(&mut d.db, &"alice".to_string(), 1, 0).unwrap();
    let later = first.expires_at + 1;
    let second = gateway::token(&mut d.db, &"alice".to_string(), 1, later).unwrap();
    assert_ne!(first.token, second.token);
    assert_eq!(second.expires_at, later + 3600);
}

#[test]
fn token_authenticates_until_expiry() {
    let mut d = engine("port", 30000, 30010, 2);
    let resp = gateway::token(&mut d.db, &"alice".to_string(), 1, 0).unwrap();
    let header = format!("Bearer {}", resp.token);
    let user = gateway::authenticate(&d.db, Some(&header), resp.expires_at - 1).unwrap();
    assert_eq!(user.username, "alice");
    let after = gateway::authenticate(&d.db, Some(&header), resp.expires_at);
    match after {
        Err(ApiError::BadRequest(m)) => assert_eq!(m, "Invalid or expired token"),
        other => panic!("expected a bad request, got {:?}", other.map(|u| u.username)),
    }
}

#[test]
fn missing_header_is_bad_request() {
    let d = engine("port", 30000, 30010, 2);
    match gateway::authenticate(&d.db, None, 0) {
        Err(ApiError::BadRequest(m)) => assert_eq!(m, "Missing token"),
        _ => panic!("expected a bad request"),
    }
}

#[test]
fn deploy_under_quota() {
    let mut d = engine("port", 30000, 30010, 2);
    let user = d.db.find_or_create_user(&"alice".to_string(), 0);
    assert!(deploy_once(&mut d, user.id, "foo_task", 1).is_ok());
    assert!(deploy_once(&mut d, user.id, "foo_task", 2).is_ok());
    match deploy_once(&mut d, user.id, "foo_task", 3) {
        Err(ApiError::BadRequest(m)) => {
            assert_eq!(m, "instance limit reached");
            assert_eq!(ApiError::BadRequest(m).status_code(), 400);
        },
        _ => panic!("third deploy must hit the quota"),
    }
    assert_eq!(d.db.count_running_instances_for_user(user.id), 2);
}

#[test]
fn port_exhaustion_surfaces_out_of_ports() {
    let mut d = engine("port", 30000, 30001, 10);
    let user = d.db.find_or_create_user(&"alice".to_string(), 0);
    assert!(deploy_once(&mut d, user.id, "foo_task", 1).is_ok());
    assert!(deploy_once(&mut d, user.id, "foo_task", 2).is_ok());
    match deploy_once(&mut d, user.id, "foo_task", 3) {
        Err(ApiError::Deploy(DeployError::Port(PortError::OutOfPorts))) => {
            let e = ApiError::Deploy(DeployError::Port(PortError::OutOfPorts));
            assert_eq!(e.status_code(), 500);
        },
        _ => panic!("third deploy must run out of ports"),
    }
}

#[test]
fn extend_moves_expiry_and_keeps_status() {
    let mut d = engine("port", 30000, 30010, 2);
    let user = d.db.find_or_create_user(&"alice".to_string(), 0);
    let id = deploy_once(&mut d, user.id, "foo_task", 100).unwrap();
    let e0 = d.db.find_instance_by_id(id).unwrap().expires_at;
    assert_eq!(e0, 160);

    let now: u64 = 130;
    gateway::extend(&mut d, user.id, &ActionReq { instance_id: id }, now).unwrap();
    let row = d.db.find_instance_by_id(id).unwrap();
    assert_eq!(row.expires_at, now + 600);
    assert_eq!(row.status, InstanceStatus::Running);
}

#[test]
fn stop_of_foreign_instance_is_forbidden() {
    let mut d = engine("port", 30000, 30010, 2);
    let alice = d.db.find_or_create_user(&"alice".to_string(), 0);
    let bob = d.db.find_or_create_user(&"bob".to_string(), 0);
    let id = deploy_once(&mut d, alice.id, "foo_task", 1).unwrap();
    match gateway::stop(&mut d, bob.id, &ActionReq { instance_id: id }, 2) {
        Err(ApiError::Forbidden(m)) => {
            assert_eq!(m, "Not your instance");
            assert_eq!(ApiError::Forbidden(m).status_code(), 403);
        },
        _ => panic!("a foreign stop must be forbidden"),
    }
    let row = d.db.find_instance_by_id(id).unwrap();
    assert_eq!(row.status, InstanceStatus::Running);
}

#[test]
fn stop_is_idempotent() {
    let mut d = engine("port", 30000, 30010, 2);
    let user = d.db.find_or_create_user(&"alice".to_string(), 0);
    let id = deploy_once(&mut d, user.id, "foo_task", 1).unwrap();
    let now: u64 = 5;
    gateway::stop(&mut d, user.id, &ActionReq { instance_id: id }, now).unwrap();
    let after_first = d.db.find_instance_by_id(id).unwrap();
    let free_after_first = d.ports.free.len();
    gateway::stop(&mut d, user.id, &ActionReq { instance_id: id }, now).unwrap();
    let after_second = d.db.find_instance_by_id(id).unwrap();
    assert_eq!(after_first.status, after_second.status);
    assert_eq!(after_first.expires_at, after_second.expires_at);
    assert_eq!(d.ports.free.len(), free_after_first);
}

#[test]
fn stop_of_unknown_instance_is_not_found() {
    let mut d = engine("port", 30000, 30010, 2);
    let user = d.db.find_or_create_user(&"alice".to_string(), 0);
    match gateway::stop(&mut d, user.id, &ActionReq { instance_id: 99 }, 0) {
        Err(ApiError::BadRequest(m)) => assert_eq!(m, "Instance not found"),
        _ => panic!("expected not found"),
    }
}

#[test]
fn restart_refreshes_running_instance() {
    let mut d = engine("port", 30000, 30010, 2);
    let user = d.db.find_or_create_user(&"alice".to_string(), 0);
    let id = deploy_once(&mut d, user.id, "foo_task", 100).unwrap();
    gateway::restart(&mut d, user.id, &ActionReq { instance_id: id }, 150).unwrap();
    let row = d.db.find_instance_by_id(id).unwrap();
    assert_eq!(row.expires_at, 150 + 60);
    assert_eq!(row.status, InstanceStatus::Running);
}

#[test]
fn restart_never_resurrects() {
    let mut d = engine("port", 30000, 30010, 2);
    let user = d.db.find_or_create_user(&"alice".to_string(), 0);
    let id = deploy_once(&mut d, user.id, "foo_task", 1).unwrap();
    gateway::stop(&mut d, user.id, &ActionReq { instance_id: id }, 2).unwrap();
    match gateway::restart(&mut d, user.id, &ActionReq { instance_id: id }, 3) {
        Err(ApiError::BadRequest(m)) => assert_eq!(m, "instance not running"),
        _ => panic!("a terminal instance must not come back"),
    }
    let row = d.db.find_instance_by_id(id).unwrap();
    assert_eq!(row.status, InstanceStatus::Stopped);
}

#[test]
fn reap_stops_expired_instances() {
    let mut d = engine("port", 30000, 30010, 5);
    let user = d.db.find_or_create_user(&"alice".to_string(), 0);
    let stale = deploy_once(&mut d, user.id, "foo_task", 0).unwrap();
    let fresh = deploy_once(&mut d, user.id, "foo_task", 1_000).unwrap();

    // the first instance expired at 60; one tick just past that
    let now: u64 = 61;
    reap_tick(&mut d, now);

    let stale_row = d.db.find_instance_by_id(stale).unwrap();
    assert_eq!(stale_row.status, InstanceStatus::Stopped);
    assert_eq!(stale_row.expires_at, now);
    let fresh_row = d.db.find_instance_by_id(fresh).unwrap();
    assert_eq!(fresh_row.status, InstanceStatus::Running);
    // the stale instance's port went back to the pool
    let p = stale_row.port.unwrap();
    assert!(d.ports.free.contains(&p));
    assert!(d.db.list_expired_instances(now).is_empty());
}

#[test]
fn reap_tick_is_idempotent() {
    let mut d = engine("port", 30000, 30010, 5);
    let user = d.db.find_or_create_user(&"alice".to_string(), 0);
    deploy_once(&mut d, user.id, "foo_task", 0).unwrap();
    reap_tick(&mut d, 100);
    let instances_after = d.db.list_instances();
    let free_after = d.ports.free.len();
    reap_tick(&mut d, 100);
    let instances_again = d.db.list_instances();
    assert_eq!(instances_after.len(), instances_again.len());
    for (a, b) in instances_after.iter().zip(instances_again.iter()) {
        assert_eq!(a.id, b.id);
        assert_eq!(a.status, b.status);
        assert_eq!(a.expires_at, b.expires_at);
    }
    assert_eq!(d.ports.free.len(), free_after);
}

#[test]
fn deploy_of_unknown_task_is_bad_request() {
    let mut d = engine("port", 30000, 30010, 2);
    let user = d.db.find_or_create_user(&"alice".to_string(), 0);
    match deploy_once(&mut d, user.id, "ghost_task", 1) {
        Err(ApiError::BadRequest(m)) => assert_eq!(m, "unknown task"),
        _ => panic!("an unregistered task must be refused"),
    }
}

#[test]
fn port_mode_endpoint_names_domain_and_port() {
    let mut d = engine("port", 30000, 30010, 2);
    let prep = d.deploy_begin(&"foo_task".to_string(), 0).unwrap();
    // foo_task speaks tcp, so the endpoint is a nc command on the
    // smallest reserved port
    assert_eq!(prep.port, Some(30000));
    assert_eq!(prep.endpoint, "nc localhost 30000");
    let prep2 = d.deploy_begin(&"web_task".to_string(), 0).unwrap();
    // web_task falls back to _default, which speaks http
    assert_eq!(prep2.endpoint, "http://localhost:30001");
    let b = prep2.container.binding.as_ref().unwrap();
    assert_eq!(b.container_port_key, "3000/tcp");
    assert_eq!(b.host_ip, "0.0.0.0");
    assert_eq!(b.host_port_str, "30001");
    assert_eq!(prep2.container.network, "bridge");
}

#[test]
fn traefik_mode_reserves_no_port_and_labels_router() {
    let mut d = engine("traefik", 30000, 30010, 2);
    let free_before = d.ports.free.len();
    let prep = d.deploy_begin(&"web_task".to_string(), 0).unwrap();
    assert_eq!(prep.port, None);
    assert_eq!(d.ports.free.len(), free_before);
    assert_eq!(prep.hostname, format!("{}.ctf.local", prep.uniq));
    assert_eq!(prep.endpoint, format!("http://{}", prep.uniq).to_string() + ".ctf.local");
    assert_eq!(prep.container.network, "ctf-net");
    assert!(prep.container.binding.is_none());
    let labels = &prep.container.labels;
    assert_eq!(labels.len(), 5);
    assert_eq!(labels[0], ("traefik.enable".to_string(), "true".to_string()));
    assert_eq!(
        labels[1],
        ("traefik.docker.network".to_string(), "ctf-net".to_string())
    );
    assert_eq!(
        labels[2].0,
        format!("traefik.http.routers.{}.rule", prep.uniq)
    );
    assert_eq!(labels[2].1, format!("Host(`{}`)", prep.hostname));
    assert_eq!(
        labels[3],
        (
            format!("traefik.http.routers.{}.entrypoints", prep.uniq),
            "web".to_string()
        )
    );
    assert_eq!(
        labels[4],
        (
            format!("traefik.http.services.{}.loadbalancer.server.port", prep.uniq),
            "3000".to_string()
        )
    );

    // a tcp task gets SNI routing instead
    let prep_tcp = d.deploy_begin(&"foo_task".to_string(), 0).unwrap();
    assert_eq!(prep_tcp.endpoint, format!("nc {} 9000", prep_tcp.hostname));
    assert_eq!(
        prep_tcp.container.labels[2].1,
        format!("HostSNI(`{}`)", prep_tcp.hostname)
    );
    assert_eq!(prep_tcp.container.labels[3].1, "tcp".to_string());
    assert_eq!(prep_tcp.container.labels[4].1, "4000".to_string());
}

#[test]
fn deploy_cancel_returns_the_port() {
    let mut d = engine("port", 30000, 30001, 2);
    let prep = d.deploy_begin(&"foo_task".to_string(), 0).unwrap();
    assert_eq!(prep.port, Some(30000));
    d.deploy_cancel(&prep);
    assert!(d.ports.free.contains(&30000));
    // the cancelled port is available to the next deployment
    let prep2 = d.deploy_begin(&"foo_task".to_string(), 0).unwrap();
    assert_eq!(prep2.port, Some(30000));
}
