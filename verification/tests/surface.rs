use ctfdeploy::clock::{compute_expiry, ttl_secs_until};
use ctfdeploy::config::{
    default_cport, default_protocol, Captcha, Config, ConfigError, Database, Ports, Redis,
    RoutingConfig, Scheduler, Sessions, TaskConfig,
};
use ctfdeploy::deploy::DeployError;
use ctfdeploy::gateway::{self, ApiError};
use ctfdeploy::models::{InstanceStatus, TaskInstance};
use ctfdeploy::ports::PortError;
use ctfdeploy::routing::{generate_access_info, AccessInfo};
use ctfdeploy::store::ServiceError;
use ctfdeploy::textnum::{u16_to_dec, u64_to_dec};

fn config(variant: &str) -> Config {
    Config {
        routing: RoutingConfig {
            variant: variant.to_string(),
            domain: "localhost".to_string(),
            traefik_domain: "ctf.local".to_string(),
            http_entry: "web".to_string(),
            tcp_entry: "tcp".to_string(),
        },
        tasks: vec![
            (
                "_default".to_string(),
                TaskConfig {
                    protocol: "http".to_string(),
                    container_port: 3000,
                },
            ),
            (
                "foo_task".to_string(),
                TaskConfig {
                    protocol: "tcp".to_string(),
                    container_port: 4000,
                },
            ),
        ],
        ports: Ports {
            min: 30000,
            max: 30010,
            default: 30000,
            default_ttl_secs: 60,
            extend_time_secs: 600,
        },
        database: Database {
            url: String::new(),
        },
        redis: Redis {
            url: String::new(),
        },
        captcha: Captcha {
            provider: String::new(),
            site_key: String::new(),
            secret_key: String::new(),
            verify_url: String::new(),
        },
        scheduler: Scheduler {
            poll_interval_secs: 5,
        },
        sessions: Sessions {
            ttl_hours: 1,
            max_instances: 2,
        },
    }
}

fn instance(task: &str, container: &str, port: Option<u16>) -> TaskInstance {
    TaskInstance {
        id: 1,
        task_name: task.to_string(),
        container_id: container.to_string(),
        port,
        created_at: 0,
        expires_at: 60,
        status: InstanceStatus::Running,
        user_id: 1,
        endpoint: String::new(),
    }
}

#[test]
fn decimal_rendering_is_exact() {
    assert_eq!(u64_to_dec(0), "0");
    assert_eq!(u64_to_dec(7), "7");
    assert_eq!(u64_to_dec(10), "10");
    assert_eq!(u64_to_dec(30000), "30000");
    assert_eq!(u64_to_dec(u64::MAX), "18446744073709551615");
    assert_eq!(u16_to_dec(65535), "65535");
}

#[test]
fn status_names_are_stable() {
    assert_eq!(InstanceStatus::Running.as_str(), "Running");
    assert_eq!(InstanceStatus::Stopped.as_str(), "Stopped");
    assert_eq!(InstanceStatus::Expired.as_str(), "Expired");
}

#[test]
fn expiry_arithmetic() {
    assert_eq!(compute_expiry(100, 60), 160);
    assert_eq!(ttl_secs_until(160, 100), 60);
    assert_eq!(ttl_secs_until(160, 160), 0);
    assert_eq!(ttl_secs_until(160, 200), 0);
}

#[test]
fn bearer_parsing() {
    assert_eq!(
        gateway::parse_bearer(&"Bearer abc-123".to_string()),
        Some("abc-123".to_string())
    );
    assert_eq!(gateway::parse_bearer(&"bearer abc".to_string()), None);
    assert_eq!(gateway::parse_bearer(&"Bearer".to_string()), None);
    assert_eq!(gateway::parse_bearer(&String::new()), None);
    assert_eq!(
        gateway::parse_bearer(&"Bearer ".to_string()),
        Some(String::new())
    );
}

#[test]
fn error_status_codes() {
    assert_eq!(ApiError::Captcha.status_code(), 401);
    assert_eq!(
        ApiError::Deploy(DeployError::Build("boom".to_string())).status_code(),
        500
    );
    assert_eq!(ApiError::Db(ServiceError::Conflict).status_code(), 500);
    assert_eq!(
        ApiError::BadRequest("nope".to_string()).status_code(),
        400
    );
    assert_eq!(
        ApiError::Forbidden("nope".to_string()).status_code(),
        403
    );
    assert_eq!(
        ApiError::Deploy(DeployError::Port(PortError::InvalidPort)).status_code(),
        500
    );
}

#[test]
fn config_validation_names_the_broken_rule() {
    assert!(config("port").validate().is_ok());
    assert!(config("traefik").validate().is_ok());
    assert_eq!(
        config("direct").validate(),
        Err(ConfigError::UnknownVariant)
    );

    let mut missing = config("port");
    missing.tasks.remove(0);
    assert_eq!(missing.validate(), Err(ConfigError::MissingDefaultTask));

    let mut dup = config("port");
    let entry = (
        "foo_task".to_string(),
        TaskConfig {
            protocol: "http".to_string(),
            container_port: 5000,
        },
    );
    dup.tasks.push(entry);
    assert_eq!(dup.validate(), Err(ConfigError::DuplicateTask));

    let mut empty = config("port");
    empty.ports.min = 31000;
    empty.ports.max = 30000;
    assert_eq!(empty.validate(), Err(ConfigError::EmptyPortRange));
}

#[test]
fn task_resolution_falls_back_to_default() {
    let cfg = config("port");
    let own = cfg.resolve_task(&"foo_task".to_string());
    assert_eq!(own.protocol, "tcp");
    assert_eq!(own.container_port, 4000);
    let fallback = cfg.resolve_task(&"unlisted".to_string());
    assert_eq!(fallback.protocol, default_protocol());
    assert_eq!(fallback.container_port, default_cport());
}

#[test]
fn access_info_by_scheme_and_protocol() {
    let cfg = config("port");
    match generate_access_info(&instance("web", "abc123", Some(30000)), &cfg) {
        AccessInfo::HttpUrl(u) => assert_eq!(u, "http://localhost:30000"),
        AccessInfo::TcpCmd(_) => panic!("an http task answers by URL"),
    }
    match generate_access_info(&instance("foo_task", "abc123", Some(30001)), &cfg) {
        AccessInfo::TcpCmd(c) => assert_eq!(c, "nc localhost 30001"),
        AccessInfo::HttpUrl(_) => panic!("a tcp task answers by command"),
    }

    let cfg = config("traefik");
    match generate_access_info(&instance("web", "abc123", None), &cfg) {
        AccessInfo::HttpUrl(u) => assert_eq!(u, "http://abc123.ctf.local/"),
        AccessInfo::TcpCmd(_) => panic!("an http task answers by URL"),
    }
    match generate_access_info(&instance("foo_task", "abc123", None), &cfg) {
        AccessInfo::TcpCmd(c) => assert_eq!(c, "nc abc123.ctf.local 9000"),
        AccessInfo::HttpUrl(_) => panic!("a tcp task answers by command"),
    }
}

#[test]
fn listings_reflect_the_store() {
    let cfg = config("port");
    let infos = gateway::list_tasks(&cfg);
    assert_eq!(infos.len(), 1);
    assert_eq!(infos[0].name, "foo_task");
    assert_eq!(infos[0].protocol, "tcp");
    assert_eq!(infos[0].container_port, 4000);

    let mut db = ctfdeploy::store::Db::new();
    db.ensure_task(&"foo_task".to_string(), &"./tasks/foo_task".to_string(), 0);
    let u = db.find_or_create_user(&"alice".to_string(), 0);
    let mut inst = instance("foo_task", "c1", Some(30000));
    inst.endpoint = "nc localhost 30000".to_string();
    inst.expires_at = 90;
    let saved = db.create_instance_for_user(&inst, u.id).unwrap();

    let items = gateway::list_instances(&db, u.id, 30);
    assert_eq!(items.len(), 1);
    assert_eq!(items[0].id, saved.id);
    assert_eq!(items[0].task_name, "foo_task");
    assert_eq!(items[0].expires_in_secs, 60);
    assert_eq!(items[0].endpoint, "nc localhost 30000");
    assert_eq!(items[0].status, "Running");

    db.update_instance(saved.id, InstanceStatus::Expired, 30);
    assert!(gateway::list_instances(&db, u.id, 30).is_empty());
}
