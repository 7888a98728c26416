use ctfdeploy::models::{InstanceStatus, TaskInstance};
use ctfdeploy::store::{Db, ServiceError};

fn draft(task: &str, container: &str, user_id: i32, now: u64, expires_at: u64) -> TaskInstance {
    TaskInstance {
        id: 0,
        task_name: task.to_string(),
        container_id: container.to_string(),
        port: Some(3000),
        created_at: now,
        expires_at,
        status: InstanceStatus::Running,
        user_id,
        endpoint: String::new(),
    }
}

#[test]
fn test_crud_instance() {
    let mut db = Db::new();
    let now: u64 = 10_000;
    db.ensure_task(&"foo_task".to_string(), &"./tasks/foo_task".to_string(), now);
    let user = db.find_or_create_user(&"foo_user".to_string(), now);

    // Prepare a TaskInstance struct
    let inst = draft("foo_task", "abc123", user.id, now, now + 30 * 60);

    // Create
    let created = db.create_instance(&inst).expect("create");
    assert!(created.id > 0);

    // List
    let all = db.list_instances();
    assert!(all.iter().any(|i| i.id == created.id));

    // Update
    db.update_instance(created.id, InstanceStatus::Stopped, now + 1);
    let fetched = db.find_instance_by_id(created.id).unwrap();
    assert_eq!(fetched.status, InstanceStatus::Stopped);
}

#[test]
fn find_or_create_user_is_idempotent() {
    let mut db = Db::new();
    let alice = db.find_or_create_user(&"alice".to_string(), 5);
    let again = db.find_or_create_user(&"alice".to_string(), 9);
    assert_eq!(alice.id, again.id);
    assert_eq!(again.created_at, 5);
    let bob = db.find_or_create_user(&"bob".to_string(), 9);
    assert_ne!(alice.id, bob.id);
}

#[test]
fn session_collision_is_conflict() {
    let mut db = Db::new();
    let u = db.find_or_create_user(&"alice".to_string(), 0);
    assert_eq!(db.create_session("tok-1", u.id, 100, 0), Ok(()));
    assert_eq!(
        db.create_session("tok-1", u.id, 200, 0),
        Err(ServiceError::Conflict)
    );
}

#[test]
fn session_for_unknown_user_is_refused() {
    let mut db = Db::new();
    assert_eq!(
        db.create_session("tok-1", 42, 100, 0),
        Err(ServiceError::UnknownUser)
    );
}

#[test]
fn validate_session_honours_expiry() {
    let mut db = Db::new();
    let u = db.find_or_create_user(&"alice".to_string(), 0);
    db.create_session("tok-1", u.id, 100, 0).unwrap();
    let ok = db.validate_session("tok-1", 99).unwrap();
    assert_eq!(ok.id, u.id);
    assert!(db.validate_session("tok-1", 100).is_none());
    assert!(db.validate_session("tok-1", 101).is_none());
    assert!(db.validate_session("other", 50).is_none());
}

#[test]
fn instance_for_unknown_task_is_refused() {
    let mut db = Db::new();
    let u = db.find_or_create_user(&"alice".to_string(), 0);
    let inst = draft("ghost_task", "c1", u.id, 0, 60);
    assert!(matches!(
        db.create_instance_for_user(&inst, u.id),
        Err(ServiceError::UnknownTask)
    ));
}

#[test]
fn instance_for_unknown_user_is_refused() {
    let mut db = Db::new();
    db.ensure_task(&"foo_task".to_string(), &"./tasks/foo_task".to_string(), 0);
    let inst = draft("foo_task", "c1", 7, 0, 60);
    assert!(matches!(
        db.create_instance_for_user(&inst, 7),
        Err(ServiceError::UnknownUser)
    ));
}

#[test]
fn ensure_task_is_idempotent() {
    let mut db = Db::new();
    db.ensure_task(&"foo_task".to_string(), &"./tasks/foo_task".to_string(), 0);
    db.ensure_task(&"foo_task".to_string(), &"./elsewhere".to_string(), 9);
    assert_eq!(db.tasks.len(), 1);
    assert_eq!(db.tasks[0].dockerfile_path, "./tasks/foo_task");
}

#[test]
fn listing_shows_only_running_instances_of_user() {
    let mut db = Db::new();
    let now: u64 = 0;
    db.ensure_task(&"foo_task".to_string(), &"./tasks/foo_task".to_string(), now);
    let a = db.find_or_create_user(&"alice".to_string(), now);
    let b = db.find_or_create_user(&"bob".to_string(), now);
    let ia = db
        .create_instance_for_user(&draft("foo_task", "c-a", a.id, now, 60), a.id)
        .unwrap();
    let ib = db
        .create_instance_for_user(&draft("foo_task", "c-b", b.id, now, 60), b.id)
        .unwrap();
    let ia2 = db
        .create_instance_for_user(&draft("foo_task", "c-a2", a.id, now, 60), a.id)
        .unwrap();
    db.update_instance(ia2.id, InstanceStatus::Stopped, now);

    let listed = db.list_instances_for_user(a.id);
    assert_eq!(listed.len(), 1);
    assert_eq!(listed[0].id, ia.id);
    assert!(listed.iter().all(|i| i.status == InstanceStatus::Running));
    assert!(!listed.iter().any(|i| i.id == ib.id));
    assert_eq!(db.count_running_instances_for_user(a.id), 1);
    assert_eq!(db.count_running_instances_for_user(b.id), 1);
}

#[test]
fn expired_listing_takes_running_rows_past_expiry() {
    let mut db = Db::new();
    db.ensure_task(&"foo_task".to_string(), &"./tasks/foo_task".to_string(), 0);
    let u = db.find_or_create_user(&"alice".to_string(), 0);
    let fresh = db
        .create_instance_for_user(&draft("foo_task", "c1", u.id, 0, 100), u.id)
        .unwrap();
    let stale = db
        .create_instance_for_user(&draft("foo_task", "c2", u.id, 0, 40), u.id)
        .unwrap();
    let stopped = db
        .create_instance_for_user(&draft("foo_task", "c3", u.id, 0, 10), u.id)
        .unwrap();
    db.update_instance_status(stopped.id, InstanceStatus::Stopped);

    let expired = db.list_expired_instances(50);
    assert_eq!(expired.len(), 1);
    assert_eq!(expired[0].id, stale.id);
    assert!(!expired.iter().any(|i| i.id == fresh.id));
    assert!(!expired.iter().any(|i| i.id == stopped.id));
}
