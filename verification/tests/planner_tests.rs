use containers::config::{ContainerConfig, Dependency};
use containers::lifecycle::{ContainerState, LifecycleAction, LifecycleReconciler};
use containers::lockfile::Lockfile;
use containers::planner::{BuildPlan, BuildPlanner};

fn dev_config() -> ContainerConfig {
    ContainerConfig {
        name: "dev".to_string(),
        base_image: Some("ubuntu:22.04".to_string()),
        command: None,
        environment: None,
        volumes: None,
        tmpfs: None,
        dependencies: Some(Vec::new()),
        gpu: None,
        interactive: None,
        tty: None,
        remove: None,
        build_context: None,
    }
}

fn lock_for(name: &str, config: &ContainerConfig) -> containers::lockfile::ContainerLock {
    let entries = vec![(name.to_string(), dup_config(config))];
    let mut lf = Lockfile::generate_from_config(&entries).unwrap();
    lf.containers.pop().unwrap().1
}

fn dup_config(c: &ContainerConfig) -> ContainerConfig {
    ContainerConfig {
        name: c.name.clone(),
        base_image: c.base_image.clone(),
        command: c.command.clone(),
        environment: c.environment.clone(),
        volumes: c.volumes.clone(),
        tmpfs: c.tmpfs.clone(),
        dependencies: c.dependencies.clone(),
        gpu: c.gpu,
        interactive: c.interactive,
        tty: c.tty,
        remove: c.remove,
        build_context: None,
    }
}

#[test]
fn changed_is_true_without_a_record() {
    let store = Lockfile::new();
    let h = Lockfile::hash_config(&dev_config());
    assert!(store.changed("dev", &h));
}

#[test]
fn changed_follows_the_stored_hash() {
    let config = dev_config();
    let h = Lockfile::hash_config(&config);
    let mut store = Lockfile::new();
    let record = lock_for("dev", &config);
    BuildPlanner::apply_build_result(&mut store, "dev", record, true).unwrap();
    assert!(!store.changed("dev", &h));
    assert!(store.changed("dev", "0000"));
    assert!(store.changed("other", &h));
}

#[test]
fn plan_skips_when_nothing_forces_a_build() {
    let config = dev_config();
    let h = Lockfile::hash_config(&config);
    let mut store = Lockfile::new();
    let record = lock_for("dev", &config);
    BuildPlanner::apply_build_result(&mut store, "dev", record, true).unwrap();
    assert_eq!(BuildPlanner::plan(false, true, &store, "dev", &h), BuildPlan::Skip);
    assert_eq!(BuildPlanner::plan(true, true, &store, "dev", &h), BuildPlan::Build);
    assert_eq!(BuildPlanner::plan(false, false, &store, "dev", &h), BuildPlan::Build);
}

#[test]
fn scenario_fresh_store_builds_then_records() {
    let config = dev_config();
    let h = Lockfile::hash_config(&config);
    let mut store = Lockfile::new();
    assert_eq!(BuildPlanner::plan(false, true, &store, "dev", &h), BuildPlan::Build);
    let record = lock_for("dev", &config);
    BuildPlanner::apply_build_result(&mut store, "dev", record, true).unwrap();
    assert_eq!(store.containers.len(), 1);
    let stored = store.get("dev").unwrap();
    assert_eq!(stored.config_hash, h);
}

#[test]
fn scenario_extended_dependencies_build_again() {
    let config = dev_config();
    let h = Lockfile::hash_config(&config);
    let mut store = Lockfile::new();
    let record = lock_for("dev", &config);
    BuildPlanner::apply_build_result(&mut store, "dev", record, true).unwrap();
    let mut extended = dev_config();
    extended.dependencies = Some(vec![Dependency {
        package: "curl".to_string(),
        version: None,
        source: None,
    }]);
    let h2 = Lockfile::hash_config(&extended);
    assert_ne!(h, h2);
    // the image already exists locally, yet the hash mismatch forces a build
    assert_eq!(BuildPlanner::plan(false, true, &store, "dev", &h2), BuildPlan::Build);
}

#[test]
fn scenario_running_container_is_only_execed() {
    let state = LifecycleReconciler::observe(true, true);
    assert_eq!(state, ContainerState::Running);
    let action = LifecycleReconciler::next_action(state);
    assert_eq!(action, LifecycleAction::Exec);
    assert_ne!(action, LifecycleAction::CreateAndRun);
    assert_ne!(action, LifecycleAction::StartThenExec);
}

#[test]
fn lifecycle_table_is_total() {
    assert_eq!(LifecycleReconciler::observe(false, false), ContainerState::Absent);
    assert_eq!(LifecycleReconciler::observe(false, true), ContainerState::Absent);
    assert_eq!(LifecycleReconciler::observe(true, false), ContainerState::StoppedExists);
    assert_eq!(
        LifecycleReconciler::next_action(ContainerState::Absent),
        LifecycleAction::CreateAndRun
    );
    assert_eq!(
        LifecycleReconciler::next_action(ContainerState::StoppedExists),
        LifecycleAction::StartThenExec
    );
}

#[test]
fn scenario_failed_build_leaves_store_untouched() {
    let config = dev_config();
    let mut store = Lockfile::new();
    let record = lock_for("dev", &config);
    BuildPlanner::apply_build_result(&mut store, "dev", record, true).unwrap();
    let before_version = store.version.clone();
    let before: Vec<(String, String, String, String)> = store
        .containers
        .iter()
        .map(|(n, l)| {
            (n.clone(), l.image_hash.clone(), l.base_image.clone(), l.config_hash.clone())
        })
        .collect();
    let fresh = lock_for("dev", &config);
    let err = BuildPlanner::apply_build_result(&mut store, "dev", fresh, false).unwrap_err();
    assert_eq!(err.message(), "Failed to build image: dev");
    let after: Vec<(String, String, String, String)> = store
        .containers
        .iter()
        .map(|(n, l)| {
            (n.clone(), l.image_hash.clone(), l.base_image.clone(), l.config_hash.clone())
        })
        .collect();
    assert_eq!(before, after);
    assert_eq!(before_version, store.version);
}

#[test]
fn scenario_failed_build_leaves_absence_untouched() {
    let config = dev_config();
    let mut store = Lockfile::new();
    let record = lock_for("dev", &config);
    let err = BuildPlanner::apply_build_result(&mut store, "dev", record, false).unwrap_err();
    assert_eq!(err.message(), "Failed to build image: dev");
    assert!(store.containers.is_empty());
    assert!(store.get("dev").is_none());
}

#[test]
fn successful_build_overwrites_whole_record() {
    let config = dev_config();
    let mut store = Lockfile::new();
    let record = lock_for("dev", &config);
    BuildPlanner::apply_build_result(&mut store, "dev", record, true).unwrap();
    let mut newer = dev_config();
    newer.base_image = Some("ubuntu:24.04".to_string());
    let record2 = lock_for("dev", &newer);
    let h2 = record2.config_hash.clone();
    BuildPlanner::apply_build_result(&mut store, "dev", record2, true).unwrap();
    assert_eq!(store.containers.len(), 1);
    assert_eq!(store.get("dev").unwrap().config_hash, h2);
    assert_eq!(store.get("dev").unwrap().base_image, "ubuntu:24.04");
}

#[test]
fn removal_required_only_for_stale_containers() {
    assert!(BuildPlanner::removal_required(true, true, false));
    assert!(BuildPlanner::removal_required(true, false, true));
    assert!(!BuildPlanner::removal_required(true, false, false));
    assert!(!BuildPlanner::removal_required(false, true, true));
}
