use containers::config::{ContainerConfig, Dependency, EnvVar, VolumeMount};
use containers::lockfile::Lockfile;

fn base_config(name: &str) -> ContainerConfig {
    ContainerConfig {
        name: name.to_string(),
        base_image: Some("ubuntu:22.04".to_string()),
        command: None,
        environment: None,
        volumes: None,
        tmpfs: None,
        dependencies: Some(Vec::new()),
        gpu: None,
        interactive: None,
        tty: None,
        remove: None,
        build_context: None,
    }
}

#[test]
fn hash_is_idempotent() {
    let c = base_config("dev");
    let h1 = Lockfile::hash_config(&c);
    let h2 = Lockfile::hash_config(&c);
    assert_eq!(h1, h2);
}

#[test]
fn hash_is_hex_of_fixed_width() {
    let c = base_config("dev");
    let h = Lockfile::hash_config(&c);
    assert_eq!(h.len(), 64);
    assert!(h.chars().all(|ch| ch.is_ascii_hexdigit()));
}

#[test]
fn hash_differs_when_base_image_differs() {
    let a = base_config("dev");
    let mut b = base_config("dev");
    b.base_image = Some("ubuntu:24.04".to_string());
    assert_ne!(Lockfile::hash_config(&a), Lockfile::hash_config(&b));
}

#[test]
fn hash_differs_when_dependency_added() {
    let a = base_config("dev");
    let mut b = base_config("dev");
    b.dependencies = Some(vec![Dependency {
        package: "curl".to_string(),
        version: None,
        source: None,
    }]);
    assert_ne!(Lockfile::hash_config(&a), Lockfile::hash_config(&b));
}

#[test]
fn hash_differs_when_volume_differs() {
    let mut a = base_config("dev");
    a.volumes = Some(vec![VolumeMount {
        source: "/data".to_string(),
        target: "/mnt".to_string(),
        read_only: None,
    }]);
    let mut b = base_config("dev");
    b.volumes = Some(vec![VolumeMount {
        source: "/data".to_string(),
        target: "/mnt".to_string(),
        read_only: Some(true),
    }]);
    assert_ne!(Lockfile::hash_config(&a), Lockfile::hash_config(&b));
}

#[test]
fn hash_differs_when_environment_entry_differs() {
    let mut a = base_config("dev");
    a.environment = Some(vec![EnvVar { key: "A".to_string(), value: "1".to_string() }]);
    let mut b = base_config("dev");
    b.environment = Some(vec![EnvVar { key: "A".to_string(), value: "2".to_string() }]);
    assert_ne!(Lockfile::hash_config(&a), Lockfile::hash_config(&b));
}

#[test]
fn hash_ignores_environment_order() {
    let mut a = base_config("dev");
    a.environment = Some(vec![
        EnvVar { key: "PATH".to_string(), value: "/bin".to_string() },
        EnvVar { key: "LANG".to_string(), value: "C".to_string() },
        EnvVar { key: "TERM".to_string(), value: "xterm".to_string() },
    ]);
    let mut b = base_config("dev");
    b.environment = Some(vec![
        EnvVar { key: "TERM".to_string(), value: "xterm".to_string() },
        EnvVar { key: "PATH".to_string(), value: "/bin".to_string() },
        EnvVar { key: "LANG".to_string(), value: "C".to_string() },
    ]);
    assert_eq!(Lockfile::hash_config(&a), Lockfile::hash_config(&b));
}

#[test]
fn dependency_hash_depends_on_fields() {
    let d1 = Dependency { package: "curl".to_string(), version: None, source: None };
    let d2 = Dependency {
        package: "curl".to_string(),
        version: Some("8.0".to_string()),
        source: None,
    };
    let h1 = Lockfile::hash_dependency(&d1);
    let h2 = Lockfile::hash_dependency(&d2);
    assert_eq!(h1.len(), 64);
    assert_ne!(h1, h2);
    assert_eq!(h1, Lockfile::hash_dependency(&d1));
}

#[test]
fn generated_lock_resolves_fields() {
    let mut c = base_config("dev");
    c.base_image = None;
    c.dependencies = Some(vec![Dependency {
        package: "curl".to_string(),
        version: None,
        source: None,
    }]);
    let entries = vec![("dev".to_string(), c)];
    let lf = Lockfile::generate_from_config(&entries).unwrap();
    assert_eq!(lf.version, "1.0");
    assert_eq!(lf.containers.len(), 1);
    let (name, lock) = &lf.containers[0];
    assert_eq!(name, "dev");
    assert_eq!(lock.base_image, "ubuntu:latest");
    assert_eq!(lock.dependencies.len(), 1);
    assert_eq!(lock.dependencies[0].package, "curl");
    assert_eq!(lock.dependencies[0].version, "latest");
    assert_eq!(lock.dependencies[0].source, "default");
    assert_eq!(lock.dependencies[0].hash.len(), 64);
    assert_eq!(lock.config_hash.len(), 64);
    assert_eq!(lock.image_hash, format!("dev-{}", &lock.config_hash[..32]));
    assert_eq!(lock.image_hash.len(), 36);
}
