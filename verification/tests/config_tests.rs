use containers::config::{ContainerConfig, ContainersToml, EnvVar, sort_env};
use containers::errors::ContainerError;
use containers::invocation::{Config, generate_container_name};
use containers::locate::{DockerfileLocator, LocateStep};

fn named(name: &str) -> ContainerConfig {
    let mut c = ContainerConfig::default();
    c.name = name.to_string();
    c
}

#[test]
fn default_config_values() {
    let c = ContainerConfig::default();
    assert_eq!(c.name, "");
    assert_eq!(c.base_image.as_deref(), Some("dev-env"));
    assert!(c.command.is_none());
    assert!(c.environment.is_none());
    assert!(c.volumes.is_none());
    assert!(c.tmpfs.is_none());
    assert!(c.dependencies.is_none());
    assert_eq!(c.gpu, Some(false));
    assert_eq!(c.interactive, Some(true));
    assert_eq!(c.tty, Some(true));
    assert_eq!(c.remove, Some(true));
    assert!(c.build_context.is_none());
}

#[test]
fn get_container_finds_by_name() {
    let toml = ContainersToml {
        containers: vec![
            ("dev".to_string(), named("dev")),
            ("gpu".to_string(), named("gpu")),
        ],
    };
    assert_eq!(toml.get_container("gpu").unwrap().name, "gpu");
    assert_eq!(toml.get_container("dev").unwrap().name, "dev");
    assert!(toml.get_container("missing").is_none());
}

#[test]
fn sort_env_orders_by_key() {
    let env = vec![
        EnvVar { key: "B".to_string(), value: "2".to_string() },
        EnvVar { key: "A".to_string(), value: "1".to_string() },
        EnvVar { key: "C".to_string(), value: "3".to_string() },
    ];
    let sorted = sort_env(&env);
    let keys: Vec<&str> = sorted.iter().map(|e| e.key.as_str()).collect();
    assert_eq!(keys, vec!["A", "B", "C"]);
}

#[test]
fn container_name_comes_from_directory() {
    assert_eq!(generate_container_name("/home/user/project/Dockerfile"), "home-user-project");
    assert_eq!(generate_container_name("Dockerfile"), "");
    assert_eq!(generate_container_name("/Dockerfile"), "");
    assert_eq!(generate_container_name(""), ".");
    assert_eq!(generate_container_name("sub/dir/Dockerfile"), "sub-dir");
}

#[test]
fn config_resolution_precedence() {
    let c = Config::resolve(
        Some("/a/Dockerfile".to_string()),
        Some("/b/Dockerfile".to_string()),
        Some("/c/Dockerfile".to_string()),
        "/d/Dockerfile".to_string(),
        Some("explicit".to_string()),
        Some("fromenv".to_string()),
        Some("docker".to_string()),
        true,
    );
    assert_eq!(c.dockerfile, "/a/Dockerfile");
    assert_eq!(c.container_name, "explicit");
    assert_eq!(c.image_name, "dev-env:latest");
    assert_eq!(c.engine_type, "docker");
    assert!(c.update_image);

    let c2 = Config::resolve(
        None,
        None,
        Some("/c/proj/Dockerfile".to_string()),
        "/d/Dockerfile".to_string(),
        None,
        None,
        None,
        false,
    );
    assert_eq!(c2.dockerfile, "/c/proj/Dockerfile");
    assert_eq!(c2.container_name, "c-proj");
    assert_eq!(c2.engine_type, "podman");
    assert!(!c2.update_image);
}

#[test]
fn locate_policy() {
    assert_eq!(DockerfileLocator::next_step(true, false, false), LocateStep::Found);
    assert_eq!(DockerfileLocator::next_step(true, true, false), LocateStep::Found);
    assert_eq!(DockerfileLocator::next_step(false, true, false), LocateStep::Stop);
    assert_eq!(DockerfileLocator::next_step(false, false, true), LocateStep::Stop);
    assert_eq!(DockerfileLocator::next_step(false, false, false), LocateStep::Ascend);
}

#[test]
fn error_messages_name_their_subject() {
    assert_eq!(
        ContainerError::EngineNotFound("docker".to_string()).message(),
        "Container engine 'docker' not found"
    );
    assert_eq!(
        ContainerError::ContainerNotFound("dev".to_string()).message(),
        "Container 'dev' not found"
    );
    assert_eq!(
        ContainerError::ImageNotFound("dev-env".to_string()).message(),
        "Image 'dev-env' not found"
    );
    assert_eq!(
        ContainerError::BuildFailed("dev".to_string()).message(),
        "Failed to build image: dev"
    );
    assert_eq!(
        ContainerError::CommandFailed("rm -f dev".to_string()).message(),
        "Command execution failed: rm -f dev"
    );
    assert_eq!(
        ContainerError::DockerfileNotFound("/tmp/Dockerfile".to_string()).message(),
        "Dockerfile not found at '/tmp/Dockerfile'"
    );
    assert_eq!(
        ContainerError::ConfigNotFound("containers.toml".to_string()).message(),
        "Configuration file not found: containers.toml"
    );
    assert_eq!(
        ContainerError::ConfigInvalid("bad toml".to_string()).message(),
        "Invalid configuration: bad toml"
    );
    assert_eq!(
        ContainerError::LockfileCorrupt("containers.lock".to_string()).message(),
        "Corrupt lockfile: containers.lock"
    );
}
