use containers::config::{ContainerConfig, EnvVar, TmpfsMount, VolumeMount};
use containers::lockfile::Lockfile;
use containers::runargs::{legacy_run_args, run_container_args};

fn plain_config() -> ContainerConfig {
    ContainerConfig {
        name: "dev".to_string(),
        base_image: Some("ubuntu:22.04".to_string()),
        command: None,
        environment: None,
        volumes: None,
        tmpfs: None,
        dependencies: None,
        gpu: None,
        interactive: None,
        tty: None,
        remove: None,
        build_context: None,
    }
}

fn lock_of(config: &ContainerConfig, name: &str) -> containers::lockfile::ContainerLock {
    let entries = vec![(
        name.to_string(),
        ContainerConfig {
            name: config.name.clone(),
            base_image: config.base_image.clone(),
            command: config.command.clone(),
            environment: config.environment.clone(),
            volumes: config.volumes.clone(),
            tmpfs: config.tmpfs.clone(),
            dependencies: config.dependencies.clone(),
            gpu: config.gpu,
            interactive: config.interactive,
            tty: config.tty,
            remove: config.remove,
            build_context: None,
        },
    )];
    let mut lf = Lockfile::generate_from_config(&entries).unwrap();
    lf.containers.pop().unwrap().1
}

#[test]
fn run_args_use_defaults_when_nothing_is_declared() {
    let config = plain_config();
    let lock = lock_of(&config, "dev");
    let args = run_container_args(&config, &lock, 1000, 100, "/work", "/home/me", &Vec::new());
    let expected = vec![
        "run".to_string(),
        "--rm".to_string(),
        "-i".to_string(),
        "-t".to_string(),
        "-e".to_string(),
        "UID=1000".to_string(),
        "-e".to_string(),
        "GID=100".to_string(),
        "-v".to_string(),
        "/work:/home/code/work".to_string(),
        "-v".to_string(),
        "/home/me/.dev-env:/home/code/.dev-env".to_string(),
        "-v".to_string(),
        "/home/me/.dev-env.json:/home/code/.dev-env.json".to_string(),
        "--tmpfs".to_string(),
        "/home/code/work/build:ro,size=1m".to_string(),
        lock.image_hash.clone(),
    ];
    assert_eq!(args, expected);
}

#[test]
fn run_args_respect_declared_mounts_and_flags() {
    let mut config = plain_config();
    config.remove = Some(false);
    config.interactive = Some(false);
    config.tty = Some(true);
    config.gpu = Some(true);
    config.environment = Some(vec![EnvVar { key: "MODE".to_string(), value: "fast".to_string() }]);
    config.volumes = Some(vec![
        VolumeMount {
            source: "/data".to_string(),
            target: "/mnt/data".to_string(),
            read_only: Some(true),
        },
        VolumeMount {
            source: "/src".to_string(),
            target: "/mnt/src".to_string(),
            read_only: None,
        },
    ]);
    config.tmpfs = Some(vec![
        TmpfsMount {
            target: "/scratch".to_string(),
            size: Some("64m".to_string()),
            read_only: Some(true),
        },
        TmpfsMount { target: "/cache".to_string(), size: None, read_only: None },
    ]);
    config.command = Some(vec!["bash".to_string()]);
    let lock = lock_of(&config, "dev");
    let args = run_container_args(&config, &lock, 1, 2, "/work", "/home/me", &Vec::new());
    let expected = vec![
        "run".to_string(),
        "-t".to_string(),
        "-e".to_string(),
        "UID=1".to_string(),
        "-e".to_string(),
        "GID=2".to_string(),
        "-e".to_string(),
        "MODE=fast".to_string(),
        "-v".to_string(),
        "/data:/mnt/data:ro".to_string(),
        "-v".to_string(),
        "/src:/mnt/src".to_string(),
        "--tmpfs".to_string(),
        "/scratch:ro,size=64m".to_string(),
        "--tmpfs".to_string(),
        "/cache".to_string(),
        "--gpus".to_string(),
        "all".to_string(),
        lock.image_hash.clone(),
        "bash".to_string(),
    ];
    assert_eq!(args, expected);
}

#[test]
fn run_args_prefer_the_callers_command() {
    let mut config = plain_config();
    config.command = Some(vec!["bash".to_string()]);
    let lock = lock_of(&config, "dev");
    let cmd = vec!["python3".to_string(), "-q".to_string()];
    let args = run_container_args(&config, &lock, 0, 0, "/w", "/h", &cmd);
    assert_eq!(args[args.len() - 2..], ["python3".to_string(), "-q".to_string()]);
}

#[test]
fn legacy_args_fixed_shape() {
    let args = legacy_run_args(1000, 1000, "/work", "/home/me", &Vec::new());
    let expected = vec![
        "run".to_string(),
        "--rm".to_string(),
        "-it".to_string(),
        "-e".to_string(),
        "UID=1000".to_string(),
        "-e".to_string(),
        "GID=1000".to_string(),
        "-v".to_string(),
        "/work:/home/code/work".to_string(),
        "--tmpfs".to_string(),
        "/home/code/work/build:ro,size=1m".to_string(),
        "-v".to_string(),
        "/home/me/.dev-env:/home/code/.dev-env".to_string(),
        "-v".to_string(),
        "/home/me/.dev-env.json:/home/code/.dev-env.json".to_string(),
        "-t".to_string(),
        "--gpus".to_string(),
        "all".to_string(),
        "dev-env".to_string(),
        "dev-env".to_string(),
        "--dangerously-skip-permissions".to_string(),
        "--max-turns".to_string(),
        "99999999".to_string(),
    ];
    assert_eq!(args, expected);
}

#[test]
fn legacy_args_take_explicit_command() {
    let cmd = vec!["ls".to_string()];
    let args = legacy_run_args(1, 1, "/w", "/h", &cmd);
    assert_eq!(args.last().unwrap(), "ls");
    assert!(!args.contains(&"--max-turns".to_string()));
}
