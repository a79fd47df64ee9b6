use containers::engine::{ContainerEngine, EngineType, nvidia_args_for, output_lists_container,
    output_lists_image, parse_engine};

#[test]
fn test_from_str() {
    assert_eq!("docker".parse::<EngineType>().unwrap(), EngineType::Docker);
    assert_eq!("podman".parse::<EngineType>().unwrap(), EngineType::Podman);
    assert_eq!("DOCKER".parse::<EngineType>().unwrap(), EngineType::Docker);
    assert!("unknown".parse::<EngineType>().is_err());
}

#[test]
fn test_as_command() {
    assert_eq!(EngineType::Docker.as_command(), "docker");
    assert_eq!(EngineType::Podman.as_command(), "podman");
}

#[test]
fn test_display() {
    assert_eq!(EngineType::Docker.name(), "docker");
    assert_eq!(EngineType::Podman.name(), "podman");
}

#[test]
fn test_default() {
    assert_eq!(EngineType::default(), EngineType::Podman);
}

#[test]
fn parse_engine_folds_unicode_case() {
    // the Kelvin sign lowercases to a plain k
    assert_eq!("doc\u{212A}er".parse::<EngineType>().unwrap(), EngineType::Docker);
    assert_eq!("PoDmAn".parse::<EngineType>().unwrap(), EngineType::Podman);
}

#[test]
fn listings_accept_carriage_return_line_endings() {
    assert!(output_lists_container("NAMES\r\ndev\r\n", "dev"));
    assert!(!output_lists_container("NAMES\r\ndev\r\n", "dev\r"));
    assert!(output_lists_image("REPOSITORY:TAG\r\nlocalhost/dev-env:latest\r\n", "dev-env:latest"));
}

#[test]
fn parse_engine_rejects_with_message() {
    let err = parse_engine("runc").unwrap_err();
    assert_eq!(err, "Unknown engine type: runc");
}

#[test]
fn nvidia_args_per_engine() {
    assert_eq!(nvidia_args_for("docker", true), vec!["--gpus", "all"]);
    assert_eq!(
        nvidia_args_for("podman", true),
        vec!["--device", "nvidia.com/gpu=all", "--security-opt", "label=disable"]
    );
    assert!(nvidia_args_for("docker", false).is_empty());
    assert!(nvidia_args_for("cri", true).is_empty());
}

#[test]
fn image_listing_is_scanned_by_suffix() {
    let out = "REPOSITORY:TAG\nubuntu:latest\nlocalhost/dev-env:latest\n";
    assert!(output_lists_image(out, "dev-env:latest"));
    assert!(output_lists_image(out, "ubuntu:latest"));
    assert!(!output_lists_image(out, "alpine:latest"));
}

#[test]
fn container_listing_is_scanned_by_exact_line() {
    let out = "NAMES\ndev\nother-box\n";
    assert!(output_lists_container(out, "dev"));
    assert!(output_lists_container(out, "other-box"));
    assert!(!output_lists_container(out, "dev2"));
    assert!(!output_lists_container(out, "ot"));
}

#[test]
fn engine_new_fails_when_binary_missing() {
    let err = ContainerEngine::new("docker", false, false).unwrap_err();
    assert_eq!(err.message(), "Container engine 'docker' not found");
}

#[test]
fn engine_argument_vectors() {
    let e = ContainerEngine::new("docker", true, true).unwrap();
    assert_eq!(e.command_name(), "docker");
    assert_eq!(
        e.image_list_args(),
        vec!["images", "--format", "table {{.Repository}}:{{.Tag}}"]
    );
    assert_eq!(e.container_list_args(true), vec!["ps", "-a", "--format", "table {{.Names}}"]);
    assert_eq!(e.container_list_args(false), vec!["ps", "--format", "table {{.Names}}"]);
    assert_eq!(e.remove_container_args("dev"), vec!["rm", "-f", "dev"]);
    assert_eq!(
        e.build_image_args("dev-env:latest", "dockerfiles/Dockerfile.dev"),
        vec!["build", "-t", "dev-env:latest", "-f", "dockerfiles/Dockerfile.dev", "."]
    );
    assert_eq!(e.start_container_args("dev"), vec!["start", "dev"]);
    assert_eq!(e.exec_container_args("dev"), vec!["exec", "-it", "dev", "/bin/bash"]);
    assert_eq!(
        e.create_and_run_container_args("dev", "dev-env:latest", "/work/proj"),
        vec![
            "run",
            "-it",
            "--name",
            "dev",
            "-v",
            "/work/proj:/work/proj",
            "-w",
            "/work/proj",
            "--gpus",
            "all",
            "dev-env:latest",
            "/bin/bash"
        ]
    );
}
