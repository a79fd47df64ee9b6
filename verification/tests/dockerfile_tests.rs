use containers::config::{ContainerConfig, Dependency, EnvVar};
use containers::dockerfile::DockerfileGenerator;
use containers::lockfile::Lockfile;

fn config_with(
    environment: Option<Vec<EnvVar>>,
    command: Option<Vec<String>>,
    dependencies: Option<Vec<Dependency>>,
) -> ContainerConfig {
    ContainerConfig {
        name: "dev".to_string(),
        base_image: Some("ubuntu:22.04".to_string()),
        command,
        environment,
        volumes: None,
        tmpfs: None,
        dependencies,
        gpu: None,
        interactive: None,
        tty: None,
        remove: None,
        build_context: None,
    }
}

fn lock_of(config: &ContainerConfig) -> containers::lockfile::ContainerLock {
    let entries = vec![("dev".to_string(), config_dup(config))];
    let mut lf = Lockfile::generate_from_config(&entries).unwrap();
    lf.containers.pop().unwrap().1
}

fn config_dup(c: &ContainerConfig) -> ContainerConfig {
    ContainerConfig {
        name: c.name.clone(),
        base_image: c.base_image.clone(),
        command: c.command.clone(),
        environment: c.environment.clone(),
        volumes: c.volumes.clone(),
        tmpfs: c.tmpfs.clone(),
        dependencies: c.dependencies.clone(),
        gpu: c.gpu,
        interactive: c.interactive,
        tty: c.tty,
        remove: c.remove,
        build_context: None,
    }
}

const FIXED_MIDDLE: &str = "# Create user\nARG UID=1000\nARG GID=1000\nRUN groupadd -g $GID code && \\\n    useradd -m -u $UID -g $GID -s /bin/bash code && \\\n    usermod -aG sudo code && \\\n    echo 'code ALL=(ALL) NOPASSWD: ALL' >> /etc/sudoers\n\n# Copy and set entrypoint\nCOPY entrypoint.sh /entrypoint.sh\nRUN chmod +x /entrypoint.sh\n\nUSER code\nWORKDIR /home/code/work\n\nENTRYPOINT [\"/entrypoint.sh\"]\n";

const SYS_DEPS: &str = "# Install system dependencies\nRUN apt-get update && apt-get install -y \\\n    sudo \\\n    && rm -rf /var/lib/apt/lists/*\n\n";

#[test]
fn generate_minimal_definition() {
    let config = config_with(None, None, None);
    let lock = lock_of(&config);
    let text = DockerfileGenerator::generate(&config, &lock);
    let expected = format!("FROM ubuntu:22.04\n\n{}{}", SYS_DEPS, FIXED_MIDDLE);
    assert_eq!(text, expected);
}

#[test]
fn generate_is_deterministic() {
    let config = config_with(None, None, None);
    let lock = lock_of(&config);
    let a = DockerfileGenerator::generate(&config, &lock);
    let b = DockerfileGenerator::generate(&config, &lock);
    assert_eq!(a, b);
}

#[test]
fn generate_renders_dependencies_by_source() {
    let deps = vec![
        Dependency {
            package: "curl".to_string(),
            version: None,
            source: Some("apt".to_string()),
        },
        Dependency {
            package: "requests".to_string(),
            version: Some("2.31".to_string()),
            source: Some("pip".to_string()),
        },
        Dependency {
            package: "mystery".to_string(),
            version: None,
            source: Some("brew".to_string()),
        },
    ];
    let config = config_with(None, None, Some(deps));
    let lock = lock_of(&config);
    let text = DockerfileGenerator::generate(&config, &lock);
    let deps_section = "# Install dependencies\nRUN apt-get update && apt-get install -y curl && rm -rf /var/lib/apt/lists/*\nRUN pip install requests==2.31\n# TODO: Install mystery from brew\n\n";
    let expected = format!("FROM ubuntu:22.04\n\n{}{}{}", SYS_DEPS, deps_section, FIXED_MIDDLE);
    assert_eq!(text, expected);
}

#[test]
fn generate_sorts_environment_and_quotes_command() {
    let env = vec![
        EnvVar { key: "ZED".to_string(), value: "9".to_string() },
        EnvVar { key: "ALPHA".to_string(), value: "1".to_string() },
    ];
    let command = vec!["bash".to_string(), "-l".to_string()];
    let config = config_with(Some(env), Some(command), None);
    let lock = lock_of(&config);
    let text = DockerfileGenerator::generate(&config, &lock);
    let env_section = "# Set environment variables\nENV ALPHA=1\nENV ZED=9\n\n";
    let expected = format!(
        "FROM ubuntu:22.04\n\n{}{}{}CMD [\"bash\", \"-l\"]\n",
        SYS_DEPS, env_section, FIXED_MIDDLE
    );
    assert_eq!(text, expected);
}

#[test]
fn entrypoint_reconciles_ids() {
    let script = DockerfileGenerator::generate_entrypoint();
    let expected = "#!/bin/bash\nset -e\n\n# Update UID/GID if needed\nif [ ! -z \"$UID\" ] && [ \"$UID\" != \"$(id -u)\" ]; then\n    sudo usermod -u $UID code\nfi\n\nif [ ! -z \"$GID\" ] && [ \"$GID\" != \"$(id -g)\" ]; then\n    sudo groupmod -g $GID code\n    sudo usermod -g $GID code\nfi\n\n# Fix ownership of home directory\nsudo chown -R code:code /home/code\n\nexec \"$@\"\n";
    assert_eq!(script, expected);
}
