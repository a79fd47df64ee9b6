//! The artifact generator: renders a definition and its lock record into the
//! build file and the entrypoint script. Rendering is a pure function of its
//! two inputs, so the same definition and lock always yield identical bytes.
use vstd::prelude::*;

use crate::codec::{enc_cat, lemma_enc_cat_push};
use crate::config::{ConfigView, ContainerConfig, EnvVar, EnvVarView, canon_env, sort_env};
use crate::lockfile::{ContainerLock, ContainerLockView, DependencyLock, DependencyLockView};
use crate::strutil::str_eq;

verus! {

/// The package argument of an apt install step: pinned with `=` unless the
/// version is "latest".
pub open spec fn apt_package(d: DependencyLockView) -> Seq<char> {
    if d.version != "latest"@ {
        d.package + "="@ + d.version
    } else {
        d.package
    }
}

/// The package argument of a pip install step: pinned with `==` unless the
/// version is "latest".
pub open spec fn pip_package(d: DependencyLockView) -> Seq<char> {
    if d.version != "latest"@ {
        d.package + "=="@ + d.version
    } else {
        d.package
    }
}

/// The install step for one locked dependency, dispatched by source; an
/// unrecognized source renders a marked placeholder comment, never a failure.
pub open spec fn dep_install_line(d: DependencyLockView) -> Seq<char> {
    if d.source == "apt"@ {
        "RUN apt-get update && apt-get install -y "@ + apt_package(d)
            + " && rm -rf /var/lib/apt/lists/*\n"@
    } else if d.source == "pip"@ {
        "RUN pip install "@ + pip_package(d) + "\n"@
    } else {
        "# TODO: Install "@ + d.package + " from "@ + d.source + "\n"@
    }
}

pub open spec fn dep_line_fn() -> spec_fn(DependencyLockView) -> Seq<char> {
    |d: DependencyLockView| dep_install_line(d)
}

/// The dependency section: absent when there is nothing to install.
pub open spec fn deps_section(ds: Seq<DependencyLockView>) -> Seq<char> {
    if ds.len() == 0 {
        Seq::empty()
    } else {
        "# Install dependencies\n"@ + enc_cat(ds, dep_line_fn()) + "\n"@
    }
}

/// One environment declaration.
pub open spec fn env_line(e: EnvVarView) -> Seq<char> {
    "ENV "@ + e.key + "="@ + e.value + "\n"@
}

pub open spec fn env_line_fn() -> spec_fn(EnvVarView) -> Seq<char> {
    |e: EnvVarView| env_line(e)
}

/// The environment section: declarations sorted by key, so the artifact does
/// not depend on declaration order.
pub open spec fn env_section(env: Option<Seq<EnvVarView>>) -> Seq<char> {
    match env {
        None => Seq::empty(),
        Some(es) => "# Set environment variables\n"@ + enc_cat(canon_env(es), env_line_fn())
            + "\n"@,
    }
}

/// One quoted command word.
pub open spec fn quoted(s: Seq<char>) -> Seq<char> {
    "\""@ + s + "\""@
}

/// Command words, quoted and comma-separated.
pub open spec fn cmd_join(cmd: Seq<Seq<char>>) -> Seq<char>
    decreases cmd.len(),
{
    if cmd.len() == 0 {
        Seq::empty()
    } else if cmd.len() == 1 {
        quoted(cmd[0])
    } else {
        quoted(cmd[0]) + ", "@ + cmd_join(cmd.drop_first())
    }
}

/// The final command directive, present only when the definition has one.
pub open spec fn cmd_section(cmd: Option<Seq<Seq<char>>>) -> Seq<char> {
    match cmd {
        None => Seq::empty(),
        Some(c) => "CMD ["@ + cmd_join(c) + "]\n"@,
    }
}

/// The whole build file: base image, system dependencies, per-dependency
/// install steps, sorted environment declarations, the UID/GID-parameterized
/// user creation, entrypoint installation, and the optional command.
pub open spec fn spec_dockerfile(c: ConfigView, l: ContainerLockView) -> Seq<char> {
    "FROM "@ + l.base_image + "\n\n"@
        + "# Install system dependencies\nRUN apt-get update && apt-get install -y \\\n    sudo \\\n    && rm -rf /var/lib/apt/lists/*\n\n"@
        + deps_section(l.dependencies) + env_section(c.environment)
        + "# Create user\nARG UID=1000\nARG GID=1000\nRUN groupadd -g $GID code && \\\n    useradd -m -u $UID -g $GID -s /bin/bash code && \\\n    usermod -aG sudo code && \\\n    echo 'code ALL=(ALL) NOPASSWD: ALL' >> /etc/sudoers\n\n"@
        + "# Copy and set entrypoint\nCOPY entrypoint.sh /entrypoint.sh\nRUN chmod +x /entrypoint.sh\n\n"@
        + "USER code\nWORKDIR /home/code/work\n\n"@ + "ENTRYPOINT [\"/entrypoint.sh\"]\n"@
        + cmd_section(c.command)
}

/// The fixed entrypoint script: it reconciles the in-container user's UID and
/// GID to the values supplied at run time and fixes ownership, which lets one
/// built image serve hosts with different user ids.
pub open spec fn entrypoint_text() -> Seq<char> {
    "#!/bin/bash\nset -e\n\n# Update UID/GID if needed\nif [ ! -z \"$UID\" ] && [ \"$UID\" != \"$(id -u)\" ]; then\n    sudo usermod -u $UID code\nfi\n\nif [ ! -z \"$GID\" ] && [ \"$GID\" != \"$(id -g)\" ]; then\n    sudo groupmod -g $GID code\n    sudo usermod -g $GID code\nfi\n\n# Fix ownership of home directory\nsudo chown -R code:code /home/code\n\nexec \"$@\"\n"@
}

/// Appends the install step for one locked dependency.
fn push_dep_line(out: &mut String, d: &DependencyLock)
    ensures
        final(out)@ == old(out)@ + dep_install_line(d.deep_view()),
{
    if str_eq(d.source.as_str(), "apt") {
        out.append("RUN apt-get update && apt-get install -y ");
        if !str_eq(d.version.as_str(), "latest") {
            out.append(d.package.as_str());
            out.append("=");
            out.append(d.version.as_str());
        } else {
            out.append(d.package.as_str());
        }
        out.append(" && rm -rf /var/lib/apt/lists/*\n");
        proof {
            assert(out@ =~= old(out)@ + dep_install_line(d.deep_view()));
        }
    } else if str_eq(d.source.as_str(), "pip") {
        out.append("RUN pip install ");
        if !str_eq(d.version.as_str(), "latest") {
            out.append(d.package.as_str());
            out.append("==");
            out.append(d.version.as_str());
        } else {
            out.append(d.package.as_str());
        }
        out.append("\n");
        proof {
            assert(out@ =~= old(out)@ + dep_install_line(d.deep_view()));
        }
    } else {
        out.append("# TODO: Install ");
        out.append(d.package.as_str());
        out.append(" from ");
        out.append(d.source.as_str());
        out.append("\n");
        proof {
            assert(out@ =~= old(out)@ + dep_install_line(d.deep_view()));
        }
    }
}

/// Appends one environment declaration.
fn push_env_line(out: &mut String, e: &EnvVar)
    ensures
        final(out)@ == old(out)@ + env_line(e.deep_view()),
{
    out.append("ENV ");
    out.append(e.key.as_str());
    out.append("=");
    out.append(e.value.as_str());
    out.append("\n");
    proof {
        assert(out@ =~= old(out)@ + env_line(e.deep_view()));
    }
}

/// Renders build artifacts from a definition and its lock record; both
/// renderings are pure functions of their inputs.
pub struct DockerfileGenerator;

impl DockerfileGenerator {
    /// Renders the build file for `config` under the resolved `lock`: the same
    /// inputs always produce the same text, byte for byte.
    #[verifier::rlimit(100)]
    pub fn generate(config: &ContainerConfig, lock: &ContainerLock) -> (r: String)
        ensures
            r@ == spec_dockerfile(config.deep_view(), lock.deep_view()),
    {
        let mut out = String::new();
        out.append("FROM ");
        out.append(lock.base_image.as_str());
        out.append("\n\n");
        out.append(
            "# Install system dependencies\nRUN apt-get update && apt-get install -y \\\n    sudo \\\n    && rm -rf /var/lib/apt/lists/*\n\n",
        );
        let ghost s2 = out@;
        proof {
            assert(s2 =~= "FROM "@ + lock.deep_view().base_image + "\n\n"@
                + "# Install system dependencies\nRUN apt-get update && apt-get install -y \\\n    sudo \\\n    && rm -rf /var/lib/apt/lists/*\n\n"@);
        }
        // dependency install steps
        if lock.dependencies.len() > 0 {
            out.append("# Install dependencies\n");
            let ghost base = out@;
            proof {
                assert(out@ =~= base + enc_cat(
                    lock.dependencies.deep_view().take(0),
                    dep_line_fn(),
                ));
            }
            let dn = lock.dependencies.len();
            let mut i: usize = 0;
            while i < dn
                invariant
                    0 <= i <= dn,
                    dn == lock.dependencies.len(),
                    out@ == base + enc_cat(
                        lock.dependencies.deep_view().take(i as int),
                        dep_line_fn(),
                    ),
                decreases dn - i,
            {
                push_dep_line(&mut out, &lock.dependencies[i]);
                proof {
                    let dv = lock.dependencies.deep_view();
                    assert(dv.take(i as int + 1) =~= dv.take(i as int).push(dv[i as int]));
                    lemma_enc_cat_push(dv.take(i as int), dv[i as int], dep_line_fn());
                    assert(out@ =~= base + enc_cat(dv.take(i as int + 1), dep_line_fn()));
                }
                i = i + 1;
            }
            out.append("\n");
            proof {
                let dv = lock.dependencies.deep_view();
                assert(dv.take(dn as int) =~= dv);
                assert(out@ =~= s2 + deps_section(dv));
            }
        } else {
            proof {
                assert(out@ =~= s2 + deps_section(lock.dependencies.deep_view()));
            }
        }
        let ghost s3 = out@;
        // environment declarations, sorted by key
        match &config.environment {
            None => {
                proof {
                    assert(out@ =~= s3 + env_section(config.deep_view().environment));
                }
            },
            Some(env) => {
                out.append("# Set environment variables\n");
                let sorted = sort_env(env);
                let ghost base = out@;
                proof {
                    assert(out@ =~= base + enc_cat(sorted.deep_view().take(0), env_line_fn()));
                }
                let en = sorted.len();
                let mut i: usize = 0;
                while i < en
                    invariant
                        0 <= i <= en,
                        en == sorted.len(),
                        out@ == base + enc_cat(sorted.deep_view().take(i as int), env_line_fn()),
                    decreases en - i,
                {
                    push_env_line(&mut out, &sorted[i]);
                    proof {
                        let dv = sorted.deep_view();
                        assert(dv.take(i as int + 1) =~= dv.take(i as int).push(dv[i as int]));
                        lemma_enc_cat_push(dv.take(i as int), dv[i as int], env_line_fn());
                        assert(out@ =~= base + enc_cat(dv.take(i as int + 1), env_line_fn()));
                    }
                    i = i + 1;
                }
                out.append("\n");
                proof {
                    assert(sorted.deep_view().take(en as int) =~= sorted.deep_view());
                    assert(out@ =~= s3 + env_section(config.deep_view().environment));
                }
            },
        }
        let ghost s4 = out@;
        out.append(
            "# Create user\nARG UID=1000\nARG GID=1000\nRUN groupadd -g $GID code && \\\n    useradd -m -u $UID -g $GID -s /bin/bash code && \\\n    usermod -aG sudo code && \\\n    echo 'code ALL=(ALL) NOPASSWD: ALL' >> /etc/sudoers\n\n",
        );
        out.append(
            "# Copy and set entrypoint\nCOPY entrypoint.sh /entrypoint.sh\nRUN chmod +x /entrypoint.sh\n\n",
        );
        out.append("USER code\nWORKDIR /home/code/work\n\n");
        out.append("ENTRYPOINT [\"/entrypoint.sh\"]\n");
        let ghost s5 = out@;
        // the final command directive, if the definition has one
        match &config.command {
            None => {
                proof {
                    assert(out@ =~= s5 + cmd_section(config.deep_view().command));
                }
            },
            Some(cmd) => {
                out.append("CMD [");
                let ghost base = out@;
                let cn = cmd.len();
                let mut i: usize = 0;
                while i < cn
                    invariant
                        0 <= i <= cn,
                        cn == cmd.len(),
                        i == 0 ==> out@ == base,
                        i > 0 ==> out@ == base + cmd_join(cmd.deep_view().take(i as int)),
                    decreases cn - i,
                {
                    if i > 0 {
                        out.append(", ");
                    }
                    out.append("\"");
                    out.append(cmd[i].as_str());
                    out.append("\"");
                    proof {
                        let dv = cmd.deep_view();
                        lemma_cmd_join_push(dv.take(i as int), dv[i as int]);
                        assert(dv.take(i as int + 1) =~= dv.take(i as int).push(dv[i as int]));
                        if i == 0 {
                            assert(out@ =~= base + cmd_join(dv.take(1)));
                        } else {
                            assert(out@ =~= base + cmd_join(dv.take(i as int + 1)));
                        }
                    }
                    i = i + 1;
                }
                out.append("]\n");
                proof {
                    let dv = cmd.deep_view();
                    assert(dv.take(cn as int) =~= dv);
                    if cn == 0 {
                        assert(cmd_join(dv) =~= Seq::<char>::empty());
                        assert(out@ =~= s5 + cmd_section(config.deep_view().command));
                    } else {
                        assert(out@ =~= s5 + cmd_section(config.deep_view().command));
                    }
                }
            },
        }
        proof {
            assert(out@ =~= spec_dockerfile(config.deep_view(), lock.deep_view()));
        }
        out
    }

    /// Renders the fixed entrypoint script.
    pub fn generate_entrypoint() -> (r: String)
        ensures
            r@ == entrypoint_text(),
    {
        "#!/bin/bash\nset -e\n\n# Update UID/GID if needed\nif [ ! -z \"$UID\" ] && [ \"$UID\" != \"$(id -u)\" ]; then\n    sudo usermod -u $UID code\nfi\n\nif [ ! -z \"$GID\" ] && [ \"$GID\" != \"$(id -g)\" ]; then\n    sudo groupmod -g $GID code\n    sudo usermod -g $GID code\nfi\n\n# Fix ownership of home directory\nsudo chown -R code:code /home/code\n\nexec \"$@\"\n".to_owned()
    }
}

/// Appending a word to a joined command adds a separator exactly when the
/// command was not empty.
proof fn lemma_cmd_join_push(s: Seq<Seq<char>>, x: Seq<char>)
    ensures
        s.len() == 0 ==> cmd_join(s.push(x)) == quoted(x),
        s.len() > 0 ==> cmd_join(s.push(x)) == cmd_join(s) + ", "@ + quoted(x),
    decreases s.len(),
{
    if s.len() == 0 {
        assert(s.push(x)[0] == x);
        assert(cmd_join(s.push(x)) == quoted(x));
    } else if s.len() == 1 {
        assert(s.push(x)[0] == s[0]);
        assert(s.push(x).drop_first() =~= seq![x]);
        assert(cmd_join(seq![x]) == quoted(x));
        assert(cmd_join(s.push(x)) == quoted(s[0]) + ", "@ + cmd_join(seq![x]));
        assert(cmd_join(s) == quoted(s[0]));
    } else {
        assert(s.push(x).drop_first() =~= s.drop_first().push(x));
        lemma_cmd_join_push(s.drop_first(), x);
        assert(s.push(x)[0] == s[0]);
        assert(cmd_join(s.push(x)) == quoted(s[0]) + ", "@ + (cmd_join(s.drop_first()) + ", "@
            + quoted(x)));
        assert(quoted(s[0]) + ", "@ + (cmd_join(s.drop_first()) + ", "@ + quoted(x)) =~= (quoted(
            s[0],
        ) + ", "@ + cmd_join(s.drop_first())) + ", "@ + quoted(x));
    }
}

} // verus!
