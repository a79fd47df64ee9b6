//! Assembly of the engine's `run` argument vectors: every flag, mount,
//! environment binding and trailing command the tool passes, in the exact
//! order it passes them. Spawning the process happens outside the library.
use vstd::prelude::*;

use crate::config::{ConfigView, ContainerConfig, EnvVarView, TmpfsMountView, VolumeMountView};
use crate::lockfile::ContainerLock;
use crate::strutil::{dec_digits, push_decimal};

verus! {

/// The flat argument lists of a sequence of items, concatenated.
pub open spec fn args_cat<T>(xs: Seq<T>, f: spec_fn(T) -> Seq<Seq<char>>) -> Seq<Seq<char>>
    decreases xs.len(),
{
    if xs.len() == 0 {
        Seq::empty()
    } else {
        f(xs[0]) + args_cat(xs.drop_first(), f)
    }
}

pub proof fn lemma_args_cat_push<T>(xs: Seq<T>, x: T, f: spec_fn(T) -> Seq<Seq<char>>)
    ensures
        args_cat(xs.push(x), f) == args_cat(xs, f) + f(x),
    decreases xs.len(),
{
    if xs.len() == 0 {
        assert(xs.push(x)[0] == x);
        assert(xs.push(x).drop_first() =~= xs);
        assert(args_cat(xs, f) == Seq::<Seq<char>>::empty());
        assert(args_cat(xs.push(x), f) == f(x) + args_cat(xs, f));
        assert(args_cat(xs, f) + f(x) =~= f(x) + args_cat(xs, f));
    } else {
        assert(xs.push(x).drop_first() =~= xs.drop_first().push(x));
        lemma_args_cat_push(xs.drop_first(), x, f);
        assert(xs.push(x)[0] == xs[0]);
        assert(args_cat(xs.push(x), f) =~= f(xs[0]) + (args_cat(xs.drop_first(), f) + f(x)));
        assert(f(xs[0]) + (args_cat(xs.drop_first(), f) + f(x)) =~= (f(xs[0]) + args_cat(
            xs.drop_first(),
            f,
        )) + f(x));
    }
}

/// An absent boolean option falls back to its documented default.
pub open spec fn opt_or(o: Option<bool>, d: bool) -> bool {
    match o {
        Some(b) => b,
        None => d,
    }
}

/// One forwarded environment binding.
pub open spec fn env_arg(e: EnvVarView) -> Seq<Seq<char>> {
    seq!["-e"@, e.key + "="@ + e.value]
}

pub open spec fn env_arg_fn() -> spec_fn(EnvVarView) -> Seq<Seq<char>> {
    |e: EnvVarView| env_arg(e)
}

/// The bind-mount text of a volume; a trailing marker makes it read-only.
pub open spec fn mount_str(v: VolumeMountView) -> Seq<char> {
    if v.read_only == Some(true) {
        v.source + ":"@ + v.target + ":ro"@
    } else {
        v.source + ":"@ + v.target
    }
}

pub open spec fn mount_arg(v: VolumeMountView) -> Seq<Seq<char>> {
    seq!["-v"@, mount_str(v)]
}

pub open spec fn mount_arg_fn() -> spec_fn(VolumeMountView) -> Seq<Seq<char>> {
    |v: VolumeMountView| mount_arg(v)
}

/// The tmpfs text: the target, with the read-only and size options joined
/// after it when present.
pub open spec fn tmpfs_str(t: TmpfsMountView) -> Seq<char> {
    if t.read_only == Some(true) {
        match t.size {
            Some(sz) => t.target + ":ro,size="@ + sz,
            None => t.target + ":ro"@,
        }
    } else {
        match t.size {
            Some(sz) => t.target + ":size="@ + sz,
            None => t.target,
        }
    }
}

pub open spec fn tmpfs_arg(t: TmpfsMountView) -> Seq<Seq<char>> {
    seq!["--tmpfs"@, tmpfs_str(t)]
}

pub open spec fn tmpfs_arg_fn() -> spec_fn(TmpfsMountView) -> Seq<Seq<char>> {
    |t: TmpfsMountView| tmpfs_arg(t)
}

/// The mounts used when the definition declares none: the working directory
/// as the in-container workspace, and the two fixed home-directory entries.
pub open spec fn default_mount_args(cwd: Seq<char>, home: Seq<char>) -> Seq<Seq<char>> {
    seq![
        "-v"@,
        cwd + ":/home/code/work"@,
        "-v"@,
        home + "/.dev-env:/home/code/.dev-env"@,
        "-v"@,
        home + "/.dev-env.json:/home/code/.dev-env.json"@,
    ]
}

/// The command that actually runs: the caller's words when any were given,
/// else the definition's default, else nothing.
pub open spec fn effective_command(c: ConfigView, command: Seq<Seq<char>>) -> Seq<Seq<char>> {
    if command.len() > 0 {
        command
    } else {
        match c.command {
            Some(cc) => cc,
            None => Seq::empty(),
        }
    }
}

/// Everything passed to the engine's `run` for a configured container, in
/// order: the removal/interactive/tty flags by their defaults, the UID and
/// GID forwarded for the entrypoint, the declared environment in declaration
/// order, the declared or default mounts, the declared or default tmpfs, the
/// GPU flag, the image tag, and the effective command.
pub open spec fn spec_run_args(
    c: ConfigView,
    image: Seq<char>,
    uid: u32,
    gid: u32,
    cwd: Seq<char>,
    home: Seq<char>,
    command: Seq<Seq<char>>,
) -> Seq<Seq<char>> {
    seq!["run"@] + (if opt_or(c.remove, true) {
        seq!["--rm"@]
    } else {
        Seq::empty()
    }) + (if opt_or(c.interactive, true) {
        seq!["-i"@]
    } else {
        Seq::empty()
    }) + (if opt_or(c.tty, true) {
        seq!["-t"@]
    } else {
        Seq::empty()
    }) + seq!["-e"@, "UID="@ + dec_digits(uid as nat), "-e"@, "GID="@ + dec_digits(gid as nat)] + (
    match c.environment {
        None => Seq::empty(),
        Some(es) => args_cat(es, env_arg_fn()),
    }) + (match c.volumes {
        None => default_mount_args(cwd, home),
        Some(vs) => args_cat(vs, mount_arg_fn()),
    }) + (match c.tmpfs {
        None => seq!["--tmpfs"@, "/home/code/work/build:ro,size=1m"@],
        Some(ts) => args_cat(ts, tmpfs_arg_fn()),
    }) + (if opt_or(c.gpu, false) {
        seq!["--gpus"@, "all"@]
    } else {
        Seq::empty()
    }) + seq![image] + effective_command(c, command)
}

/// The fixed argument vector of the fallback mode, which runs the default
/// image with the standard mounts and GPU access, followed by the effective
/// command.
pub open spec fn spec_legacy_args(
    uid: u32,
    gid: u32,
    cwd: Seq<char>,
    home: Seq<char>,
    command: Seq<Seq<char>>,
) -> Seq<Seq<char>> {
    seq![
        "run"@,
        "--rm"@,
        "-it"@,
        "-e"@,
        "UID="@ + dec_digits(uid as nat),
        "-e"@,
        "GID="@ + dec_digits(gid as nat),
        "-v"@,
        cwd + ":/home/code/work"@,
        "--tmpfs"@,
        "/home/code/work/build:ro,size=1m"@,
        "-v"@,
        home + "/.dev-env:/home/code/.dev-env"@,
        "-v"@,
        home + "/.dev-env.json:/home/code/.dev-env.json"@,
        "-t"@,
        "--gpus"@,
        "all"@,
        "dev-env"@,
    ] + (if command.len() > 0 {
        command
    } else {
        seq!["dev-env"@, "--dangerously-skip-permissions"@, "--max-turns"@, "99999999"@]
    })
}

/// Appends one argument.
fn push_one(args: &mut Vec<String>, a: String)
    ensures
        final(args).deep_view() == old(args).deep_view() + seq![a@],
{
    let ghost prevseq = args@;
    let ghost pre = args.deep_view();
    let ghost av = a@;
    args.push(a);
    proof {
        assert forall|k: int| 0 <= k < pre.len() implies args.deep_view()[k] == pre[k] by {
            assert(args@[k] == prevseq[k]);
            assert(pre[k] == prevseq[k].deep_view());
            assert(args.deep_view()[k] == args@[k].deep_view());
        }
        assert(args.deep_view()[pre.len() as int] == args@[pre.len() as int].deep_view());
        assert(args.deep_view() =~~= pre + seq![av]);
    }
}

/// Appends one literal argument.
fn push_lit(args: &mut Vec<String>, a: &str)
    ensures
        final(args).deep_view() == old(args).deep_view() + seq![a@],
{
    push_one(args, a.to_owned());
}

/// Appends a flag with its value.
fn push_two(args: &mut Vec<String>, a: &str, b: String)
    ensures
        final(args).deep_view() == old(args).deep_view() + seq![a@, b@],
{
    let ghost bv = b@;
    push_lit(args, a);
    push_one(args, b);
    proof {
        assert(args.deep_view() =~~= old(args).deep_view() + seq![a@, bv]);
    }
}

/// The `NAME=value` binding text.
fn env_binding(key: &str, value: &str) -> (r: String)
    ensures
        r@ == key@ + "="@ + value@,
{
    let mut s = String::new();
    s.append(key);
    s.append("=");
    s.append(value);
    proof {
        assert(s@ =~= key@ + "="@ + value@);
    }
    s
}

/// The `UID=n` or `GID=n` binding text.
fn id_binding(tag: &str, id: u32) -> (r: String)
    ensures
        r@ == tag@ + dec_digits(id as nat),
{
    let mut s = String::new();
    s.append(tag);
    push_decimal(id as u64, &mut s);
    proof {
        assert(s@ =~= tag@ + dec_digits(id as nat));
    }
    s
}

/// The verified argument vector for running a configured container: exactly
/// `spec_run_args` over the definition, the lock's image tag, the caller's
/// identity, directories and command.
#[verifier::rlimit(100)]
pub fn run_container_args(
    config: &ContainerConfig,
    lock: &ContainerLock,
    uid: u32,
    gid: u32,
    current_dir: &str,
    home_dir: &str,
    command: &Vec<String>,
) -> (r: Vec<String>)
    ensures
        r.deep_view() == spec_run_args(
            config.deep_view(),
            lock.deep_view().image_hash,
            uid,
            gid,
            current_dir@,
            home_dir@,
            command.deep_view(),
        ),
{
    let ghost cv = config.deep_view();
    let mut args: Vec<String> = Vec::new();
    push_lit(&mut args, "run");
    let ghost t1 = seq!["run"@];
    proof {
        assert(args.deep_view() =~~= t1);
    }
    let remove = match &config.remove {
        Some(b) => *b,
        None => true,
    };
    if remove {
        push_lit(&mut args, "--rm");
    }
    let ghost t2 = t1 + (if opt_or(cv.remove, true) {
        seq!["--rm"@]
    } else {
        Seq::<Seq<char>>::empty()
    });
    proof {
        assert(args.deep_view() =~~= t2);
    }
    let interactive = match &config.interactive {
        Some(b) => *b,
        None => true,
    };
    if interactive {
        push_lit(&mut args, "-i");
    }
    let ghost t3 = t2 + (if opt_or(cv.interactive, true) {
        seq!["-i"@]
    } else {
        Seq::<Seq<char>>::empty()
    });
    proof {
        assert(args.deep_view() =~~= t3);
    }
    let tty = match &config.tty {
        Some(b) => *b,
        None => true,
    };
    if tty {
        push_lit(&mut args, "-t");
    }
    let ghost t4 = t3 + (if opt_or(cv.tty, true) {
        seq!["-t"@]
    } else {
        Seq::<Seq<char>>::empty()
    });
    proof {
        assert(args.deep_view() =~~= t4);
    }
    push_two(&mut args, "-e", id_binding("UID=", uid));
    push_two(&mut args, "-e", id_binding("GID=", gid));
    let ghost t5 = t4 + seq!["-e"@, "UID="@ + dec_digits(uid as nat), "-e"@, "GID="@ + dec_digits(
        gid as nat,
    )];
    proof {
        assert(args.deep_view() =~~= t5);
    }
    match &config.environment {
        None => {},
        Some(es) => {
            let ghost base = args.deep_view();
            let n = es.len();
            let mut i: usize = 0;
            proof {
                assert(args.deep_view() =~~= base + args_cat(es.deep_view().take(0), env_arg_fn()));
            }
            while i < n
                invariant
                    0 <= i <= n,
                    n == es.len(),
                    args.deep_view() == base + args_cat(es.deep_view().take(i as int), env_arg_fn()),
                decreases n - i,
            {
                let kv = env_binding(es[i].key.as_str(), es[i].value.as_str());
                push_two(&mut args, "-e", kv);
                proof {
                    let dv = es.deep_view();
                    assert(dv.take(i as int + 1) =~= dv.take(i as int).push(dv[i as int]));
                    lemma_args_cat_push(dv.take(i as int), dv[i as int], env_arg_fn());
                    assert(args.deep_view() =~~= base + args_cat(
                        dv.take(i as int + 1),
                        env_arg_fn(),
                    ));
                }
                i = i + 1;
            }
            proof {
                assert(es.deep_view().take(n as int) =~= es.deep_view());
            }
        },
    }
    let ghost t6 = t5 + (match cv.environment {
        None => Seq::<Seq<char>>::empty(),
        Some(es) => args_cat(es, env_arg_fn()),
    });
    proof {
        assert(args.deep_view() =~~= t6);
    }
    match &config.volumes {
        None => {
            let mut m1 = String::new();
            m1.append(current_dir);
            m1.append(":/home/code/work");
            push_two(&mut args, "-v", m1);
            let mut m2 = String::new();
            m2.append(home_dir);
            m2.append("/.dev-env:/home/code/.dev-env");
            push_two(&mut args, "-v", m2);
            let mut m3 = String::new();
            m3.append(home_dir);
            m3.append("/.dev-env.json:/home/code/.dev-env.json");
            push_two(&mut args, "-v", m3);
            proof {
                assert(args.deep_view() =~~= t6 + default_mount_args(current_dir@, home_dir@));
            }
        },
        Some(vs) => {
            let ghost base = args.deep_view();
            let n = vs.len();
            let mut i: usize = 0;
            proof {
                assert(args.deep_view() =~~= base + args_cat(
                    vs.deep_view().take(0),
                    mount_arg_fn(),
                ));
            }
            while i < n
                invariant
                    0 <= i <= n,
                    n == vs.len(),
                    args.deep_view() == base + args_cat(
                        vs.deep_view().take(i as int),
                        mount_arg_fn(),
                    ),
                decreases n - i,
            {
                let v = &vs[i];
                let mut m = String::new();
                m.append(v.source.as_str());
                m.append(":");
                m.append(v.target.as_str());
                let ro = match &v.read_only {
                    Some(b) => *b,
                    None => false,
                };
                if ro {
                    m.append(":ro");
                }
                proof {
                    assert(m@ =~= mount_str(vs.deep_view()[i as int]));
                }
                push_two(&mut args, "-v", m);
                proof {
                    let dv = vs.deep_view();
                    assert(dv.take(i as int + 1) =~= dv.take(i as int).push(dv[i as int]));
                    lemma_args_cat_push(dv.take(i as int), dv[i as int], mount_arg_fn());
                    assert(args.deep_view() =~~= base + args_cat(
                        dv.take(i as int + 1),
                        mount_arg_fn(),
                    ));
                }
                i = i + 1;
            }
            proof {
                assert(vs.deep_view().take(n as int) =~= vs.deep_view());
            }
        },
    }
    let ghost t7 = t6 + (match cv.volumes {
        None => default_mount_args(current_dir@, home_dir@),
        Some(vs) => args_cat(vs, mount_arg_fn()),
    });
    proof {
        assert(args.deep_view() =~~= t7);
    }
    match &config.tmpfs {
        None => {
            push_two(&mut args, "--tmpfs", "/home/code/work/build:ro,size=1m".to_owned());
        },
        Some(ts) => {
            let ghost base = args.deep_view();
            let n = ts.len();
            let mut i: usize = 0;
            proof {
                assert(args.deep_view() =~~= base + args_cat(
                    ts.deep_view().take(0),
                    tmpfs_arg_fn(),
                ));
            }
            while i < n
                invariant
                    0 <= i <= n,
                    n == ts.len(),
                    args.deep_view() == base + args_cat(
                        ts.deep_view().take(i as int),
                        tmpfs_arg_fn(),
                    ),
                decreases n - i,
            {
                let t = &ts[i];
                let mut m = String::new();
                m.append(t.target.as_str());
                let ro = match &t.read_only {
                    Some(b) => *b,
                    None => false,
                };
                if ro {
                    match &t.size {
                        Some(sz) => {
                            m.append(":ro,size=");
                            m.append(sz.as_str());
                        },
                        None => {
                            m.append(":ro");
                        },
                    }
                } else {
                    match &t.size {
                        Some(sz) => {
                            m.append(":size=");
                            m.append(sz.as_str());
                        },
                        None => {},
                    }
                }
                proof {
                    assert(m@ =~= tmpfs_str(ts.deep_view()[i as int]));
                }
                push_two(&mut args, "--tmpfs", m);
                proof {
                    let dv = ts.deep_view();
                    assert(dv.take(i as int + 1) =~= dv.take(i as int).push(dv[i as int]));
                    lemma_args_cat_push(dv.take(i as int), dv[i as int], tmpfs_arg_fn());
                    assert(args.deep_view() =~~= base + args_cat(
                        dv.take(i as int + 1),
                        tmpfs_arg_fn(),
                    ));
                }
                i = i + 1;
            }
            proof {
                assert(ts.deep_view().take(n as int) =~= ts.deep_view());
            }
        },
    }
    let ghost t8 = t7 + (match cv.tmpfs {
        None => seq!["--tmpfs"@, "/home/code/work/build:ro,size=1m"@],
        Some(ts) => args_cat(ts, tmpfs_arg_fn()),
    });
    proof {
        assert(args.deep_view() =~~= t8);
    }
    let gpu = match &config.gpu {
        Some(b) => *b,
        None => false,
    };
    if gpu {
        push_lit(&mut args, "--gpus");
        push_lit(&mut args, "all");
    }
    let ghost t9 = t8 + (if opt_or(cv.gpu, false) {
        seq!["--gpus"@, "all"@]
    } else {
        Seq::<Seq<char>>::empty()
    });
    proof {
        assert(args.deep_view() =~~= t9);
    }
    push_one(&mut args, lock.image_hash.clone());
    let ghost t10 = t9 + seq![lock.deep_view().image_hash];
    proof {
        assert(args.deep_view() =~~= t10);
    }
    if command.len() > 0 {
        push_all(&mut args, command);
    } else {
        match &config.command {
            Some(cc) => {
                push_all(&mut args, cc);
            },
            None => {},
        }
    }
    proof {
        assert(args.deep_view() =~~= t10 + effective_command(cv, command.deep_view()));
        assert(args.deep_view() =~~= spec_run_args(
            cv,
            lock.deep_view().image_hash,
            uid,
            gid,
            current_dir@,
            home_dir@,
            command.deep_view(),
        ));
    }
    args
}

/// Appends every element of `extra`.
fn push_all(args: &mut Vec<String>, extra: &Vec<String>)
    ensures
        final(args).deep_view() == old(args).deep_view() + extra.deep_view(),
{
    let ghost base = args.deep_view();
    let n = extra.len();
    let mut i: usize = 0;
    proof {
        assert(args.deep_view() =~~= base + extra.deep_view().take(0));
    }
    while i < n
        invariant
            0 <= i <= n,
            n == extra.len(),
            args.deep_view() == base + extra.deep_view().take(i as int),
        decreases n - i,
    {
        push_one(args, extra[i].clone());
        proof {
            let dv = extra.deep_view();
            assert(dv.take(i as int + 1) =~= dv.take(i as int).push(dv[i as int]));
            assert(args.deep_view() =~~= base + dv.take(i as int + 1));
        }
        i = i + 1;
    }
    proof {
        assert(extra.deep_view().take(n as int) =~= extra.deep_view());
    }
}

/// The verified argument vector of the fallback mode.
pub fn legacy_run_args(
    uid: u32,
    gid: u32,
    current_dir: &str,
    home_dir: &str,
    command: &Vec<String>,
) -> (r: Vec<String>)
    ensures
        r.deep_view() == spec_legacy_args(uid, gid, current_dir@, home_dir@, command.deep_view()),
{
    let mut args: Vec<String> = Vec::new();
    push_lit(&mut args, "run");
    push_lit(&mut args, "--rm");
    push_lit(&mut args, "-it");
    push_two(&mut args, "-e", id_binding("UID=", uid));
    push_two(&mut args, "-e", id_binding("GID=", gid));
    let mut m1 = String::new();
    m1.append(current_dir);
    m1.append(":/home/code/work");
    push_two(&mut args, "-v", m1);
    push_two(&mut args, "--tmpfs", "/home/code/work/build:ro,size=1m".to_owned());
    let mut m2 = String::new();
    m2.append(home_dir);
    m2.append("/.dev-env:/home/code/.dev-env");
    push_two(&mut args, "-v", m2);
    let mut m3 = String::new();
    m3.append(home_dir);
    m3.append("/.dev-env.json:/home/code/.dev-env.json");
    push_two(&mut args, "-v", m3);
    push_lit(&mut args, "-t");
    push_lit(&mut args, "--gpus");
    push_lit(&mut args, "all");
    push_lit(&mut args, "dev-env");
    let ghost head = seq![
        "run"@,
        "--rm"@,
        "-it"@,
        "-e"@,
        "UID="@ + dec_digits(uid as nat),
        "-e"@,
        "GID="@ + dec_digits(gid as nat),
        "-v"@,
        current_dir@ + ":/home/code/work"@,
        "--tmpfs"@,
        "/home/code/work/build:ro,size=1m"@,
        "-v"@,
        home_dir@ + "/.dev-env:/home/code/.dev-env"@,
        "-v"@,
        home_dir@ + "/.dev-env.json:/home/code/.dev-env.json"@,
        "-t"@,
        "--gpus"@,
        "all"@,
        "dev-env"@,
    ];
    proof {
        assert(args.deep_view() =~~= head);
    }
    if command.len() > 0 {
        push_all(&mut args, command);
    } else {
        push_lit(&mut args, "dev-env");
        push_lit(&mut args, "--dangerously-skip-permissions");
        push_lit(&mut args, "--max-turns");
        push_lit(&mut args, "99999999");
    }
    proof {
        assert(args.deep_view() =~~= spec_legacy_args(
            uid,
            gid,
            current_dir@,
            home_dir@,
            command.deep_view(),
        ));
    }
    args
}

} // verus!
