//! Resolution of one invocation's settings: which build file to use, what the
//! container is called, and which engine runs it. The inputs all arrive as
//! plain values; reading flags and environment variables happens outside.
use vstd::prelude::*;

verus! {

/// The index of the last path separator, or -1 when there is none.
pub open spec fn last_slash(p: Seq<char>) -> int
    decreases p.len(),
{
    if p.len() == 0 {
        -1
    } else if p.last() == '/' {
        p.len() - 1
    } else {
        last_slash(p.drop_last())
    }
}

/// The directory part of a path: the text before the last separator, the root
/// for a top-level entry, empty for a bare file name, and `.` for an empty
/// path.
pub open spec fn parent_dir(p: Seq<char>) -> Seq<char> {
    let i = last_slash(p);
    if i == -1 {
        if p.len() == 0 {
            "."@
        } else {
            Seq::empty()
        }
    } else if i == 0 {
        "/"@
    } else {
        p.take(i)
    }
}

/// The directory with a leading separator removed.
pub open spec fn strip_root(d: Seq<char>) -> Seq<char> {
    if d.len() > 0 && d[0] == '/' {
        d.drop_first()
    } else {
        d
    }
}

pub open spec fn dash_char(c: char) -> char {
    if c == '/' {
        '-'
    } else {
        c
    }
}

/// Every separator replaced with a dash.
pub open spec fn dashed(d: Seq<char>) -> Seq<char> {
    d.map_values(|c: char| dash_char(c))
}

/// The default container name for a build file: its directory, without the
/// leading separator and with the remaining separators as dashes.
pub open spec fn container_name_of(path: Seq<char>) -> Seq<char> {
    dashed(strip_root(parent_dir(path)))
}

proof fn lemma_last_slash_at(s: Seq<char>, i: int)
    requires
        0 <= i < s.len(),
        s[i] == '/',
        forall|k: int| i < k < s.len() ==> #[trigger] s[k] != '/',
    ensures
        last_slash(s) == i,
    decreases s.len(),
{
    if i == s.len() - 1 {
    } else {
        assert(s.last() != '/');
        assert(s.drop_last()[i] == '/');
        lemma_last_slash_at(s.drop_last(), i);
    }
}

proof fn lemma_last_slash_none(s: Seq<char>)
    requires
        forall|k: int| 0 <= k < s.len() ==> #[trigger] s[k] != '/',
    ensures
        last_slash(s) == -1,
    decreases s.len(),
{
    if s.len() > 0 {
        lemma_last_slash_none(s.drop_last());
    }
}

/// The position of the last separator, if any.
fn find_last_slash(s: &str) -> (r: Option<usize>)
    ensures
        match r {
            Some(i) => i < s@.len() && last_slash(s@) == i,
            None => last_slash(s@) == -1,
        },
{
    let n = s.unicode_len();
    let mut j: usize = n;
    while j > 0
        invariant
            0 <= j <= n,
            n == s@.len(),
            forall|k: int| j <= k < n ==> #[trigger] s@[k] != '/',
        decreases j,
    {
        if s.get_char(j - 1) == '/' {
            proof {
                lemma_last_slash_at(s@, j - 1);
            }
            return Some(j - 1);
        }
        j = j - 1;
    }
    proof {
        lemma_last_slash_none(s@);
    }
    None
}

/// The default container name derived from the build file's directory.
pub fn generate_container_name(dockerfile: &str) -> (r: String)
    ensures
        r@ == container_name_of(dockerfile@),
{
    let n = dockerfile.unicode_len();
    let last = find_last_slash(dockerfile);
    match last {
        None => {
            if n == 0 {
                let r = ".".to_owned();
                proof {
                    reveal_strlit(".");
                    assert(r@ =~= container_name_of(dockerfile@));
                }
                r
            } else {
                let r = String::new();
                proof {
                    assert(r@ =~= container_name_of(dockerfile@));
                }
                r
            }
        },
        Some(i) => {
            if i == 0 {
                let r = String::new();
                proof {
                    reveal_strlit("/");
                    assert(strip_root(parent_dir(dockerfile@)) =~= Seq::<char>::empty());
                    assert(r@ =~= container_name_of(dockerfile@));
                }
                r
            } else {
                let start: usize = if dockerfile.get_char(0) == '/' {
                    1
                } else {
                    0
                };
                proof {
                    assert(strip_root(parent_dir(dockerfile@)) =~= dockerfile@.subrange(
                        start as int,
                        i as int,
                    ));
                }
                let mut out = String::new();
                proof {
                    assert(out@ =~= dashed(dockerfile@.subrange(start as int, start as int)));
                }
                let mut k: usize = start;
                while k < i
                    invariant
                        start <= k <= i,
                        i < n,
                        n == dockerfile@.len(),
                        out@ == dashed(dockerfile@.subrange(start as int, k as int)),
                    decreases i - k,
                {
                    if dockerfile.get_char(k) == '/' {
                        out.append("-");
                        proof {
                            reveal_strlit("-");
                        }
                    } else {
                        let piece = dockerfile.substring_char(k, k + 1);
                        proof {
                            assert(piece@ =~= seq![dockerfile@[k as int]]);
                        }
                        out.append(piece);
                    }
                    proof {
                        let sv = dockerfile@;
                        assert(sv.subrange(start as int, k as int + 1) =~= sv.subrange(
                            start as int,
                            k as int,
                        ).push(sv[k as int]));
                        assert(dashed(sv.subrange(start as int, k as int + 1)) =~= dashed(
                            sv.subrange(start as int, k as int),
                        ).push(dash_char(sv[k as int])));
                        assert(out@ =~= dashed(sv.subrange(start as int, k as int + 1)));
                    }
                    k = k + 1;
                }
                proof {
                    assert(out@ =~= container_name_of(dockerfile@));
                }
                out
            }
        },
    }
}

/// A missing choice falls back to the given default.
pub open spec fn or_default(o: Option<Seq<char>>, d: Seq<char>) -> Seq<char> {
    match o {
        Some(v) => v,
        None => d,
    }
}

/// The build file for this invocation: the explicit flag, else the
/// environment override, else the located one, else the given fallback.
pub open spec fn spec_resolve_dockerfile(
    arg: Option<Seq<char>>,
    env: Option<Seq<char>>,
    located: Option<Seq<char>>,
    fallback: Seq<char>,
) -> Seq<char> {
    or_default(arg, or_default(env, or_default(located, fallback)))
}

/// The container name: the positional argument, else the environment
/// override, else the name derived from the build file's directory.
pub open spec fn spec_resolve_name(
    arg: Option<Seq<char>>,
    env: Option<Seq<char>>,
    dockerfile: Seq<char>,
) -> Seq<char> {
    or_default(arg, or_default(env, container_name_of(dockerfile)))
}

/// One invocation's resolved settings.
#[derive(Debug)]
pub struct Config {
    pub dockerfile: String,
    pub container_name: String,
    pub image_name: String,
    pub engine_type: String,
    pub update_image: bool,
}

impl Config {
    /// Resolves the settings from the flag and environment values the caller
    /// read, in their order of precedence; the engine falls back to podman
    /// and the image name is fixed.
    pub fn resolve(
        dockerfile_arg: Option<String>,
        dockerfile_env: Option<String>,
        located: Option<String>,
        fallback: String,
        name_arg: Option<String>,
        name_env: Option<String>,
        engine_env: Option<String>,
        update: bool,
    ) -> (r: Config)
        ensures
            r.dockerfile@ == spec_resolve_dockerfile(
                dockerfile_arg.deep_view(),
                dockerfile_env.deep_view(),
                located.deep_view(),
                fallback@,
            ),
            r.container_name@ == spec_resolve_name(
                name_arg.deep_view(),
                name_env.deep_view(),
                r.dockerfile@,
            ),
            r.image_name@ == "dev-env:latest"@,
            r.engine_type@ == or_default(engine_env.deep_view(), "podman"@),
            r.update_image == update,
    {
        let dockerfile: String = match dockerfile_arg {
            Some(d) => d,
            None => match dockerfile_env {
                Some(d) => d,
                None => match located {
                    Some(d) => d,
                    None => fallback,
                },
            },
        };
        let container_name: String = match name_arg {
            Some(nm) => nm,
            None => match name_env {
                Some(nm) => nm,
                None => generate_container_name(dockerfile.as_str()),
            },
        };
        let engine_type: String = match engine_env {
            Some(e) => e,
            None => "podman".to_owned(),
        };
        Config {
            dockerfile,
            container_name,
            image_name: "dev-env:latest".to_owned(),
            engine_type,
            update_image: update,
        }
    }
}

} // verus!
