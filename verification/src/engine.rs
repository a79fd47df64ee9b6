//! The engine abstraction: which engine binary to call, how its listing
//! output is read, and the exact argument vectors for every operation the
//! tool performs. Spawning the processes happens outside the library; the
//! decisions and the argument assembly are verified here.
use vstd::prelude::*;

use crate::errors::ContainerError;
use crate::strutil::str_eq;

verus! {

/// Supported container engine kinds.
#[derive(Debug, Clone, Copy, PartialEq, Eq, Structural)]
pub enum EngineType {
    Docker,
    Podman,
}

/// What Unicode lowercasing returns for a given text: a function of the
/// characters alone.
pub uninterp spec fn lower_of(s: Seq<char>) -> Seq<char>;

/// Relies on str::to_lowercase: the lowercased text depends on the characters
/// alone, by the fixed Unicode tables, on every machine.
#[verifier::external_body]
fn lowercase_of(s: &str) -> (r: String)
    ensures
        r@ == lower_of(s@),
{
    s.to_lowercase()
}

impl EngineType {
    /// The executable name used to invoke this engine.
    pub fn as_command(&self) -> (r: &'static str)
        ensures
            *self is Docker ==> r@ == "docker"@,
            *self is Podman ==> r@ == "podman"@,
    {
        match self {
            EngineType::Docker => "docker",
            EngineType::Podman => "podman",
        }
    }

    /// The engine's display name, identical to its command name.
    pub fn name(&self) -> (r: String)
        ensures
            *self is Docker ==> r@ == "docker"@,
            *self is Podman ==> r@ == "podman"@,
    {
        match self {
            EngineType::Docker => "docker".to_owned(),
            EngineType::Podman => "podman".to_owned(),
        }
    }
}

/// Parses an engine name case-insensitively, by its Unicode lowercasing;
/// anything but the two known engines is rejected with a message naming the
/// input.
pub fn parse_engine(s: &str) -> (r: Result<EngineType, String>)
    ensures
        r is Ok <==> lower_of(s@) == "docker"@ || lower_of(s@) == "podman"@,
        r matches Ok(e) ==> (e is Docker <==> lower_of(s@) == "docker"@),
        r matches Ok(e) ==> (e is Podman <==> lower_of(s@) != "docker"@ && lower_of(s@)
            == "podman"@),
        r matches Err(m) ==> m@ == "Unknown engine type: "@ + s@,
{
    let lowered = lowercase_of(s);
    if str_eq(lowered.as_str(), "docker") {
        Ok(EngineType::Docker)
    } else if str_eq(lowered.as_str(), "podman") {
        Ok(EngineType::Podman)
    } else {
        let mut m = String::new();
        m.append("Unknown engine type: ");
        m.append(s);
        proof {
            assert(m@ =~= "Unknown engine type: "@ + s@);
        }
        Err(m)
    }
}

impl core::str::FromStr for EngineType {
    type Err = String;

    fn from_str(s: &str) -> Result<EngineType, String> {
        parse_engine(s)
    }
}

impl Default for EngineType {
    /// The engine used when none is named.
    fn default() -> (r: Self)
        ensures
            r is Podman,
    {
        EngineType::Podman
    }
}

/// The length of the first line of `s`: the number of characters before the
/// first newline, or all of them when there is none.
pub open spec fn first_line_len(s: Seq<char>) -> nat
    decreases s.len(),
{
    if s.len() == 0 {
        0
    } else if s[0] == '\n' {
        0
    } else {
        1 + first_line_len(s.drop_first())
    }
}

proof fn lemma_first_line_len_bounds(s: Seq<char>)
    ensures
        0 <= first_line_len(s) <= s.len(),
        forall|i: int| 0 <= i < first_line_len(s) ==> #[trigger] s[i] != '\n',
        first_line_len(s) < s.len() ==> s[first_line_len(s) as int] == '\n',
    decreases s.len(),
{
    if s.len() > 0 && s[0] != '\n' {
        lemma_first_line_len_bounds(s.drop_first());
        assert(forall|i: int|
            1 <= i < s.len() ==> #[trigger] s[i] == s.drop_first()[i - 1]);
    }
}

proof fn lemma_first_line_len_at(s: Seq<char>, k: int)
    requires
        0 <= k <= s.len(),
        forall|i: int| 0 <= i < k ==> #[trigger] s[i] != '\n',
        k < s.len() ==> s[k] == '\n',
    ensures
        first_line_len(s) == k,
    decreases k,
{
    if s.len() == 0 {
    } else if k == 0 {
    } else {
        assert(s[0] != '\n');
        assert(forall|i: int| 0 <= i < k - 1 ==> #[trigger] s.drop_first()[i] != '\n');
        lemma_first_line_len_at(s.drop_first(), k - 1);
    }
}

/// A line with a trailing carriage return stripped, as the engine listings
/// are split.
pub open spec fn strip_cr(line: Seq<char>) -> Seq<char> {
    if line.len() > 0 && line.last() == '\r' {
        line.drop_last()
    } else {
        line
    }
}

/// Whether `b` is a suffix of `a`.
pub open spec fn seq_ends_with(a: Seq<char>, b: Seq<char>) -> bool {
    b.len() <= a.len() && a.skip(a.len() - b.len()) == b
}

/// Whether some newline-delimited line of `s` equals `name`, as the container
/// listings are scanned.
pub open spec fn line_eq_exists(s: Seq<char>, name: Seq<char>) -> bool
    decreases s.len(),
{
    if s.len() == 0 {
        false
    } else {
        let k = first_line_len(s);
        strip_cr(s.take(k as int)) == name || (k < s.len() && line_eq_exists(
            s.skip(k as int + 1),
            name,
        ))
    }
}

/// Whether some line of `s` ends with `image` or with `localhost/` followed
/// by `image`, as the image listings are scanned.
pub open spec fn image_line_exists(s: Seq<char>, image: Seq<char>) -> bool
    decreases s.len(),
{
    if s.len() == 0 {
        false
    } else {
        let k = first_line_len(s);
        seq_ends_with(strip_cr(s.take(k as int)), image) || seq_ends_with(
            strip_cr(s.take(k as int)),
            "localhost/"@ + image,
        ) || (k < s.len() && image_line_exists(s.skip(k as int + 1), image))
    }
}

/// The position of the first newline, or the length when there is none.
fn find_line_break(s: &str) -> (k: usize)
    ensures
        k == first_line_len(s@),
{
    let n = s.unicode_len();
    let mut i: usize = 0;
    while i < n
        invariant
            0 <= i <= n,
            n == s@.len(),
            forall|j: int| 0 <= j < i ==> #[trigger] s@[j] != '\n',
        decreases n - i,
    {
        if s.get_char(i) == '\n' {
            proof {
                lemma_first_line_len_at(s@, i as int);
            }
            return i;
        }
        i = i + 1;
    }
    proof {
        lemma_first_line_len_at(s@, n as int);
    }
    n
}

/// Decides `seq_ends_with` on two string slices.
fn str_ends_with(a: &str, b: &str) -> (r: bool)
    ensures
        r == seq_ends_with(a@, b@),
{
    let alen = a.unicode_len();
    let blen = b.unicode_len();
    if blen > alen {
        return false;
    }
    let tail = a.substring_char(alen - blen, alen);
    proof {
        assert(tail@ =~= a@.skip(a@.len() - b@.len()));
    }
    str_eq(tail, b)
}

/// Whether any line of a container listing equals `name`.
pub fn output_lists_container(output: &str, name: &str) -> (r: bool)
    ensures
        r == line_eq_exists(output@, name@),
    decreases output@.len(),
{
    let n = output.unicode_len();
    if n == 0 {
        return false;
    }
    let k = find_line_break(output);
    proof {
        lemma_first_line_len_bounds(output@);
    }
    let end: usize = if k > 0 && output.get_char(k - 1) == '\r' {
        k - 1
    } else {
        k
    };
    let line = output.substring_char(0, end);
    proof {
        assert(line@ =~= strip_cr(output@.take(first_line_len(output@) as int)));
    }
    if str_eq(line, name) {
        return true;
    }
    if k < n {
        let rest = output.substring_char(k + 1, n);
        proof {
            assert(rest@ =~= output@.skip(first_line_len(output@) as int + 1));
        }
        output_lists_container(rest, name)
    } else {
        false
    }
}

fn image_listed_from(output: &str, image: &str, local: &str) -> (r: bool)
    requires
        local@ == "localhost/"@ + image@,
    ensures
        r == image_line_exists(output@, image@),
    decreases output@.len(),
{
    let n = output.unicode_len();
    if n == 0 {
        return false;
    }
    let k = find_line_break(output);
    proof {
        lemma_first_line_len_bounds(output@);
    }
    let end: usize = if k > 0 && output.get_char(k - 1) == '\r' {
        k - 1
    } else {
        k
    };
    let line = output.substring_char(0, end);
    proof {
        assert(line@ =~= strip_cr(output@.take(first_line_len(output@) as int)));
    }
    if str_ends_with(line, image) {
        return true;
    }
    if str_ends_with(line, local) {
        return true;
    }
    if k < n {
        let rest = output.substring_char(k + 1, n);
        proof {
            assert(rest@ =~= output@.skip(first_line_len(output@) as int + 1));
        }
        image_listed_from(rest, image, local)
    } else {
        false
    }
}

/// Whether any line of an image listing ends with `image_name`, either bare
/// or under the `localhost/` repository prefix.
pub fn output_lists_image(output: &str, image_name: &str) -> (r: bool)
    ensures
        r == image_line_exists(output@, image_name@),
{
    let mut local = String::new();
    local.append("localhost/");
    local.append(image_name);
    proof {
        assert(local@ =~= "localhost/"@ + image_name@);
    }
    image_listed_from(output, image_name, local.as_str())
}

/// The GPU arguments each engine needs once NVIDIA support was detected, and
/// none when it was not.
pub open spec fn spec_nvidia_args(engine_type: Seq<char>, nvidia_available: bool) -> Seq<
    Seq<char>,
> {
    if !nvidia_available {
        Seq::empty()
    } else if engine_type == "docker"@ {
        seq!["--gpus"@, "all"@]
    } else if engine_type == "podman"@ {
        seq!["--device"@, "nvidia.com/gpu=all"@, "--security-opt"@, "label=disable"@]
    } else {
        Seq::empty()
    }
}

/// The GPU arguments to pass for `engine_type`, given whether a working
/// NVIDIA device was observed.
pub fn nvidia_args_for(engine_type: &str, nvidia_available: bool) -> (r: Vec<String>)
    ensures
        r.deep_view() == spec_nvidia_args(engine_type@, nvidia_available),
{
    let mut args: Vec<String> = Vec::new();
    if nvidia_available {
        if str_eq(engine_type, "docker") {
            args.push("--gpus".to_owned());
            args.push("all".to_owned());
            proof {
                assert(args.deep_view() =~~= spec_nvidia_args(engine_type@, nvidia_available));
            }
        } else if str_eq(engine_type, "podman") {
            args.push("--device".to_owned());
            args.push("nvidia.com/gpu=all".to_owned());
            args.push("--security-opt".to_owned());
            args.push("label=disable".to_owned());
            proof {
                assert(args.deep_view() =~~= spec_nvidia_args(engine_type@, nvidia_available));
            }
        } else {
            proof {
                assert(args.deep_view() =~~= spec_nvidia_args(engine_type@, nvidia_available));
            }
        }
    } else {
        proof {
            assert(args.deep_view() =~~= spec_nvidia_args(engine_type@, nvidia_available));
        }
    }
    args
}

#[verifier::ext_equal]
pub ghost struct EngineView {
    pub engine_type: Seq<char>,
    pub nvidia_args: Seq<Seq<char>>,
}

/// A configured engine: its command name and the GPU arguments resolved once
/// at construction time.
#[derive(Debug)]
pub struct ContainerEngine {
    engine_type: String,
    nvidia_args: Vec<String>,
}

impl DeepView for ContainerEngine {
    type V = EngineView;

    closed spec fn deep_view(&self) -> EngineView {
        EngineView { engine_type: self.engine_type@, nvidia_args: self.nvidia_args.deep_view() }
    }
}

impl ContainerEngine {
    /// Builds the engine handle from what the caller observed: whether the
    /// binary is on the path, and whether a working NVIDIA device was found.
    /// An unavailable engine is a fatal, pre-flight failure.
    pub fn new(engine_type: &str, engine_found: bool, nvidia_available: bool) -> (r: Result<
        Self,
        ContainerError,
    >)
        ensures
            !engine_found ==> (r matches Err(ContainerError::EngineNotFound(s)) && s@
                == engine_type@),
            engine_found ==> (r matches Ok(e) && e.deep_view().engine_type == engine_type@
                && e.deep_view().nvidia_args == spec_nvidia_args(engine_type@, nvidia_available)),
    {
        if !engine_found {
            return Err(ContainerError::EngineNotFound(engine_type.to_owned()));
        }
        let nvidia_args = nvidia_args_for(engine_type, nvidia_available);
        Ok(ContainerEngine { engine_type: engine_type.to_owned(), nvidia_args })
    }

    /// The command name to spawn.
    pub fn command_name(&self) -> (r: &str)
        ensures
            r@ == self.deep_view().engine_type,
    {
        self.engine_type.as_str()
    }

    /// Arguments that list local images in the scanned format.
    pub fn image_list_args(&self) -> (r: Vec<String>)
        ensures
            r.deep_view() == seq!["images"@, "--format"@, "table {{.Repository}}:{{.Tag}}"@],
    {
        let mut args: Vec<String> = Vec::new();
        args.push("images".to_owned());
        args.push("--format".to_owned());
        args.push("table {{.Repository}}:{{.Tag}}".to_owned());
        proof {
            assert(args.deep_view() =~~= seq![
                "images"@,
                "--format"@,
                "table {{.Repository}}:{{.Tag}}"@,
            ]);
        }
        args
    }

    /// Arguments that list container names; `all` includes stopped ones.
    pub fn container_list_args(&self, all: bool) -> (r: Vec<String>)
        ensures
            all ==> r.deep_view() == seq!["ps"@, "-a"@, "--format"@, "table {{.Names}}"@],
            !all ==> r.deep_view() == seq!["ps"@, "--format"@, "table {{.Names}}"@],
    {
        let mut args: Vec<String> = Vec::new();
        args.push("ps".to_owned());
        if all {
            args.push("-a".to_owned());
        }
        args.push("--format".to_owned());
        args.push("table {{.Names}}".to_owned());
        proof {
            if all {
                assert(args.deep_view() =~~= seq!["ps"@, "-a"@, "--format"@, "table {{.Names}}"@]);
            } else {
                assert(args.deep_view() =~~= seq!["ps"@, "--format"@, "table {{.Names}}"@]);
            }
        }
        args
    }

    /// Arguments that remove a container by force.
    pub fn remove_container_args(&self, container_name: &str) -> (r: Vec<String>)
        ensures
            r.deep_view() == seq!["rm"@, "-f"@, container_name@],
    {
        let mut args: Vec<String> = Vec::new();
        args.push("rm".to_owned());
        args.push("-f".to_owned());
        args.push(container_name.to_owned());
        proof {
            assert(args.deep_view() =~~= seq!["rm"@, "-f"@, container_name@]);
        }
        args
    }

    /// Arguments that build `image_name` from the given build file, with the
    /// working directory as context.
    pub fn build_image_args(&self, image_name: &str, dockerfile: &str) -> (r: Vec<String>)
        ensures
            r.deep_view() == seq!["build"@, "-t"@, image_name@, "-f"@, dockerfile@, "."@],
    {
        let mut args: Vec<String> = Vec::new();
        args.push("build".to_owned());
        args.push("-t".to_owned());
        args.push(image_name.to_owned());
        args.push("-f".to_owned());
        args.push(dockerfile.to_owned());
        args.push(".".to_owned());
        proof {
            assert(args.deep_view() =~~= seq![
                "build"@,
                "-t"@,
                image_name@,
                "-f"@,
                dockerfile@,
                "."@,
            ]);
        }
        args
    }

    /// Arguments that start a stopped container.
    pub fn start_container_args(&self, container_name: &str) -> (r: Vec<String>)
        ensures
            r.deep_view() == seq!["start"@, container_name@],
    {
        let mut args: Vec<String> = Vec::new();
        args.push("start".to_owned());
        args.push(container_name.to_owned());
        proof {
            assert(args.deep_view() =~~= seq!["start"@, container_name@]);
        }
        args
    }

    /// Arguments that attach an interactive shell inside a running container.
    pub fn exec_container_args(&self, container_name: &str) -> (r: Vec<String>)
        ensures
            r.deep_view() == seq!["exec"@, "-it"@, container_name@, "/bin/bash"@],
    {
        let mut args: Vec<String> = Vec::new();
        args.push("exec".to_owned());
        args.push("-it".to_owned());
        args.push(container_name.to_owned());
        args.push("/bin/bash".to_owned());
        proof {
            assert(args.deep_view() =~~= seq!["exec"@, "-it"@, container_name@, "/bin/bash"@]);
        }
        args
    }

    /// Arguments that create a new container from `image_name`, mount the
    /// working directory at its own path, set it as the working directory,
    /// forward the resolved GPU arguments, and attach a shell.
    pub fn create_and_run_container_args(
        &self,
        container_name: &str,
        image_name: &str,
        current_dir: &str,
    ) -> (r: Vec<String>)
        ensures
            r.deep_view() == seq!["run"@, "-it"@, "--name"@, container_name@, "-v"@, current_dir@
                + ":"@ + current_dir@, "-w"@, current_dir@] + self.deep_view().nvidia_args + seq![
                image_name@,
                "/bin/bash"@,
            ],
    {
        let mut args: Vec<String> = Vec::new();
        args.push("run".to_owned());
        args.push("-it".to_owned());
        args.push("--name".to_owned());
        args.push(container_name.to_owned());
        args.push("-v".to_owned());
        let mut mount = String::new();
        mount.append(current_dir);
        mount.append(":");
        mount.append(current_dir);
        proof {
            assert(mount@ =~= current_dir@ + ":"@ + current_dir@);
        }
        args.push(mount);
        args.push("-w".to_owned());
        args.push(current_dir.to_owned());
        let ghost head = args.deep_view();
        proof {
            assert(head =~~= seq!["run"@, "-it"@, "--name"@, container_name@, "-v"@, current_dir@
                + ":"@ + current_dir@, "-w"@, current_dir@]);
        }
        proof {
            assert(args.deep_view() =~~= head + self.deep_view().nvidia_args.take(0));
        }
        let n = self.nvidia_args.len();
        let mut i: usize = 0;
        while i < n
            invariant
                0 <= i <= n,
                n == self.nvidia_args.len(),
                args.deep_view() == head + self.deep_view().nvidia_args.take(i as int),
            decreases n - i,
        {
            proof {
                let nv = self.deep_view().nvidia_args;
                assert(args.deep_view().len() == (head + nv.take(i as int)).len());
                assert(args@.len() == head.len() + i);
            }
            let ghost prevseq = args@;
            let ghost pre = args.deep_view();
            args.push(self.nvidia_args[i].clone());
            proof {
                let nv = self.deep_view().nvidia_args;
                assert forall|k: int| 0 <= k < pre.len() implies args.deep_view()[k] == pre[k] by {
                    assert(args@[k] == prevseq[k]);
                    assert(pre[k] == prevseq[k].deep_view());
                    assert(args.deep_view()[k] == args@[k].deep_view());
                }
                assert(args@[pre.len() as int] == self.nvidia_args@[i as int]);
                assert(args.deep_view()[pre.len() as int] == args@[pre.len() as int].deep_view());
                assert(nv[i as int] == self.nvidia_args@[i as int]@);
                assert(args.deep_view() =~= pre.push(nv[i as int]));
                assert(nv.take(i as int + 1) =~= nv.take(i as int).push(nv[i as int]));
                assert(pre.push(nv[i as int]) =~= head + nv.take(i as int + 1));
            }
            i = i + 1;
        }
        proof {
            assert(self.deep_view().nvidia_args.take(n as int) =~= self.deep_view().nvidia_args);
        }
        args.push(image_name.to_owned());
        args.push("/bin/bash".to_owned());
        proof {
            assert(args.deep_view() =~~= seq!["run"@, "-it"@, "--name"@, container_name@, "-v"@,
                current_dir@ + ":"@ + current_dir@, "-w"@, current_dir@]
                + self.deep_view().nvidia_args + seq![image_name@, "/bin/bash"@]);
        }
        args
    }
}

} // verus!
