//! Declarative container definitions: the named configuration entries that
//! drive hashing, artifact generation and the run-time argument assembly.
use vstd::prelude::*;

use crate::strutil::{str_eq, str_le, str_leq, lemma_str_leq_antisymmetric, lemma_str_leq_reflexive,
    lemma_str_leq_total, lemma_str_leq_transitive};
use vstd::relations::{sorted_by, total_ordering};
use vstd::seq_lib::{lemma_multiset_commutative, lemma_sorted_unique};

verus! {

/// One environment-variable binding. Bindings are kept in declaration order;
/// wherever order must not matter they are canonicalized by sorting.
#[derive(Debug)]
pub struct EnvVar {
    pub key: String,
    pub value: String,
}

#[verifier::ext_equal]
pub ghost struct EnvVarView {
    pub key: Seq<char>,
    pub value: Seq<char>,
}

impl DeepView for EnvVar {
    type V = EnvVarView;

    open spec fn deep_view(&self) -> EnvVarView {
        EnvVarView { key: self.key@, value: self.value@ }
    }
}

impl Clone for EnvVar {
    fn clone(&self) -> (r: Self)
        ensures
            r.deep_view() == self.deep_view(),
    {
        EnvVar { key: self.key.clone(), value: self.value.clone() }
    }
}

/// A bind mount from a host path to a container path.
#[derive(Debug)]
pub struct VolumeMount {
    pub source: String,
    pub target: String,
    pub read_only: Option<bool>,
}

#[verifier::ext_equal]
pub ghost struct VolumeMountView {
    pub source: Seq<char>,
    pub target: Seq<char>,
    pub read_only: Option<bool>,
}

impl DeepView for VolumeMount {
    type V = VolumeMountView;

    open spec fn deep_view(&self) -> VolumeMountView {
        VolumeMountView { source: self.source@, target: self.target@, read_only: self.read_only }
    }
}

impl Clone for VolumeMount {
    fn clone(&self) -> (r: Self)
        ensures
            r.deep_view() == self.deep_view(),
    {
        VolumeMount {
            source: self.source.clone(),
            target: self.target.clone(),
            read_only: self.read_only,
        }
    }
}

/// A tmpfs mount at a container path.
#[derive(Debug)]
pub struct TmpfsMount {
    pub target: String,
    pub size: Option<String>,
    pub read_only: Option<bool>,
}

#[verifier::ext_equal]
pub ghost struct TmpfsMountView {
    pub target: Seq<char>,
    pub size: Option<Seq<char>>,
    pub read_only: Option<bool>,
}

impl DeepView for TmpfsMount {
    type V = TmpfsMountView;

    open spec fn deep_view(&self) -> TmpfsMountView {
        TmpfsMountView {
            target: self.target@,
            size: self.size.deep_view(),
            read_only: self.read_only,
        }
    }
}

impl Clone for TmpfsMount {
    fn clone(&self) -> (r: Self)
        ensures
            r.deep_view() == self.deep_view(),
    {
        TmpfsMount {
            target: self.target.clone(),
            size: match &self.size {
                Some(s) => Some(s.clone()),
                None => None,
            },
            read_only: self.read_only,
        }
    }
}

/// A declared package dependency; a missing version means "latest" and a
/// missing source means the default package manager.
#[derive(Debug)]
pub struct Dependency {
    pub package: String,
    pub version: Option<String>,
    pub source: Option<String>,
}

#[verifier::ext_equal]
pub ghost struct DependencyView {
    pub package: Seq<char>,
    pub version: Option<Seq<char>>,
    pub source: Option<Seq<char>>,
}

impl DeepView for Dependency {
    type V = DependencyView;

    open spec fn deep_view(&self) -> DependencyView {
        DependencyView {
            package: self.package@,
            version: self.version.deep_view(),
            source: self.source.deep_view(),
        }
    }
}

impl Clone for Dependency {
    fn clone(&self) -> (r: Self)
        ensures
            r.deep_view() == self.deep_view(),
    {
        Dependency {
            package: self.package.clone(),
            version: match &self.version {
                Some(s) => Some(s.clone()),
                None => None,
            },
            source: match &self.source {
                Some(s) => Some(s.clone()),
                None => None,
            },
        }
    }
}

/// Optional overrides of the build input paths and arguments.
#[derive(Debug)]
pub struct BuildContext {
    pub dockerfile_path: Option<String>,
    pub context_path: Option<String>,
    pub build_args: Option<Vec<EnvVar>>,
}

#[verifier::ext_equal]
pub ghost struct BuildContextView {
    pub dockerfile_path: Option<Seq<char>>,
    pub context_path: Option<Seq<char>>,
    pub build_args: Option<Seq<EnvVarView>>,
}

impl DeepView for BuildContext {
    type V = BuildContextView;

    open spec fn deep_view(&self) -> BuildContextView {
        BuildContextView {
            dockerfile_path: self.dockerfile_path.deep_view(),
            context_path: self.context_path.deep_view(),
            build_args: self.build_args.deep_view(),
        }
    }
}

/// A named, declarative description of one container environment.
#[derive(Debug)]
pub struct ContainerConfig {
    pub name: String,
    pub base_image: Option<String>,
    pub command: Option<Vec<String>>,
    pub environment: Option<Vec<EnvVar>>,
    pub volumes: Option<Vec<VolumeMount>>,
    pub tmpfs: Option<Vec<TmpfsMount>>,
    pub dependencies: Option<Vec<Dependency>>,
    pub gpu: Option<bool>,
    pub interactive: Option<bool>,
    pub tty: Option<bool>,
    pub remove: Option<bool>,
    pub build_context: Option<BuildContext>,
}

#[verifier::ext_equal]
pub ghost struct ConfigView {
    pub name: Seq<char>,
    pub base_image: Option<Seq<char>>,
    pub command: Option<Seq<Seq<char>>>,
    pub environment: Option<Seq<EnvVarView>>,
    pub volumes: Option<Seq<VolumeMountView>>,
    pub tmpfs: Option<Seq<TmpfsMountView>>,
    pub dependencies: Option<Seq<DependencyView>>,
    pub gpu: Option<bool>,
    pub interactive: Option<bool>,
    pub tty: Option<bool>,
    pub remove: Option<bool>,
    pub build_context: Option<BuildContextView>,
}

impl DeepView for ContainerConfig {
    type V = ConfigView;

    open spec fn deep_view(&self) -> ConfigView {
        ConfigView {
            name: self.name@,
            base_image: self.base_image.deep_view(),
            command: self.command.deep_view(),
            environment: self.environment.deep_view(),
            volumes: self.volumes.deep_view(),
            tmpfs: self.tmpfs.deep_view(),
            dependencies: self.dependencies.deep_view(),
            gpu: self.gpu,
            interactive: self.interactive,
            tty: self.tty,
            remove: self.remove,
            build_context: self.build_context.deep_view(),
        }
    }
}

impl Default for ContainerConfig {
    /// The default definition: the fixed base image, an interactive terminal
    /// session that is removed on exit, and no GPU.
    fn default() -> (r: Self)
        ensures
            r.deep_view().name.len() == 0,
            r.deep_view().base_image == Some("dev-env"@),
            r.deep_view().command is None,
            r.deep_view().environment is None,
            r.deep_view().volumes is None,
            r.deep_view().tmpfs is None,
            r.deep_view().dependencies is None,
            r.deep_view().gpu == Some(false),
            r.deep_view().interactive == Some(true),
            r.deep_view().tty == Some(true),
            r.deep_view().remove == Some(true),
            r.deep_view().build_context is None,
    {
        ContainerConfig {
            name: String::new(),
            base_image: Some("dev-env".to_owned()),
            command: None,
            environment: None,
            volumes: None,
            tmpfs: None,
            dependencies: None,
            gpu: Some(false),
            interactive: Some(true),
            tty: Some(true),
            remove: Some(true),
            build_context: None,
        }
    }
}

/// The loaded declarative configuration: named container definitions in
/// declaration order, keyed by the entry name.
#[derive(Debug)]
pub struct ContainersToml {
    pub containers: Vec<(String, ContainerConfig)>,
}

impl DeepView for ContainersToml {
    type V = Seq<(Seq<char>, ConfigView)>;

    open spec fn deep_view(&self) -> Seq<(Seq<char>, ConfigView)> {
        self.containers.deep_view()
    }
}

/// The definition stored under `name`, taking the first entry when a name is
/// repeated.
pub open spec fn lookup_config(s: Seq<(Seq<char>, ConfigView)>, name: Seq<char>) -> Option<
    ConfigView,
>
    decreases s.len(),
{
    if s.len() == 0 {
        None
    } else if s[0].0 == name {
        Some(s[0].1)
    } else {
        lookup_config(s.drop_first(), name)
    }
}

proof fn lemma_lookup_config_at(s: Seq<(Seq<char>, ConfigView)>, name: Seq<char>, i: int)
    requires
        0 <= i < s.len(),
        s[i].0 == name,
        forall|k: int| 0 <= k < i ==> (#[trigger] s[k]).0 != name,
    ensures
        lookup_config(s, name) == Some(s[i].1),
    decreases i,
{
    if i > 0 {
        lemma_lookup_config_at(s.drop_first(), name, i - 1);
    }
}

proof fn lemma_lookup_config_none(s: Seq<(Seq<char>, ConfigView)>, name: Seq<char>)
    requires
        forall|k: int| 0 <= k < s.len() ==> (#[trigger] s[k]).0 != name,
    ensures
        lookup_config(s, name) is None,
    decreases s.len(),
{
    if s.len() > 0 {
        lemma_lookup_config_none(s.drop_first(), name);
    }
}

impl ContainersToml {
    /// Returns the definition stored under `name`, if any.
    pub fn get_container(&self, name: &str) -> (r: Option<&ContainerConfig>)
        ensures
            match r {
                Some(c) => lookup_config(self.deep_view(), name@) == Some(c.deep_view()),
                None => lookup_config(self.deep_view(), name@) is None,
            },
    {
        let n = self.containers.len();
        let mut i: usize = 0;
        while i < n
            invariant
                0 <= i <= n,
                n == self.containers.len(),
                forall|k: int| 0 <= k < i ==> (#[trigger] self.deep_view()[k]).0 != name@,
            decreases n - i,
        {
            if str_eq(self.containers[i].0.as_str(), name) {
                proof {
                    lemma_lookup_config_at(self.deep_view(), name@, i as int);
                }
                return Some(&self.containers[i].1);
            }
            i = i + 1;
        }
        proof {
            lemma_lookup_config_none(self.deep_view(), name@);
        }
        None
    }
}

/// The canonical order on environment bindings: by key, then by value.
pub open spec fn env_leq(x: EnvVarView, y: EnvVarView) -> bool {
    if x.key == y.key {
        str_leq(x.value, y.value)
    } else {
        str_leq(x.key, y.key)
    }
}

pub open spec fn env_order() -> spec_fn(EnvVarView, EnvVarView) -> bool {
    |x: EnvVarView, y: EnvVarView| env_leq(x, y)
}

/// Environment bindings in canonical order.
pub open spec fn canon_env(s: Seq<EnvVarView>) -> Seq<EnvVarView> {
    s.sort_by(env_order())
}

pub proof fn lemma_env_order_total()
    ensures
        total_ordering(env_order()),
{
    let leq = env_order();
    assert forall|x: EnvVarView| #[trigger] leq(x, x) by {
        lemma_str_leq_reflexive(x.value);
        lemma_str_leq_reflexive(x.key);
    }
    assert forall|x: EnvVarView, y: EnvVarView| #[trigger] leq(x, y) && #[trigger] leq(y, x)
        implies x == y by {
        if x.key == y.key {
            lemma_str_leq_antisymmetric(x.value, y.value);
        } else {
            lemma_str_leq_antisymmetric(x.key, y.key);
        }
    }
    assert forall|x: EnvVarView, y: EnvVarView, z: EnvVarView|
        #[trigger] leq(x, y) && #[trigger] leq(y, z) implies leq(x, z) by {
        if x.key == y.key && y.key == z.key {
            lemma_str_leq_transitive(x.value, y.value, z.value);
        } else if x.key == y.key {
            // key order decided between y and z
        } else if y.key == z.key {
        } else {
            lemma_str_leq_transitive(x.key, y.key, z.key);
            if x.key == z.key {
                lemma_str_leq_antisymmetric(x.key, y.key);
            }
        }
    }
    assert forall|x: EnvVarView, y: EnvVarView| #[trigger] leq(x, y) || #[trigger] leq(y, x) by {
        if x.key == y.key {
            lemma_str_leq_total(x.value, y.value);
        } else {
            lemma_str_leq_total(x.key, y.key);
        }
    }
}

/// Decides `env_leq` on two bindings.
fn env_le(x: &EnvVar, y: &EnvVar) -> (r: bool)
    ensures
        r == env_leq(x.deep_view(), y.deep_view()),
{
    if str_eq(x.key.as_str(), y.key.as_str()) {
        str_le(x.value.as_str(), y.value.as_str())
    } else {
        str_le(x.key.as_str(), y.key.as_str())
    }
}

/// The position at which a binding is inserted to keep the list sorted.
fn insert_pos(out: &Vec<EnvVar>, x: &EnvVar) -> (j: usize)
    ensures
        0 <= j <= out.len(),
        forall|k: int| 0 <= k < j ==> env_leq(#[trigger] out.deep_view()[k], x.deep_view()),
        j < out.len() ==> !env_leq(out.deep_view()[j as int], x.deep_view()),
{
    let mut j: usize = 0;
    while j < out.len()
        invariant
            0 <= j <= out.len(),
            forall|k: int| 0 <= k < j ==> env_leq(#[trigger] out.deep_view()[k], x.deep_view()),
        decreases out.len() - j,
    {
        if !env_le(&out[j], x) {
            return j;
        }
        j = j + 1;
    }
    j
}

/// Sorts environment bindings into canonical order.
pub fn sort_env(env: &Vec<EnvVar>) -> (r: Vec<EnvVar>)
    ensures
        r.deep_view() == canon_env(env.deep_view()),
{
    let ghost input = env.deep_view();
    let mut out: Vec<EnvVar> = Vec::new();
    proof {
        assert(out.deep_view() =~= input.take(0));
    }
    let mut i: usize = 0;
    while i < env.len()
        invariant
            0 <= i <= env.len(),
            input == env.deep_view(),
            out.deep_view().to_multiset() == input.take(i as int).to_multiset(),
            sorted_by(out.deep_view(), env_order()),
        decreases env.len() - i,
    {
        let x = env[i].clone();
        let ghost xv = x.deep_view();
        let ghost pre = out.deep_view();
        let j = insert_pos(&out, &x);
        proof {
            lemma_env_order_total();
            let leq = env_order();
            if j < pre.len() {
                assert(leq(pre[j as int], xv) || leq(xv, pre[j as int]));
                assert(env_leq(xv, pre[j as int]));
            }
        }
        out.insert(j, x);
        proof {
            let post = out.deep_view();
            assert(post =~= pre.insert(j as int, xv));
            lemma_insert_sorted(pre, xv, j as int);
            lemma_insert_multiset(pre, xv, j as int);
            input.take(i as int).to_multiset_ensures();
            assert(input.take(i as int + 1) =~= input.take(i as int).push(input[i as int]));
            assert(out.deep_view().to_multiset() =~= input.take(i as int + 1).to_multiset());
        }
        i = i + 1;
    }
    proof {
        lemma_env_order_total();
        assert(input.take(input.len() as int) =~= input);
        input.lemma_sort_by_ensures(env_order());
        lemma_sorted_unique(out.deep_view(), canon_env(input), env_order());
    }
    out
}

/// Inserting an element at a position where everything before it is below it
/// and everything after it is above it keeps the sequence sorted.
proof fn lemma_insert_sorted(s: Seq<EnvVarView>, x: EnvVarView, j: int)
    requires
        0 <= j <= s.len(),
        sorted_by(s, env_order()),
        total_ordering(env_order()),
        forall|k: int| 0 <= k < j ==> env_leq(#[trigger] s[k], x),
        j < s.len() ==> env_leq(x, s[j]),
    ensures
        sorted_by(s.insert(j, x), env_order()),
{
    let t = s.insert(j, x);
    let leq = env_order();
    s.insert_ensures(j, x);
    assert forall|a: int, b: int| 0 <= a < b < t.len() implies #[trigger] leq(t[a], t[b]) by {
        if a < j && b < j {
            assert(t[a] == s[a] && t[b] == s[b]);
            assert(leq(s[a], s[b]));
        } else if a < j && b == j {
            assert(t[a] == s[a] && t[b] == x);
            assert(leq(s[a], x));
        } else if a < j && b > j {
            assert(t[a] == s[a] && t[b] == s[b - 1]);
            if b - 1 == j {
                assert(leq(s[a], x));
                assert(leq(x, s[j]));
                assert(leq(s[a], s[j]));
            } else {
                assert(leq(s[a], s[b - 1]));
            }
        } else if a == j {
            assert(t[a] == x && t[b] == s[b - 1]);
            assert(leq(x, s[j]));
            if b - 1 > j {
                assert(leq(s[j], s[b - 1]));
                assert(leq(x, s[b - 1]));
            }
        } else {
            assert(t[a] == s[a - 1] && t[b] == s[b - 1]);
            assert(leq(s[a - 1], s[b - 1]));
        }
    }
}

/// Inserting an element anywhere adds exactly it to the multiset of elements.
proof fn lemma_insert_multiset(s: Seq<EnvVarView>, x: EnvVarView, j: int)
    requires
        0 <= j <= s.len(),
    ensures
        s.insert(j, x).to_multiset() =~= s.to_multiset().insert(x),
{
    broadcast use vstd::multiset::group_multiset_axioms;

    let a = s.take(j);
    let b = s.skip(j);
    assert(s.insert(j, x) =~= a.push(x) + b);
    assert(s =~= a + b);
    lemma_multiset_commutative(a.push(x), b);
    lemma_multiset_commutative(a, b);
    a.to_multiset_ensures();
    assert(a.push(x).to_multiset() =~= a.to_multiset().insert(x));
}

} // verus!
