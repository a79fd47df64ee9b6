//! The canonical serialization of container definitions that feeds the
//! identity hash. The encoding is length-prefixed and therefore prefix
//! unambiguous: a definition can be recovered from its encoding, so distinct
//! definitions (up to environment reordering, which is canonicalized away by
//! sorting) have distinct encodings.
use vstd::prelude::*;

use crate::config::{BuildContext, BuildContextView, ConfigView, ContainerConfig, Dependency,
    DependencyView, EnvVar, EnvVarView, TmpfsMount, TmpfsMountView, VolumeMount, VolumeMountView,
    canon_env, env_order, lemma_env_order_total, sort_env};
use crate::strutil::{dec_digits, is_digit_char, lemma_dec_digits_are_digits,
    lemma_dec_digits_injective, push_decimal};

verus! {

/// A character sequence prefixed with its decimal length and a separator.
pub open spec fn enc_str(s: Seq<char>) -> Seq<char> {
    dec_digits(s.len()) + (seq![':'] + s)
}

pub open spec fn enc_str_fn() -> spec_fn(Seq<char>) -> Seq<char> {
    |s: Seq<char>| enc_str(s)
}

pub open spec fn enc_bool(b: bool) -> Seq<char> {
    if b {
        seq!['T']
    } else {
        seq!['F']
    }
}

pub open spec fn enc_bool_fn() -> spec_fn(bool) -> Seq<char> {
    |b: bool| enc_bool(b)
}

/// An optional value: an absence marker, or a presence marker followed by the
/// encoded value.
pub open spec fn enc_opt<T>(o: Option<T>, f: spec_fn(T) -> Seq<char>) -> Seq<char> {
    match o {
        None => seq!['-'],
        Some(x) => seq!['+'] + f(x),
    }
}

pub open spec fn enc_opt_fn<T>(f: spec_fn(T) -> Seq<char>) -> spec_fn(Option<T>) -> Seq<char> {
    |o: Option<T>| enc_opt(o, f)
}

/// The encoded items of a sequence, concatenated.
pub open spec fn enc_cat<T>(xs: Seq<T>, f: spec_fn(T) -> Seq<char>) -> Seq<char>
    decreases xs.len(),
{
    if xs.len() == 0 {
        Seq::empty()
    } else {
        f(xs[0]) + enc_cat(xs.drop_first(), f)
    }
}

/// A sequence of values: its decimal length, a separator, and the encoded
/// items.
pub open spec fn enc_seq<T>(xs: Seq<T>, f: spec_fn(T) -> Seq<char>) -> Seq<char> {
    dec_digits(xs.len()) + (seq![':'] + enc_cat(xs, f))
}

pub open spec fn enc_seq_fn<T>(f: spec_fn(T) -> Seq<char>) -> spec_fn(Seq<T>) -> Seq<char> {
    |xs: Seq<T>| enc_seq(xs, f)
}

/// An encoder is prefix unambiguous when an encoded value followed by
/// arbitrary text determines both the value and the text.
pub open spec fn prefix_unambiguous<T>(f: spec_fn(T) -> Seq<char>) -> bool {
    forall|x: T, y: T, r1: Seq<char>, r2: Seq<char>|
        #[trigger] (f(x) + r1) == #[trigger] (f(y) + r2) ==> x == y && r1 == r2
}

/// Concatenations with equal-length left parts are equal part by part.
proof fn lemma_concat_cancel(p1: Seq<char>, r1: Seq<char>, p2: Seq<char>, r2: Seq<char>)
    requires
        p1 + r1 == p2 + r2,
        p1.len() == p2.len(),
    ensures
        p1 == p2,
        r1 == r2,
{
    assert(p1 =~= (p1 + r1).subrange(0, p1.len() as int));
    assert(p2 =~= (p2 + r2).subrange(0, p2.len() as int));
    assert(r1 =~= (p1 + r1).subrange(p1.len() as int, (p1 + r1).len() as int));
    assert(r2 =~= (p2 + r2).subrange(p2.len() as int, (p2 + r2).len() as int));
}

/// A decimal length followed by the separator determines the number and the
/// remainder: digits never contain the separator.
proof fn lemma_num_prefix(m: nat, n: nat, r1: Seq<char>, r2: Seq<char>)
    requires
        dec_digits(m) + (seq![':'] + r1) == dec_digits(n) + (seq![':'] + r2),
    ensures
        m == n,
        r1 == r2,
{
    lemma_dec_digits_are_digits(m);
    lemma_dec_digits_are_digits(n);
    let u = dec_digits(m) + (seq![':'] + r1);
    let lm = dec_digits(m).len() as int;
    let ln = dec_digits(n).len() as int;
    assert(!is_digit_char(':'));
    if lm < ln {
        assert(u[lm] == ':');
        assert(u[lm] == dec_digits(n)[lm]);
        assert(is_digit_char(dec_digits(n)[lm]));
        assert(false);
    }
    if ln < lm {
        assert(u[ln] == ':');
        assert(u[ln] == dec_digits(m)[ln]);
        assert(is_digit_char(dec_digits(m)[ln]));
        assert(false);
    }
    lemma_concat_cancel(dec_digits(m), seq![':'] + r1, dec_digits(n), seq![':'] + r2);
    lemma_dec_digits_injective(m, n);
    lemma_concat_cancel(seq![':'], r1, seq![':'], r2);
}

pub proof fn lemma_enc_str_prefix(a: Seq<char>, b: Seq<char>, r1: Seq<char>, r2: Seq<char>)
    requires
        enc_str(a) + r1 == enc_str(b) + r2,
    ensures
        a == b,
        r1 == r2,
{
    assert(enc_str(a) + r1 =~= dec_digits(a.len()) + (seq![':'] + (a + r1)));
    assert(enc_str(b) + r2 =~= dec_digits(b.len()) + (seq![':'] + (b + r2)));
    lemma_num_prefix(a.len(), b.len(), a + r1, b + r2);
    lemma_concat_cancel(a, r1, b, r2);
}

pub proof fn lemma_enc_str_unambiguous()
    ensures
        prefix_unambiguous(enc_str_fn()),
{
    let f = enc_str_fn();
    assert forall|x: Seq<char>, y: Seq<char>, r1: Seq<char>, r2: Seq<char>|
        #[trigger] (f(x) + r1) == #[trigger] (f(y) + r2) implies x == y && r1 == r2 by {
        lemma_enc_str_prefix(x, y, r1, r2);
    }
}

pub proof fn lemma_enc_bool_unambiguous()
    ensures
        prefix_unambiguous(enc_bool_fn()),
{
    let f = enc_bool_fn();
    assert forall|x: bool, y: bool, r1: Seq<char>, r2: Seq<char>|
        #[trigger] (f(x) + r1) == #[trigger] (f(y) + r2) implies x == y && r1 == r2 by {
        let u = f(x) + r1;
        assert(u[0] == enc_bool(x)[0]);
        assert(u[0] == enc_bool(y)[0]);
        assert(x == y);
        lemma_concat_cancel(f(x), r1, f(y), r2);
    }
}

pub proof fn lemma_enc_opt_unambiguous<T>(f: spec_fn(T) -> Seq<char>)
    requires
        prefix_unambiguous(f),
    ensures
        prefix_unambiguous(enc_opt_fn(f)),
{
    let g = enc_opt_fn(f);
    assert forall|x: Option<T>, y: Option<T>, r1: Seq<char>, r2: Seq<char>|
        #[trigger] (g(x) + r1) == #[trigger] (g(y) + r2) implies x == y && r1 == r2 by {
        let u = g(x) + r1;
        assert(u[0] == enc_opt(x, f)[0]);
        assert(u[0] == enc_opt(y, f)[0]);
        match (x, y) {
            (None, None) => {
                lemma_concat_cancel(g(x), r1, g(y), r2);
            },
            (Some(a), Some(b)) => {
                assert(enc_opt(x, f) + r1 =~= seq!['+'] + (f(a) + r1));
                assert(enc_opt(y, f) + r2 =~= seq!['+'] + (f(b) + r2));
                lemma_concat_cancel(seq!['+'], f(a) + r1, seq!['+'], f(b) + r2);
                assert(f(a) + r1 == f(b) + r2);
                assert(a == b && r1 == r2);
            },
            (None, Some(_)) => {
                assert(false);
            },
            (Some(_), None) => {
                assert(false);
            },
        }
    }
}

proof fn lemma_enc_cat_prefix<T>(
    f: spec_fn(T) -> Seq<char>,
    xs: Seq<T>,
    ys: Seq<T>,
    r1: Seq<char>,
    r2: Seq<char>,
)
    requires
        prefix_unambiguous(f),
        xs.len() == ys.len(),
        enc_cat(xs, f) + r1 == enc_cat(ys, f) + r2,
    ensures
        xs == ys,
        r1 == r2,
    decreases xs.len(),
{
    if xs.len() == 0 {
        assert(enc_cat(xs, f) + r1 =~= r1);
        assert(enc_cat(ys, f) + r2 =~= r2);
        assert(xs =~= ys);
    } else {
        let xt = xs.drop_first();
        let yt = ys.drop_first();
        assert(enc_cat(xs, f) + r1 =~= f(xs[0]) + (enc_cat(xt, f) + r1));
        assert(enc_cat(ys, f) + r2 =~= f(ys[0]) + (enc_cat(yt, f) + r2));
        assert(xs[0] == ys[0] && enc_cat(xt, f) + r1 == enc_cat(yt, f) + r2);
        lemma_enc_cat_prefix(f, xt, yt, r1, r2);
        assert(xs =~= ys) by {
            assert(forall|i: int| 1 <= i < xs.len() ==> #[trigger] xs[i] == xt[i - 1] && ys[i]
                == yt[i - 1]);
        }
    }
}

pub proof fn lemma_enc_seq_unambiguous<T>(f: spec_fn(T) -> Seq<char>)
    requires
        prefix_unambiguous(f),
    ensures
        prefix_unambiguous(enc_seq_fn(f)),
{
    let g = enc_seq_fn(f);
    assert forall|x: Seq<T>, y: Seq<T>, r1: Seq<char>, r2: Seq<char>|
        #[trigger] (g(x) + r1) == #[trigger] (g(y) + r2) implies x == y && r1 == r2 by {
        assert(g(x) + r1 =~= dec_digits(x.len()) + (seq![':'] + (enc_cat(x, f) + r1)));
        assert(g(y) + r2 =~= dec_digits(y.len()) + (seq![':'] + (enc_cat(y, f) + r2)));
        lemma_num_prefix(x.len(), y.len(), enc_cat(x, f) + r1, enc_cat(y, f) + r2);
        lemma_enc_cat_prefix(f, x, y, r1, r2);
    }
}

/// One environment binding: key, then value.
pub open spec fn enc_env(e: EnvVarView) -> Seq<char> {
    enc_str(e.key) + enc_str(e.value)
}

pub open spec fn enc_env_fn() -> spec_fn(EnvVarView) -> Seq<char> {
    |e: EnvVarView| enc_env(e)
}

pub proof fn lemma_enc_env_unambiguous()
    ensures
        prefix_unambiguous(enc_env_fn()),
{
    let f = enc_env_fn();
    assert forall|x: EnvVarView, y: EnvVarView, r1: Seq<char>, r2: Seq<char>|
        #[trigger] (f(x) + r1) == #[trigger] (f(y) + r2) implies x == y && r1 == r2 by {
        assert(f(x) + r1 =~= enc_str(x.key) + (enc_str(x.value) + r1));
        assert(f(y) + r2 =~= enc_str(y.key) + (enc_str(y.value) + r2));
        lemma_enc_str_prefix(x.key, y.key, enc_str(x.value) + r1, enc_str(y.value) + r2);
        lemma_enc_str_prefix(x.value, y.value, r1, r2);
        assert(x =~= y);
    }
}

/// One volume mount: source, target, read-only marker.
pub open spec fn enc_volume(v: VolumeMountView) -> Seq<char> {
    enc_str(v.source) + (enc_str(v.target) + enc_opt(v.read_only, enc_bool_fn()))
}

pub open spec fn enc_volume_fn() -> spec_fn(VolumeMountView) -> Seq<char> {
    |v: VolumeMountView| enc_volume(v)
}

pub proof fn lemma_enc_volume_unambiguous()
    ensures
        prefix_unambiguous(enc_volume_fn()),
{
    lemma_enc_bool_unambiguous();
    lemma_enc_opt_unambiguous(enc_bool_fn());
    let ob = enc_opt_fn(enc_bool_fn());
    let f = enc_volume_fn();
    assert forall|x: VolumeMountView, y: VolumeMountView, r1: Seq<char>, r2: Seq<char>|
        #[trigger] (f(x) + r1) == #[trigger] (f(y) + r2) implies x == y && r1 == r2 by {
        assert(f(x) + r1 =~= enc_str(x.source) + (enc_str(x.target) + (ob(x.read_only) + r1)));
        assert(f(y) + r2 =~= enc_str(y.source) + (enc_str(y.target) + (ob(y.read_only) + r2)));
        lemma_enc_str_prefix(
            x.source,
            y.source,
            enc_str(x.target) + (ob(x.read_only) + r1),
            enc_str(y.target) + (ob(y.read_only) + r2),
        );
        lemma_enc_str_prefix(x.target, y.target, ob(x.read_only) + r1, ob(y.read_only) + r2);
        assert(x.read_only == y.read_only && r1 == r2);
        assert(x =~= y);
    }
}

/// One tmpfs mount: target, size, read-only marker.
pub open spec fn enc_tmpfs(t: TmpfsMountView) -> Seq<char> {
    enc_str(t.target) + (enc_opt(t.size, enc_str_fn()) + enc_opt(t.read_only, enc_bool_fn()))
}

pub open spec fn enc_tmpfs_fn() -> spec_fn(TmpfsMountView) -> Seq<char> {
    |t: TmpfsMountView| enc_tmpfs(t)
}

pub proof fn lemma_enc_tmpfs_unambiguous()
    ensures
        prefix_unambiguous(enc_tmpfs_fn()),
{
    lemma_enc_bool_unambiguous();
    lemma_enc_opt_unambiguous(enc_bool_fn());
    lemma_enc_str_unambiguous();
    lemma_enc_opt_unambiguous(enc_str_fn());
    let ob = enc_opt_fn(enc_bool_fn());
    let os = enc_opt_fn(enc_str_fn());
    let f = enc_tmpfs_fn();
    assert forall|x: TmpfsMountView, y: TmpfsMountView, r1: Seq<char>, r2: Seq<char>|
        #[trigger] (f(x) + r1) == #[trigger] (f(y) + r2) implies x == y && r1 == r2 by {
        assert(f(x) + r1 =~= enc_str(x.target) + (os(x.size) + (ob(x.read_only) + r1)));
        assert(f(y) + r2 =~= enc_str(y.target) + (os(y.size) + (ob(y.read_only) + r2)));
        lemma_enc_str_prefix(
            x.target,
            y.target,
            os(x.size) + (ob(x.read_only) + r1),
            os(y.size) + (ob(y.read_only) + r2),
        );
        assert(x.size == y.size && ob(x.read_only) + r1 == ob(y.read_only) + r2);
        assert(x.read_only == y.read_only && r1 == r2);
        assert(x =~= y);
    }
}

/// One dependency: package, version, source.
pub open spec fn enc_dependency(d: DependencyView) -> Seq<char> {
    enc_str(d.package) + (enc_opt(d.version, enc_str_fn()) + enc_opt(d.source, enc_str_fn()))
}

pub open spec fn enc_dependency_fn() -> spec_fn(DependencyView) -> Seq<char> {
    |d: DependencyView| enc_dependency(d)
}

pub proof fn lemma_enc_dependency_unambiguous()
    ensures
        prefix_unambiguous(enc_dependency_fn()),
{
    lemma_enc_str_unambiguous();
    lemma_enc_opt_unambiguous(enc_str_fn());
    let os = enc_opt_fn(enc_str_fn());
    let f = enc_dependency_fn();
    assert forall|x: DependencyView, y: DependencyView, r1: Seq<char>, r2: Seq<char>|
        #[trigger] (f(x) + r1) == #[trigger] (f(y) + r2) implies x == y && r1 == r2 by {
        assert(f(x) + r1 =~= enc_str(x.package) + (os(x.version) + (os(x.source) + r1)));
        assert(f(y) + r2 =~= enc_str(y.package) + (os(y.version) + (os(y.source) + r2)));
        lemma_enc_str_prefix(
            x.package,
            y.package,
            os(x.version) + (os(x.source) + r1),
            os(y.version) + (os(y.source) + r2),
        );
        assert(x.version == y.version && os(x.source) + r1 == os(y.source) + r2);
        assert(x.source == y.source && r1 == r2);
        assert(x =~= y);
    }
}

/// The build-context override: both paths and the build arguments.
pub open spec fn enc_build_context(b: BuildContextView) -> Seq<char> {
    enc_opt(b.dockerfile_path, enc_str_fn()) + (enc_opt(b.context_path, enc_str_fn()) + enc_opt(
        b.build_args,
        enc_seq_fn(enc_env_fn()),
    ))
}

pub open spec fn enc_build_context_fn() -> spec_fn(BuildContextView) -> Seq<char> {
    |b: BuildContextView| enc_build_context(b)
}

pub proof fn lemma_enc_build_context_unambiguous()
    ensures
        prefix_unambiguous(enc_build_context_fn()),
{
    lemma_enc_str_unambiguous();
    lemma_enc_opt_unambiguous(enc_str_fn());
    lemma_enc_env_unambiguous();
    lemma_enc_seq_unambiguous(enc_env_fn());
    lemma_enc_opt_unambiguous(enc_seq_fn(enc_env_fn()));
    let os = enc_opt_fn(enc_str_fn());
    let oe = enc_opt_fn(enc_seq_fn(enc_env_fn()));
    let f = enc_build_context_fn();
    assert forall|x: BuildContextView, y: BuildContextView, r1: Seq<char>, r2: Seq<char>|
        #[trigger] (f(x) + r1) == #[trigger] (f(y) + r2) implies x == y && r1 == r2 by {
        assert(f(x) + r1 =~= os(x.dockerfile_path) + (os(x.context_path) + (oe(x.build_args)
            + r1)));
        assert(f(y) + r2 =~= os(y.dockerfile_path) + (os(y.context_path) + (oe(y.build_args)
            + r2)));
        assert(x.dockerfile_path == y.dockerfile_path && os(x.context_path) + (oe(x.build_args)
            + r1) == os(y.context_path) + (oe(y.build_args) + r2));
        assert(x.context_path == y.context_path && oe(x.build_args) + r1 == oe(y.build_args) + r2);
        assert(x.build_args == y.build_args && r1 == r2);
        assert(x =~= y);
    }
}

/// The environment field encoder: bindings in canonical order.
pub open spec fn enc_env_field(e: Seq<EnvVarView>) -> Seq<char> {
    enc_seq(canon_env(e), enc_env_fn())
}

pub open spec fn enc_env_field_fn() -> spec_fn(Seq<EnvVarView>) -> Seq<char> {
    |e: Seq<EnvVarView>| enc_env_field(e)
}

/// The canonical encoding of a definition. Environment bindings are sorted
/// into canonical order first, so declaration order there does not matter;
/// every other sequence keeps its declared order, which is significant.
pub open spec fn encode_config(c: ConfigView) -> Seq<char> {
    enc_str(c.name) + (enc_opt(c.base_image, enc_str_fn()) + (enc_opt(
        c.command,
        enc_seq_fn(enc_str_fn()),
    ) + (enc_opt(c.environment, enc_env_field_fn()) + (enc_opt(
        c.volumes,
        enc_seq_fn(enc_volume_fn()),
    ) + (enc_opt(c.tmpfs, enc_seq_fn(enc_tmpfs_fn())) + (enc_opt(
        c.dependencies,
        enc_seq_fn(enc_dependency_fn()),
    ) + (enc_opt(c.gpu, enc_bool_fn()) + (enc_opt(c.interactive, enc_bool_fn()) + (enc_opt(
        c.tty,
        enc_bool_fn(),
    ) + (enc_opt(c.remove, enc_bool_fn()) + enc_opt(
        c.build_context,
        enc_build_context_fn(),
    )))))))))))
}

/// Equal canonical encodings come only from definitions that agree on every
/// field, with the environment compared as an unordered collection.
#[verifier::rlimit(100)]
pub proof fn lemma_encode_config_injective(c1: ConfigView, c2: ConfigView)
    requires
        encode_config(c1) == encode_config(c2),
    ensures
        c1.name == c2.name,
        c1.base_image == c2.base_image,
        c1.command == c2.command,
        c1.environment is Some <==> c2.environment is Some,
        (match (c1.environment, c2.environment) {
            (Some(e1), Some(e2)) => canon_env(e1) == canon_env(e2) && e1.to_multiset()
                == e2.to_multiset(),
            (None, None) => true,
            _ => false,
        }),
        c1.volumes == c2.volumes,
        c1.tmpfs == c2.tmpfs,
        c1.dependencies == c2.dependencies,
        c1.gpu == c2.gpu,
        c1.interactive == c2.interactive,
        c1.tty == c2.tty,
        c1.remove == c2.remove,
        c1.build_context == c2.build_context,
{
    lemma_enc_str_unambiguous();
    lemma_enc_bool_unambiguous();
    lemma_enc_env_unambiguous();
    lemma_enc_volume_unambiguous();
    lemma_enc_tmpfs_unambiguous();
    lemma_enc_dependency_unambiguous();
    lemma_enc_build_context_unambiguous();
    lemma_enc_opt_unambiguous(enc_str_fn());
    lemma_enc_seq_unambiguous(enc_str_fn());
    lemma_enc_opt_unambiguous(enc_seq_fn(enc_str_fn()));
    lemma_enc_seq_unambiguous(enc_env_fn());
    lemma_enc_seq_unambiguous(enc_volume_fn());
    lemma_enc_opt_unambiguous(enc_seq_fn(enc_volume_fn()));
    lemma_enc_seq_unambiguous(enc_tmpfs_fn());
    lemma_enc_opt_unambiguous(enc_seq_fn(enc_tmpfs_fn()));
    lemma_enc_seq_unambiguous(enc_dependency_fn());
    lemma_enc_opt_unambiguous(enc_seq_fn(enc_dependency_fn()));
    lemma_enc_opt_unambiguous(enc_bool_fn());
    lemma_enc_opt_unambiguous(enc_build_context_fn());
    let os = enc_opt_fn(enc_str_fn());
    let oc = enc_opt_fn(enc_seq_fn(enc_str_fn()));
    let ov = enc_opt_fn(enc_seq_fn(enc_volume_fn()));
    let ot = enc_opt_fn(enc_seq_fn(enc_tmpfs_fn()));
    let od = enc_opt_fn(enc_seq_fn(enc_dependency_fn()));
    let ob = enc_opt_fn(enc_bool_fn());
    let obc = enc_opt_fn(enc_build_context_fn());
    let ge = enc_seq_fn(enc_env_fn());
    // tails of the first encoding, innermost first
    let m12 = obc(c1.build_context);
    let m11 = ob(c1.remove) + m12;
    let m10 = ob(c1.tty) + m11;
    let m9 = ob(c1.interactive) + m10;
    let m8 = ob(c1.gpu) + m9;
    let m7 = od(c1.dependencies) + m8;
    let m6 = ot(c1.tmpfs) + m7;
    let m5 = ov(c1.volumes) + m6;
    let m4 = enc_opt(c1.environment, enc_env_field_fn()) + m5;
    let m3 = oc(c1.command) + m4;
    let m2 = os(c1.base_image) + m3;
    let n12 = obc(c2.build_context);
    let n11 = ob(c2.remove) + n12;
    let n10 = ob(c2.tty) + n11;
    let n9 = ob(c2.interactive) + n10;
    let n8 = ob(c2.gpu) + n9;
    let n7 = od(c2.dependencies) + n8;
    let n6 = ot(c2.tmpfs) + n7;
    let n5 = ov(c2.volumes) + n6;
    let n4 = enc_opt(c2.environment, enc_env_field_fn()) + n5;
    let n3 = oc(c2.command) + n4;
    let n2 = os(c2.base_image) + n3;
    assert(encode_config(c1) == enc_str(c1.name) + m2);
    assert(encode_config(c2) == enc_str(c2.name) + n2);
    lemma_enc_str_prefix(c1.name, c2.name, m2, n2);
    assert(os(c1.base_image) + m3 == os(c2.base_image) + n3);
    assert(c1.base_image == c2.base_image && m3 == n3);
    assert(oc(c1.command) + m4 == oc(c2.command) + n4);
    assert(c1.command == c2.command && m4 == n4);
    // the environment field is handled by hand: sorting folds reorderings
    let u = enc_opt(c1.environment, enc_env_field_fn()) + m5;
    assert(u[0] == enc_opt(c1.environment, enc_env_field_fn())[0]);
    assert(u[0] == enc_opt(c2.environment, enc_env_field_fn())[0]);
    match (c1.environment, c2.environment) {
        (None, None) => {
            lemma_concat_cancel(
                enc_opt(c1.environment, enc_env_field_fn()),
                m5,
                enc_opt(c2.environment, enc_env_field_fn()),
                n5,
            );
        },
        (Some(e1), Some(e2)) => {
            assert(enc_opt(c1.environment, enc_env_field_fn()) + m5 =~= seq!['+'] + (enc_env_field(
                e1,
            ) + m5));
            assert(enc_opt(c2.environment, enc_env_field_fn()) + n5 =~= seq!['+'] + (enc_env_field(
                e2,
            ) + n5));
            lemma_concat_cancel(
                seq!['+'],
                enc_env_field(e1) + m5,
                seq!['+'],
                enc_env_field(e2) + n5,
            );
            assert(ge(canon_env(e1)) + m5 == ge(canon_env(e2)) + n5);
            assert(canon_env(e1) == canon_env(e2) && m5 == n5);
            lemma_env_order_total();
            e1.lemma_sort_by_ensures(env_order());
            e2.lemma_sort_by_ensures(env_order());
            assert(e1.to_multiset() == e2.to_multiset());
        },
        (None, Some(_)) => {
            assert(false);
        },
        (Some(_), None) => {
            assert(false);
        },
    }
    assert(m5 == n5);
    assert(ov(c1.volumes) + m6 == ov(c2.volumes) + n6);
    assert(c1.volumes == c2.volumes && m6 == n6);
    assert(ot(c1.tmpfs) + m7 == ot(c2.tmpfs) + n7);
    assert(c1.tmpfs == c2.tmpfs && m7 == n7);
    assert(od(c1.dependencies) + m8 == od(c2.dependencies) + n8);
    assert(c1.dependencies == c2.dependencies && m8 == n8);
    assert(ob(c1.gpu) + m9 == ob(c2.gpu) + n9);
    assert(c1.gpu == c2.gpu && m9 == n9);
    assert(ob(c1.interactive) + m10 == ob(c2.interactive) + n10);
    assert(c1.interactive == c2.interactive && m10 == n10);
    assert(ob(c1.tty) + m11 == ob(c2.tty) + n11);
    assert(c1.tty == c2.tty && m11 == n11);
    assert(ob(c1.remove) + m12 == ob(c2.remove) + n12);
    assert(c1.remove == c2.remove && m12 == n12);
    assert(obc(c1.build_context) + Seq::<char>::empty() =~= m12);
    assert(obc(c2.build_context) + Seq::<char>::empty() =~= n12);
    assert(obc(c1.build_context) + Seq::<char>::empty() == obc(c2.build_context) + Seq::<
        char,
    >::empty());
    assert(c1.build_context == c2.build_context);
}

pub proof fn lemma_enc_cat_push<T>(xs: Seq<T>, x: T, f: spec_fn(T) -> Seq<char>)
    ensures
        enc_cat(xs.push(x), f) == enc_cat(xs, f) + f(x),
    decreases xs.len(),
{
    if xs.len() == 0 {
        assert(xs.push(x)[0] == x);
        assert(xs.push(x).drop_first() =~= xs);
        assert(enc_cat(xs, f) == Seq::<char>::empty());
        assert(enc_cat(xs.push(x), f) == f(x) + enc_cat(xs, f));
        assert(enc_cat(xs, f) + f(x) =~= f(x) + enc_cat(xs, f));
    } else {
        assert(xs.push(x).drop_first() =~= xs.drop_first().push(x));
        lemma_enc_cat_push(xs.drop_first(), x, f);
        assert(xs.push(x)[0] == xs[0]);
        assert(enc_cat(xs.push(x), f) =~= f(xs[0]) + (enc_cat(xs.drop_first(), f) + f(x)));
        assert(f(xs[0]) + (enc_cat(xs.drop_first(), f) + f(x)) =~= (f(xs[0]) + enc_cat(
            xs.drop_first(),
            f,
        )) + f(x));
    }
}

/// Appends the canonical encoding of a character sequence.
fn push_enc_str(out: &mut String, s: &str)
    ensures
        final(out)@ == old(out)@ + enc_str(s@),
{
    let n = s.unicode_len();
    push_decimal(n as u64, out);
    out.append(":");
    out.append(s);
    proof {
        reveal_strlit(":");
        assert(out@ =~= old(out)@ + enc_str(s@));
    }
}

fn push_enc_bool(out: &mut String, b: bool)
    ensures
        final(out)@ == old(out)@ + enc_bool(b),
{
    if b {
        out.append("T");
    } else {
        out.append("F");
    }
    proof {
        reveal_strlit("T");
        reveal_strlit("F");
        assert(out@ =~= old(out)@ + enc_bool(b));
    }
}

fn push_enc_opt_bool(out: &mut String, o: &Option<bool>)
    ensures
        final(out)@ == old(out)@ + enc_opt(*o, enc_bool_fn()),
{
    match o {
        None => {
            out.append("-");
            proof {
                reveal_strlit("-");
                assert(out@ =~= old(out)@ + enc_opt(*o, enc_bool_fn()));
            }
        },
        Some(b) => {
            out.append("+");
            push_enc_bool(out, *b);
            proof {
                reveal_strlit("+");
                assert(out@ =~= old(out)@ + enc_opt(*o, enc_bool_fn()));
            }
        },
    }
}

fn push_enc_opt_str(out: &mut String, o: &Option<String>)
    ensures
        final(out)@ == old(out)@ + enc_opt(o.deep_view(), enc_str_fn()),
{
    match o {
        None => {
            out.append("-");
            proof {
                reveal_strlit("-");
                assert(out@ =~= old(out)@ + enc_opt(o.deep_view(), enc_str_fn()));
            }
        },
        Some(s) => {
            out.append("+");
            push_enc_str(out, s.as_str());
            proof {
                reveal_strlit("+");
                assert(out@ =~= old(out)@ + enc_opt(o.deep_view(), enc_str_fn()));
            }
        },
    }
}

fn push_enc_env(out: &mut String, e: &EnvVar)
    ensures
        final(out)@ == old(out)@ + enc_env(e.deep_view()),
{
    push_enc_str(out, e.key.as_str());
    push_enc_str(out, e.value.as_str());
    proof {
        assert(out@ =~= old(out)@ + enc_env(e.deep_view()));
    }
}

/// Appends a length-prefixed list of environment bindings, in list order.
fn push_enc_env_list(out: &mut String, v: &Vec<EnvVar>)
    ensures
        final(out)@ == old(out)@ + enc_seq(v.deep_view(), enc_env_fn()),
{
    let n = v.len();
    push_decimal(n as u64, out);
    out.append(":");
    let ghost base = out@;
    proof {
        reveal_strlit(":");
        assert(out@ =~= base + enc_cat(v.deep_view().take(0), enc_env_fn()));
    }
    let mut i: usize = 0;
    while i < n
        invariant
            0 <= i <= n,
            n == v.len(),
            out@ == base + enc_cat(v.deep_view().take(i as int), enc_env_fn()),
        decreases n - i,
    {
        push_enc_env(out, &v[i]);
        proof {
            let dv = v.deep_view();
            assert(dv.take(i as int + 1) =~= dv.take(i as int).push(dv[i as int]));
            lemma_enc_cat_push(dv.take(i as int), dv[i as int], enc_env_fn());
            assert(out@ =~= base + enc_cat(dv.take(i as int + 1), enc_env_fn()));
        }
        i = i + 1;
    }
    proof {
        assert(v.deep_view().take(n as int) =~= v.deep_view());
        assert(out@ =~= old(out)@ + enc_seq(v.deep_view(), enc_env_fn()));
    }
}

/// Appends a length-prefixed list of strings, in list order.
fn push_enc_str_list(out: &mut String, v: &Vec<String>)
    ensures
        final(out)@ == old(out)@ + enc_seq(v.deep_view(), enc_str_fn()),
{
    let n = v.len();
    push_decimal(n as u64, out);
    out.append(":");
    let ghost base = out@;
    proof {
        reveal_strlit(":");
        assert(out@ =~= base + enc_cat(v.deep_view().take(0), enc_str_fn()));
    }
    let mut i: usize = 0;
    while i < n
        invariant
            0 <= i <= n,
            n == v.len(),
            out@ == base + enc_cat(v.deep_view().take(i as int), enc_str_fn()),
        decreases n - i,
    {
        push_enc_str(out, v[i].as_str());
        proof {
            let dv = v.deep_view();
            assert(dv.take(i as int + 1) =~= dv.take(i as int).push(dv[i as int]));
            lemma_enc_cat_push(dv.take(i as int), dv[i as int], enc_str_fn());
            assert(out@ =~= base + enc_cat(dv.take(i as int + 1), enc_str_fn()));
        }
        i = i + 1;
    }
    proof {
        assert(v.deep_view().take(n as int) =~= v.deep_view());
        assert(out@ =~= old(out)@ + enc_seq(v.deep_view(), enc_str_fn()));
    }
}

fn push_enc_volume(out: &mut String, v: &VolumeMount)
    ensures
        final(out)@ == old(out)@ + enc_volume(v.deep_view()),
{
    push_enc_str(out, v.source.as_str());
    push_enc_str(out, v.target.as_str());
    push_enc_opt_bool(out, &v.read_only);
    proof {
        assert(out@ =~= old(out)@ + enc_volume(v.deep_view()));
    }
}

/// Appends a length-prefixed list of volume mounts, in list order.
fn push_enc_volume_list(out: &mut String, v: &Vec<VolumeMount>)
    ensures
        final(out)@ == old(out)@ + enc_seq(v.deep_view(), enc_volume_fn()),
{
    let n = v.len();
    push_decimal(n as u64, out);
    out.append(":");
    let ghost base = out@;
    proof {
        reveal_strlit(":");
        assert(out@ =~= base + enc_cat(v.deep_view().take(0), enc_volume_fn()));
    }
    let mut i: usize = 0;
    while i < n
        invariant
            0 <= i <= n,
            n == v.len(),
            out@ == base + enc_cat(v.deep_view().take(i as int), enc_volume_fn()),
        decreases n - i,
    {
        push_enc_volume(out, &v[i]);
        proof {
            let dv = v.deep_view();
            assert(dv.take(i as int + 1) =~= dv.take(i as int).push(dv[i as int]));
            lemma_enc_cat_push(dv.take(i as int), dv[i as int], enc_volume_fn());
            assert(out@ =~= base + enc_cat(dv.take(i as int + 1), enc_volume_fn()));
        }
        i = i + 1;
    }
    proof {
        assert(v.deep_view().take(n as int) =~= v.deep_view());
        assert(out@ =~= old(out)@ + enc_seq(v.deep_view(), enc_volume_fn()));
    }
}

fn push_enc_tmpfs(out: &mut String, t: &TmpfsMount)
    ensures
        final(out)@ == old(out)@ + enc_tmpfs(t.deep_view()),
{
    push_enc_str(out, t.target.as_str());
    push_enc_opt_str(out, &t.size);
    push_enc_opt_bool(out, &t.read_only);
    proof {
        assert(out@ =~= old(out)@ + enc_tmpfs(t.deep_view()));
    }
}

/// Appends a length-prefixed list of tmpfs mounts, in list order.
fn push_enc_tmpfs_list(out: &mut String, v: &Vec<TmpfsMount>)
    ensures
        final(out)@ == old(out)@ + enc_seq(v.deep_view(), enc_tmpfs_fn()),
{
    let n = v.len();
    push_decimal(n as u64, out);
    out.append(":");
    let ghost base = out@;
    proof {
        reveal_strlit(":");
        assert(out@ =~= base + enc_cat(v.deep_view().take(0), enc_tmpfs_fn()));
    }
    let mut i: usize = 0;
    while i < n
        invariant
            0 <= i <= n,
            n == v.len(),
            out@ == base + enc_cat(v.deep_view().take(i as int), enc_tmpfs_fn()),
        decreases n - i,
    {
        push_enc_tmpfs(out, &v[i]);
        proof {
            let dv = v.deep_view();
            assert(dv.take(i as int + 1) =~= dv.take(i as int).push(dv[i as int]));
            lemma_enc_cat_push(dv.take(i as int), dv[i as int], enc_tmpfs_fn());
            assert(out@ =~= base + enc_cat(dv.take(i as int + 1), enc_tmpfs_fn()));
        }
        i = i + 1;
    }
    proof {
        assert(v.deep_view().take(n as int) =~= v.deep_view());
        assert(out@ =~= old(out)@ + enc_seq(v.deep_view(), enc_tmpfs_fn()));
    }
}

pub(crate) fn push_enc_dependency(out: &mut String, d: &Dependency)
    ensures
        final(out)@ == old(out)@ + enc_dependency(d.deep_view()),
{
    push_enc_str(out, d.package.as_str());
    push_enc_opt_str(out, &d.version);
    push_enc_opt_str(out, &d.source);
    proof {
        assert(out@ =~= old(out)@ + enc_dependency(d.deep_view()));
    }
}

/// Appends a length-prefixed list of dependencies, in list order.
fn push_enc_dependency_list(out: &mut String, v: &Vec<Dependency>)
    ensures
        final(out)@ == old(out)@ + enc_seq(v.deep_view(), enc_dependency_fn()),
{
    let n = v.len();
    push_decimal(n as u64, out);
    out.append(":");
    let ghost base = out@;
    proof {
        reveal_strlit(":");
        assert(out@ =~= base + enc_cat(v.deep_view().take(0), enc_dependency_fn()));
    }
    let mut i: usize = 0;
    while i < n
        invariant
            0 <= i <= n,
            n == v.len(),
            out@ == base + enc_cat(v.deep_view().take(i as int), enc_dependency_fn()),
        decreases n - i,
    {
        push_enc_dependency(out, &v[i]);
        proof {
            let dv = v.deep_view();
            assert(dv.take(i as int + 1) =~= dv.take(i as int).push(dv[i as int]));
            lemma_enc_cat_push(dv.take(i as int), dv[i as int], enc_dependency_fn());
            assert(out@ =~= base + enc_cat(dv.take(i as int + 1), enc_dependency_fn()));
        }
        i = i + 1;
    }
    proof {
        assert(v.deep_view().take(n as int) =~= v.deep_view());
        assert(out@ =~= old(out)@ + enc_seq(v.deep_view(), enc_dependency_fn()));
    }
}

fn push_enc_build_context(out: &mut String, b: &BuildContext)
    ensures
        final(out)@ == old(out)@ + enc_build_context(b.deep_view()),
{
    push_enc_opt_str(out, &b.dockerfile_path);
    push_enc_opt_str(out, &b.context_path);
    match &b.build_args {
        None => {
            out.append("-");
            proof {
                reveal_strlit("-");
            }
        },
        Some(v) => {
            out.append("+");
            proof {
                reveal_strlit("+");
            }
            push_enc_env_list(out, v);
        },
    }
    proof {
        assert(out@ =~= old(out)@ + enc_build_context(b.deep_view()));
    }
}

/// Appends the canonical encoding of a whole definition.
#[verifier::rlimit(100)]
pub fn push_encode_config(out: &mut String, c: &ContainerConfig)
    ensures
        final(out)@ == old(out)@ + encode_config(c.deep_view()),
{
    let ghost dv = c.deep_view();
    let ghost k1 = enc_str(dv.name);
    let ghost k2 = enc_opt(dv.base_image, enc_str_fn());
    let ghost k3 = enc_opt(dv.command, enc_seq_fn(enc_str_fn()));
    let ghost k4 = enc_opt(dv.environment, enc_env_field_fn());
    let ghost k5 = enc_opt(dv.volumes, enc_seq_fn(enc_volume_fn()));
    let ghost k6 = enc_opt(dv.tmpfs, enc_seq_fn(enc_tmpfs_fn()));
    let ghost k7 = enc_opt(dv.dependencies, enc_seq_fn(enc_dependency_fn()));
    let ghost k8 = enc_opt(dv.gpu, enc_bool_fn());
    let ghost k9 = enc_opt(dv.interactive, enc_bool_fn());
    let ghost k10 = enc_opt(dv.tty, enc_bool_fn());
    let ghost k11 = enc_opt(dv.remove, enc_bool_fn());
    let ghost k12 = enc_opt(dv.build_context, enc_build_context_fn());
    let ghost s0 = out@;
    push_enc_str(out, c.name.as_str());
    let ghost s1 = out@;
    push_enc_opt_str(out, &c.base_image);
    let ghost s2 = out@;
    match &c.command {
        None => {
            out.append("-");
            proof {
                reveal_strlit("-");
                assert(out@ =~= s2 + k3);
            }
        },
        Some(v) => {
            out.append("+");
            proof {
                reveal_strlit("+");
            }
            push_enc_str_list(out, v);
            proof {
                assert(out@ =~= s2 + k3);
            }
        },
    }
    let ghost s3 = out@;
    match &c.environment {
        None => {
            out.append("-");
            proof {
                reveal_strlit("-");
                assert(out@ =~= s3 + k4);
            }
        },
        Some(v) => {
            out.append("+");
            proof {
                reveal_strlit("+");
            }
            let sorted = sort_env(v);
            push_enc_env_list(out, &sorted);
            proof {
                assert(out@ =~= s3 + k4);
            }
        },
    }
    let ghost s4 = out@;
    match &c.volumes {
        None => {
            out.append("-");
            proof {
                reveal_strlit("-");
                assert(out@ =~= s4 + k5);
            }
        },
        Some(v) => {
            out.append("+");
            proof {
                reveal_strlit("+");
            }
            push_enc_volume_list(out, v);
            proof {
                assert(out@ =~= s4 + k5);
            }
        },
    }
    let ghost s5 = out@;
    match &c.tmpfs {
        None => {
            out.append("-");
            proof {
                reveal_strlit("-");
                assert(out@ =~= s5 + k6);
            }
        },
        Some(v) => {
            out.append("+");
            proof {
                reveal_strlit("+");
            }
            push_enc_tmpfs_list(out, v);
            proof {
                assert(out@ =~= s5 + k6);
            }
        },
    }
    let ghost s6 = out@;
    match &c.dependencies {
        None => {
            out.append("-");
            proof {
                reveal_strlit("-");
                assert(out@ =~= s6 + k7);
            }
        },
        Some(v) => {
            out.append("+");
            proof {
                reveal_strlit("+");
            }
            push_enc_dependency_list(out, v);
            proof {
                assert(out@ =~= s6 + k7);
            }
        },
    }
    let ghost s7 = out@;
    push_enc_opt_bool(out, &c.gpu);
    let ghost s8 = out@;
    push_enc_opt_bool(out, &c.interactive);
    let ghost s9 = out@;
    push_enc_opt_bool(out, &c.tty);
    let ghost s10 = out@;
    push_enc_opt_bool(out, &c.remove);
    let ghost s11 = out@;
    match &c.build_context {
        None => {
            out.append("-");
            proof {
                reveal_strlit("-");
                assert(out@ =~= s11 + k12);
            }
        },
        Some(b) => {
            out.append("+");
            proof {
                reveal_strlit("+");
            }
            push_enc_build_context(out, b);
            proof {
                assert(out@ =~= s11 + k12);
            }
        },
    }
    proof {
        lemma_chain_twelve(
            s0, s1, s2, s3, s4, s5, s6, s7, s8, s9, s10, s11, out@,
            k1, k2, k3, k4, k5, k6, k7, k8, k9, k10, k11, k12,
        );
        assert(encode_config(dv) == k1 + (k2 + (k3 + (k4 + (k5 + (k6 + (k7 + (k8 + (k9 + (k10 + (
        k11 + k12)))))))))));
    }
}

/// Twelve successive appends equal one append of the nested concatenation.
proof fn lemma_chain_twelve(
    s0: Seq<char>, s1: Seq<char>, s2: Seq<char>, s3: Seq<char>, s4: Seq<char>, s5: Seq<char>,
    s6: Seq<char>, s7: Seq<char>, s8: Seq<char>, s9: Seq<char>, s10: Seq<char>, s11: Seq<char>,
    u: Seq<char>,
    k1: Seq<char>, k2: Seq<char>, k3: Seq<char>, k4: Seq<char>, k5: Seq<char>, k6: Seq<char>,
    k7: Seq<char>, k8: Seq<char>, k9: Seq<char>, k10: Seq<char>, k11: Seq<char>, k12: Seq<char>,
)
    requires
        s1 == s0 + k1,
        s2 == s1 + k2,
        s3 == s2 + k3,
        s4 == s3 + k4,
        s5 == s4 + k5,
        s6 == s5 + k6,
        s7 == s6 + k7,
        s8 == s7 + k8,
        s9 == s8 + k9,
        s10 == s9 + k10,
        s11 == s10 + k11,
        u == s11 + k12,
    ensures
        u == s0 + (k1 + (k2 + (k3 + (k4 + (k5 + (k6 + (k7 + (k8 + (k9 + (k10 + (k11
            + k12))))))))))),
{
    let t12 = k12;
    let t11 = k11 + t12;
    let t10 = k10 + t11;
    let t9 = k9 + t10;
    let t8 = k8 + t9;
    let t7 = k7 + t8;
    let t6 = k6 + t7;
    let t5 = k5 + t6;
    let t4 = k4 + t5;
    let t3 = k3 + t4;
    let t2 = k2 + t3;
    assert((s10 + k11) + t12 =~= s10 + t11);
    assert((s9 + k10) + t11 =~= s9 + t10);
    assert((s8 + k9) + t10 =~= s8 + t9);
    assert((s7 + k8) + t9 =~= s7 + t8);
    assert((s6 + k7) + t8 =~= s6 + t7);
    assert((s5 + k6) + t7 =~= s5 + t6);
    assert((s4 + k5) + t6 =~= s4 + t5);
    assert((s3 + k4) + t5 =~= s3 + t4);
    assert((s2 + k3) + t4 =~= s2 + t3);
    assert((s1 + k2) + t3 =~= s1 + t2);
    assert((s0 + k1) + t2 =~= s0 + (k1 + t2));
}

/// Reordering the environment bindings of a definition does not change its
/// canonical encoding; nothing else about the two definitions may differ.
pub proof fn lemma_encode_config_env_reorder(c1: ConfigView, c2: ConfigView)
    requires
        c1.name == c2.name,
        c1.base_image == c2.base_image,
        c1.command == c2.command,
        c1.volumes == c2.volumes,
        c1.tmpfs == c2.tmpfs,
        c1.dependencies == c2.dependencies,
        c1.gpu == c2.gpu,
        c1.interactive == c2.interactive,
        c1.tty == c2.tty,
        c1.remove == c2.remove,
        c1.build_context == c2.build_context,
        match (c1.environment, c2.environment) {
            (Some(e1), Some(e2)) => e1.to_multiset() == e2.to_multiset(),
            (None, None) => true,
            _ => false,
        },
    ensures
        encode_config(c1) == encode_config(c2),
{
    match (c1.environment, c2.environment) {
        (Some(e1), Some(e2)) => {
            lemma_env_order_total();
            e1.lemma_sort_by_ensures(env_order());
            e2.lemma_sort_by_ensures(env_order());
            vstd::seq_lib::lemma_sorted_unique(canon_env(e1), canon_env(e2), env_order());
            assert(canon_env(e1) == canon_env(e2));
        },
        _ => {},
    }
}

} // verus!
