//! The path model: translation between the caller-visible virtual namespace
//! and the store's flat key namespace.
//!
//! A path normalizes by splitting on `/`, dropping empty segments, and
//! rejoining, keeping one trailing slash exactly when the input had one.
//! An absolute key is the configured root joined with the normalized path,
//! with leading slashes stripped; a relative path re-roots a key under `/`
//! after stripping the root prefix.

use crate::strutil::{chars_to_string, string_to_chars};
use vstd::prelude::*;

verus! {

/// Length of the leading run of non-`/` characters.
pub open spec fn run_len(s: Seq<char>) -> nat
    decreases s.len(),
{
    if s.len() == 0 || s[0] == '/' {
        0
    } else {
        1 + run_len(s.drop_first())
    }
}

pub proof fn lemma_run_len_le(s: Seq<char>)
    ensures
        run_len(s) <= s.len(),
    decreases s.len(),
{
    if s.len() != 0 && s[0] != '/' {
        lemma_run_len_le(s.drop_first());
    }
}

/// The maximal non-empty `/`-free segments of `s`, in order.
pub open spec fn segments(s: Seq<char>) -> Seq<Seq<char>>
    decreases s.len(),
    via segments_decreases
{
    if s.len() == 0 {
        Seq::empty()
    } else if s[0] == '/' {
        segments(s.drop_first())
    } else {
        seq![s.take(run_len(s) as int)] + segments(s.skip(run_len(s) as int))
    }
}

#[via_fn]
proof fn segments_decreases(s: Seq<char>) {
    lemma_run_len_le(s);
}

/// A well-formed segment: non-empty and free of `/`.
pub open spec fn seg_wf(x: Seq<char>) -> bool {
    x.len() > 0 && forall|i: int| 0 <= i < x.len() ==> #[trigger] x[i] != '/'
}

pub open spec fn segs_wf(ss: Seq<Seq<char>>) -> bool {
    forall|i: int| 0 <= i < ss.len() ==> seg_wf(#[trigger] ss[i])
}

/// The segments joined with `/`; when `first` is false a separator is also
/// written before the first segment.
pub open spec fn emit(ss: Seq<Seq<char>>, first: bool) -> Seq<char>
    decreases ss.len(),
{
    if ss.len() == 0 {
        Seq::empty()
    } else {
        (if first {
            ss[0]
        } else {
            seq!['/'] + ss[0]
        }) + emit(ss.drop_first(), false)
    }
}

pub open spec fn join_segments(ss: Seq<Seq<char>>) -> Seq<char> {
    emit(ss, true)
}

/// What `normalize_path` returns: the non-empty segments rejoined, with
/// one trailing slash exactly when the input ended in one and the
/// rejoined segments are non-empty.  Paths made of slashes alone
/// normalize to the empty path.
pub open spec fn normalize_spec(s: Seq<char>) -> Seq<char> {
    join_segments(segments(s)) + if s.len() > 0 && s.last() == '/' && join_segments(
        segments(s),
    ).len() > 0 {
        seq!['/']
    } else {
        Seq::<char>::empty()
    }
}

proof fn lemma_run_len_iff(t: Seq<char>, k: int)
    requires
        0 <= k <= t.len(),
        forall|j: int| 0 <= j < k ==> #[trigger] t[j] != '/',
        k == t.len() || t[k] == '/',
    ensures
        run_len(t) == k,
    decreases t.len(),
{
    if k == 0 {
    } else {
        assert(t[0] != '/');
        lemma_run_len_iff(t.drop_first(), k - 1);
    }
}

proof fn lemma_run_chars(t: Seq<char>)
    ensures
        forall|j: int| 0 <= j < run_len(t) ==> #[trigger] t[j] != '/',
        run_len(t) < t.len() ==> t[run_len(t) as int] == '/',
    decreases t.len(),
{
    lemma_run_len_le(t);
    if t.len() != 0 && t[0] != '/' {
        lemma_run_chars(t.drop_first());
        assert forall|j: int| 0 <= j < run_len(t) implies #[trigger] t[j] != '/' by {
            if j > 0 {
                assert(t.drop_first()[j - 1] == t[j]);
            }
        }
        if run_len(t) < t.len() {
            assert(t[run_len(t) as int] == t.drop_first()[run_len(t.drop_first()) as int]);
        }
    }
}

/// Collapses repeated `/` and drops empty segments, keeping one trailing
/// slash exactly when the input ended in one and anything is left.
pub fn normalize_path(path: &str) -> (r: String)
    ensures
        r@ == normalize_spec(path@),
{
    let cs = string_to_chars(path);
    let n = cs.len();
    let has_trailing = n > 0 && cs[n - 1] == '/';
    let mut out: Vec<char> = Vec::new();
    let mut i: usize = 0;
    let mut first: bool = true;
    proof {
        assert(cs@.skip(0) =~= cs@);
        assert(Seq::<char>::empty() + join_segments(segments(cs@)) =~= join_segments(
            segments(cs@),
        ));
    }
    while i < n
        invariant
            i <= n,
            n == cs.len(),
            cs@ == path@,
            out@ + emit(segments(cs@.skip(i as int)), first) == join_segments(segments(cs@)),
        decreases n - i,
    {
        if cs[i] == '/' {
            proof {
                assert(cs@.skip(i as int).drop_first() =~= cs@.skip(i + 1));
            }
            i = i + 1;
        } else {
            if !first {
                out.push('/');
            }
            let ghost base = out@;
            let i0 = i;
            while i < n && cs[i] != '/'
                invariant
                    i0 <= i <= n,
                    n == cs.len(),
                    forall|j: int| i0 <= j < i ==> #[trigger] cs@[j] != '/',
                    out@ == base + cs@.skip(i0 as int).take(i - i0),
                decreases n - i,
            {
                out.push(cs[i]);
                proof {
                    assert(out@ =~= base + cs@.skip(i0 as int).take(i + 1 - i0));
                }
                i = i + 1;
            }
            proof {
                let t = cs@.skip(i0 as int);
                assert forall|j: int| 0 <= j < i - i0 implies #[trigger] t[j] != '/' by {
                    assert(t[j] == cs@[i0 + j]);
                }
                lemma_run_len_iff(t, i - i0);
                assert(t.skip(i - i0) =~= cs@.skip(i as int));
                assert(segments(t) == seq![t.take(i - i0)] + segments(cs@.skip(i as int)));
                assert(segments(t).drop_first() =~= segments(cs@.skip(i as int)));
            }
            first = false;
        }
    }
    proof {
        assert(cs@.skip(n as int) =~= Seq::<char>::empty());
        assert(out@ == join_segments(segments(cs@)));
    }
    if has_trailing && out.len() > 0 {
        out.push('/');
    }
    proof {
        assert(out@ =~= normalize_spec(path@));
    }
    chars_to_string(&out)
}

pub proof fn lemma_segments_wf(s: Seq<char>)
    ensures
        segs_wf(segments(s)),
    decreases s.len(),
{
    if s.len() == 0 {
    } else if s[0] == '/' {
        lemma_segments_wf(s.drop_first());
    } else {
        lemma_run_len_le(s);
        lemma_run_chars(s);
        lemma_segments_wf(s.skip(run_len(s) as int));
        let x = s.take(run_len(s) as int);
        assert(seg_wf(x));
    }
}

proof fn lemma_segments_slash_prefix(t: Seq<char>)
    ensures
        segments(seq!['/'] + t) == segments(t),
{
    assert((seq!['/'] + t)[0] == '/');
    assert((seq!['/'] + t).drop_first() =~= t);
}

proof fn lemma_run_len_concat(x: Seq<char>, r: Seq<char>)
    requires
        seg_wf(x),
        r.len() == 0 || r[0] == '/',
    ensures
        run_len(x + r) == x.len(),
{
    let s = x + r;
    assert forall|j: int| 0 <= j < x.len() implies #[trigger] s[j] != '/' by {
        assert(s[j] == x[j]);
    }
    lemma_run_len_iff(s, x.len() as int);
}

proof fn lemma_segments_concat(x: Seq<char>, r: Seq<char>)
    requires
        seg_wf(x),
        r.len() == 0 || r[0] == '/',
    ensures
        segments(x + r) == seq![x] + segments(r),
{
    let s = x + r;
    lemma_run_len_concat(x, r);
    assert(s[0] == x[0]);
    assert(s.take(x.len() as int) =~= x);
    assert(s.skip(x.len() as int) =~= r);
}

proof fn lemma_emit_false(ss: Seq<Seq<char>>)
    requires
        ss.len() > 0,
    ensures
        emit(ss, false) == seq!['/'] + emit(ss, true),
{
    assert(emit(ss, false) =~= seq!['/'] + emit(ss, true));
}

proof fn lemma_join_then_segments_general(ss: Seq<Seq<char>>, r: Seq<char>)
    requires
        segs_wf(ss),
        r.len() == 0 || r[0] == '/',
    ensures
        segments(emit(ss, true) + r) == ss + segments(r),
    decreases ss.len(),
{
    if ss.len() == 0 {
        assert(emit(ss, true) + r =~= r);
        assert(ss + segments(r) =~= segments(r));
    } else {
        let x = ss[0];
        let rest = ss.drop_first();
        assert(seg_wf(x));
        assert forall|i: int| 0 <= i < rest.len() implies seg_wf(#[trigger] rest[i]) by {
            assert(rest[i] == ss[i + 1]);
        }
        let e = emit(rest, false);
        assert(emit(ss, true) + r =~= x + (e + r));
        if rest.len() == 0 {
            assert(e + r =~= r);
            lemma_segments_concat(x, r);
            assert(seq![x] + segments(r) =~= ss + segments(r));
        } else {
            lemma_emit_false(rest);
            assert(e + r =~= seq!['/'] + (emit(rest, true) + r));
            lemma_segments_concat(x, e + r);
            lemma_segments_slash_prefix(emit(rest, true) + r);
            lemma_join_then_segments_general(rest, r);
            assert(seq![x] + (rest + segments(r)) =~= ss + segments(r));
        }
    }
}

proof fn lemma_segments_of_slash()
    ensures
        segments(seq!['/']) == Seq::<Seq<char>>::empty(),
{
    let s = seq!['/'];
    assert(s[0] == '/');
    assert(s.drop_first() =~= Seq::<char>::empty());
    assert(segments(s) == segments(Seq::<char>::empty()));
    assert(segments(Seq::<char>::empty()) =~= Seq::<Seq<char>>::empty());
}

proof fn lemma_join_then_segments(ss: Seq<Seq<char>>, tail: Seq<char>)
    requires
        segs_wf(ss),
        tail == Seq::<char>::empty() || tail == seq!['/'],
    ensures
        segments(emit(ss, true) + tail) == ss,
{
    lemma_join_then_segments_general(ss, tail);
    if tail == seq!['/'] {
        lemma_segments_of_slash();
    }
    assert(ss + segments(tail) =~= ss);
}

proof fn lemma_emit_concat(a: Seq<Seq<char>>, b: Seq<Seq<char>>, first: bool)
    requires
        a.len() > 0,
    ensures
        emit(a + b, first) == emit(a, first) + emit(b, false),
    decreases a.len(),
{
    let s = a + b;
    assert(s.drop_first() =~= a.drop_first() + b);
    assert(s[0] == a[0]);
    if a.len() == 1 {
        assert(a.drop_first() + b =~= b);
        assert(emit(a.drop_first(), false) =~= Seq::<char>::empty());
        assert(emit(s, first) =~= emit(a, first) + emit(b, false));
    } else {
        lemma_emit_concat(a.drop_first(), b, false);
        assert(emit(s, first) =~= emit(a, first) + emit(b, false));
    }
}

/// Normalizing is stable on segments: the normal form of a path has the
/// same segments as the path itself.
pub proof fn lemma_segments_of_normalized(s: Seq<char>)
    ensures
        segments(normalize_spec(s)) == segments(s),
{
    lemma_segments_wf(s);
    if s.len() > 0 && s.last() == '/' && join_segments(segments(s)).len() > 0 {
        lemma_join_then_segments_general(segments(s), seq!['/']);
        lemma_segments_of_slash();
        assert(segments(s) + segments(seq!['/']) =~= segments(s));
    } else {
        lemma_join_then_segments_general(segments(s), Seq::<char>::empty());
        assert(normalize_spec(s) =~= emit(segments(s), true) + Seq::<char>::empty());
        assert(segments(s) + segments(Seq::<char>::empty()) =~= segments(s));
    }
}

proof fn lemma_emit_no_trailing_slash(ss: Seq<Seq<char>>, first: bool)
    requires
        segs_wf(ss),
        emit(ss, first).len() > 0,
    ensures
        emit(ss, first).last() != '/',
    decreases ss.len(),
{
    if ss.len() > 0 {
        let rest = ss.drop_first();
        assert forall|i: int| 0 <= i < rest.len() implies seg_wf(#[trigger] rest[i]) by {
            assert(rest[i] == ss[i + 1]);
        }
        if rest.len() == 0 {
            assert(emit(rest, false) =~= Seq::<char>::empty());
            assert(seg_wf(ss[0]));
            assert(emit(ss, first).last() == ss[0].last());
        } else {
            lemma_emit_no_trailing_slash(rest, false);
            assert(emit(rest, false).len() > 0);
            assert(emit(ss, first).last() == emit(rest, false).last());
        }
    }
}

/// `s` with every leading `/` removed.
pub open spec fn trim_leading(s: Seq<char>) -> Seq<char>
    decreases s.len(),
{
    if s.len() > 0 && s[0] == '/' {
        trim_leading(s.drop_first())
    } else {
        s
    }
}

proof fn lemma_trim_leading_iff(s: Seq<char>, k: int)
    requires
        0 <= k <= s.len(),
        forall|j: int| 0 <= j < k ==> #[trigger] s[j] == '/',
        k == s.len() || s[k] != '/',
    ensures
        trim_leading(s) == s.skip(k),
    decreases k,
{
    if k == 0 {
        assert(s.skip(0) =~= s);
    } else {
        assert(s[0] == '/');
        let t = s.drop_first();
        assert forall|j: int| 0 <= j < k - 1 implies #[trigger] t[j] == '/' by {
            assert(t[j] == s[j + 1]);
        }
        lemma_trim_leading_iff(t, k - 1);
        assert(t.skip(k - 1) =~= s.skip(k));
    }
}

/// Whether `s` ends in `/`.
pub open spec fn ends_slash(s: Seq<char>) -> bool {
    s.len() > 0 && s.last() == '/'
}

/// The store-facing key of `path` under `root`.
pub open spec fn abs_key_spec(root: Seq<char>, path: Seq<char>) -> Seq<char> {
    trim_leading(root + normalize_spec(path))
}

/// The caller-visible path of `key` under `root`.
pub open spec fn rel_path_spec(root: Seq<char>, key: Seq<char>) -> Seq<char> {
    seq!['/'] + (seq!['/'] + normalize_spec(key)).skip(root.len() as int)
}

/// The store-facing key for `path` under `root`: the root joined with the
/// normalized path, with leading slashes stripped.
pub fn abs_key(root: &str, path: &str) -> (r: String)
    ensures
        r@ == abs_key_spec(root@, path@),
{
    let mut cs = string_to_chars(root);
    let np = normalize_path(path);
    let pcs = string_to_chars(np.as_str());
    let mut j: usize = 0;
    while j < pcs.len()
        invariant
            j <= pcs.len(),
            cs@ == root@ + pcs@.take(j as int),
        decreases pcs.len() - j,
    {
        cs.push(pcs[j]);
        j = j + 1;
        proof {
            assert(cs@ =~= root@ + pcs@.take(j as int));
        }
    }
    proof {
        assert(pcs@.take(pcs@.len() as int) =~= pcs@);
    }
    let n = cs.len();
    let mut k: usize = 0;
    while k < n && cs[k] == '/'
        invariant
            k <= n,
            n == cs.len(),
            forall|j2: int| 0 <= j2 < k ==> #[trigger] cs@[j2] == '/',
        decreases n - k,
    {
        k = k + 1;
    }
    let mut out: Vec<char> = Vec::new();
    let mut i = k;
    while i < n
        invariant
            k <= i <= n,
            n == cs.len(),
            out@ == cs@.subrange(k as int, i as int),
        decreases n - i,
    {
        out.push(cs[i]);
        i = i + 1;
        proof {
            assert(out@ =~= cs@.subrange(k as int, i as int));
        }
    }
    proof {
        lemma_trim_leading_iff(cs@, k as int);
        assert(out@ =~= cs@.skip(k as int));
    }
    chars_to_string(&out)
}

/// The caller-visible path for `key` under `root`: `/` followed by the
/// normalized key with the root prefix stripped.  Only keys that fall under
/// the root may be handed in; any other key is a programming error on the
/// caller's side, not a runtime condition.
pub fn rel_path(root: &str, key: &str) -> (r: String)
    requires
        root@.is_prefix_of(seq!['/'] + normalize_spec(key@)),
    ensures
        r@ == rel_path_spec(root@, key@),
{
    let nk = normalize_path(key);
    let kcs = string_to_chars(nk.as_str());
    let mut t: Vec<char> = Vec::new();
    t.push('/');
    let mut j: usize = 0;
    while j < kcs.len()
        invariant
            j <= kcs.len(),
            t@ == seq!['/'] + kcs@.take(j as int),
        decreases kcs.len() - j,
    {
        t.push(kcs[j]);
        j = j + 1;
        proof {
            assert(t@ =~= seq!['/'] + kcs@.take(j as int));
        }
    }
    proof {
        assert(kcs@.take(kcs@.len() as int) =~= kcs@);
    }
    let rl = root.unicode_len();
    let mut out: Vec<char> = Vec::new();
    out.push('/');
    let mut i = rl;
    while i < t.len()
        invariant
            rl <= i <= t.len(),
            t@ == seq!['/'] + kcs@,
            out@ == seq!['/'] + t@.subrange(rl as int, i as int),
        decreases t.len() - i,
    {
        out.push(t[i]);
        i = i + 1;
        proof {
            assert(out@ =~= seq!['/'] + t@.subrange(rl as int, i as int));
        }
    }
    proof {
        assert(out@ =~= seq!['/'] + t@.skip(rl as int));
    }
    chars_to_string(&out)
}

/// The canonical form of a configured root: normalized, beginning and
/// ending with `/`.
pub open spec fn rooted_spec(s: Seq<char>) -> Seq<char> {
    let n = normalize_spec(s);
    let a = if n.len() == 0 || n[0] != '/' {
        seq!['/'] + n
    } else {
        n
    };
    if a.last() != '/' {
        a + seq!['/']
    } else {
        a
    }
}

/// Canonicalizes a configured root.
pub fn rooted(s: &str) -> (r: String)
    ensures
        r@ == rooted_spec(s@),
{
    let n = normalize_path(s);
    let cs = string_to_chars(n.as_str());
    let mut a: Vec<char> = Vec::new();
    if cs.len() == 0 || cs[0] != '/' {
        a.push('/');
    }
    let mut j: usize = 0;
    let ghost pre = a@;
    while j < cs.len()
        invariant
            j <= cs.len(),
            a@ == pre + cs@.take(j as int),
        decreases cs.len() - j,
    {
        a.push(cs[j]);
        j = j + 1;
        proof {
            assert(a@ =~= pre + cs@.take(j as int));
        }
    }
    proof {
        assert(cs@.take(cs@.len() as int) =~= cs@);
        assert(a@.len() > 0);
    }
    if a[a.len() - 1] != '/' {
        a.push('/');
    }
    chars_to_string(&a)
}

/// A canonical root: `/`, or normalized segments wrapped in `/`, as the
/// configuration finalizer produces.
pub open spec fn root_wf(root: Seq<char>) -> bool {
    &&& root == seq!['/'] + normalize_spec(root.skip(1))
    &&& (root.len() == 1 || root.last() == '/')
    &&& (root.len() == 1 || root[1] != '/')
}

proof fn lemma_trim_one_slash(x: Seq<char>)
    requires
        x.len() == 0 || x[0] != '/',
    ensures
        trim_leading(seq!['/'] + x) == x,
{
    let s = seq!['/'] + x;
    assert(s[0] == '/');
    assert(s.drop_first() =~= x);
    assert(trim_leading(s) == trim_leading(x));
    assert(trim_leading(x) == x);
}

proof fn lemma_normalize_empty()
    ensures
        normalize_spec(Seq::<char>::empty()) == Seq::<char>::empty(),
{
    assert(segments(Seq::<char>::empty()) =~= Seq::<Seq<char>>::empty());
    assert(normalize_spec(Seq::<char>::empty()) =~= Seq::<char>::empty());
}

/// The slash-only root is canonical.
pub proof fn lemma_root_slash_wf()
    ensures
        root_wf(seq!['/']),
{
    let r = seq!['/'];
    assert(r.skip(1) =~= Seq::<char>::empty());
    lemma_normalize_empty();
    assert(r =~= seq!['/'] + normalize_spec(r.skip(1)));
}

proof fn lemma_normalize_shape(p: Seq<char>)
    ensures
        ({
            let np = normalize_spec(p);
            np.len() > 0 ==> segments(p).len() > 0 && np[0] != '/'
        }),
{
    let np = normalize_spec(p);
    lemma_segments_wf(p);
    if np.len() > 0 {
        let ss = segments(p);
        let j = emit(ss, true);
        if ss.len() == 0 {
            assert(j =~= Seq::<char>::empty());
            assert(np =~= Seq::<char>::empty());
        } else {
            assert(seg_wf(ss[0]));
            assert(j == (ss[0]) + emit(ss.drop_first(), false));
            assert(j[0] == ss[0][0]);
            assert(np[0] == j[0]);
        }
    }
}

/// Canonicalized roots are canonical.
pub proof fn lemma_rooted_wf(s: Seq<char>)
    ensures
        root_wf(rooted_spec(s)),
{
    let n = normalize_spec(s);
    lemma_segments_wf(s);
    lemma_normalize_shape(s);
    if n.len() == 0 {
        assert(seq!['/'] + n =~= seq!['/']);
        assert(rooted_spec(s) =~= seq!['/']);
        lemma_root_slash_wf();
    } else if n == seq!['/'] {
        assert(n[0] == '/');
        assert(rooted_spec(s) =~= seq!['/']);
        lemma_root_slash_wf();
    } else {
        let a = seq!['/'] + n;
        assert(n[0] != '/');
        assert(a.last() == n.last());
        if n.last() == '/' {
            let r = a;
            assert(rooted_spec(s) =~= r);
            assert(r.skip(1) =~= n);
            lemma_normalize_idempotent(s);
            assert(r =~= seq!['/'] + normalize_spec(r.skip(1)));
            assert(r.last() == '/');
            assert(r[1] == n[0]);
        } else {
            let r = a + seq!['/'];
            assert(rooted_spec(s) =~= r);
            assert(r.skip(1) =~= n + seq!['/']);
            let ss = segments(s);
            assert(n =~= emit(ss, true));
            lemma_join_then_segments_general(ss, seq!['/']);
            lemma_segments_of_slash();
            assert(segments(n + seq!['/']) =~= ss);
            assert((n + seq!['/']).last() == '/');
            assert((n + seq!['/']).len() > 0);
            assert(normalize_spec(n + seq!['/']) =~= emit(ss, true) + seq!['/']);
            assert(r =~= seq!['/'] + normalize_spec(r.skip(1)));
            assert(r.last() == '/');
            assert(r[1] == n[0]);
        }
    }
}

/// The round trip of the path model: the store key made for a caller path
/// under a canonical root falls under that root — so translating keys
/// back never fails — and the translation yields `/` followed by the
/// normalized path.
pub proof fn lemma_abs_rel_round_trip(root: Seq<char>, p: Seq<char>)
    requires
        root_wf(root),
    ensures
        root.is_prefix_of(seq!['/'] + normalize_spec(abs_key_spec(root, p))),
        rel_path_spec(root, abs_key_spec(root, p)) == seq!['/'] + normalize_spec(p),
{
    let np = normalize_spec(p);
    let rt = root.skip(1);
    assert(rt =~= (seq!['/'] + normalize_spec(rt)).skip(1));
    assert(normalize_spec(rt) == rt);
    lemma_segments_wf(p);
    lemma_segments_wf(rt);
    lemma_normalize_shape(p);
    let abs = abs_key_spec(root, p);
    assert(root + np =~= seq!['/'] + (rt + np));
    if np.len() == 0 {
        if rt.len() == 0 {
            assert(rt + np =~= Seq::<char>::empty());
            lemma_trim_one_slash(Seq::<char>::empty());
            assert(abs =~= Seq::<char>::empty());
            lemma_normalize_empty();
            assert(root =~= seq!['/']);
            let t = seq!['/'] + normalize_spec(abs);
            assert(t =~= seq!['/']);
            assert(t.take(root.len() as int) =~= root);
            assert(t.skip(root.len() as int) =~= Seq::<char>::empty());
            assert(rel_path_spec(root, abs) =~= seq!['/'] + np);
        } else {
            assert(rt[0] == root[1]);
            assert(rt + np =~= rt);
            lemma_trim_one_slash(rt);
            assert(abs =~= rt);
            assert(normalize_spec(abs) == rt);
            let t = seq!['/'] + normalize_spec(abs);
            assert(t =~= root);
            assert(t.take(root.len() as int) =~= root);
            assert(t.skip(root.len() as int) =~= Seq::<char>::empty());
            assert(rel_path_spec(root, abs) =~= seq!['/'] + np);
        }
    } else {
        let sp = segments(p);
        assert(np[0] != '/' && sp.len() > 0);
        let trnp = if p.len() > 0 && p.last() == '/' && emit(sp, true).len() > 0 {
            seq!['/']
        } else {
            Seq::<char>::empty()
        };
        assert(np == emit(sp, true) + trnp);
        if rt.len() == 0 {
            assert(root =~= seq!['/']);
            assert(rt + np =~= np);
            lemma_trim_one_slash(np);
            assert(abs =~= np);
            lemma_normalize_idempotent(p);
            assert(normalize_spec(abs) == np);
            let t = seq!['/'] + normalize_spec(abs);
            assert(t.take(root.len() as int) =~= root);
            assert(t.skip(root.len() as int) =~= np);
            assert(rel_path_spec(root, abs) =~= seq!['/'] + np);
        } else {
            assert(rt[0] == root[1]);
            assert(rt.last() == root.last());
            let sr = segments(rt);
            assert(rt == normalize_spec(rt));
            assert(rt =~= emit(sr, true) + seq!['/']);
            if sr.len() == 0 {
                assert(emit(sr, true) =~= Seq::<char>::empty());
                assert(rt =~= seq!['/']);
            }
            assert(sr.len() > 0);
            assert((rt + np)[0] == rt[0]);
            lemma_trim_one_slash(rt + np);
            assert(abs =~= rt + np);
            assert(rt + np =~= emit(sr, true) + (seq!['/'] + np));
            lemma_segments_wf(rt);
            lemma_join_then_segments_general(sr, seq!['/'] + np);
            lemma_segments_slash_prefix(np);
            lemma_segments_of_normalized(p);
            assert(segments(rt + np) =~= sr + sp);
            assert((rt + np).last() == np.last());
            if trnp.len() == 0 {
                assert(np =~= emit(sp, true));
                lemma_emit_no_trailing_slash(sp, true);
                assert(np.last() != '/');
            } else {
                assert(np.last() == '/');
            }
            lemma_emit_concat(sr, sp, true);
            lemma_emit_false(sp);
            assert(emit(sr + sp, true) =~= emit(sr, true) + (seq!['/'] + emit(sp, true)));
            assert(emit(segments(rt + np), true).len() > 0);
            assert(normalize_spec(rt + np) == emit(segments(rt + np), true) + (if (rt
                + np).len() > 0 && (rt + np).last() == '/' && emit(segments(rt + np), true).len()
                > 0 {
                seq!['/']
            } else {
                Seq::<char>::empty()
            }));
            assert(normalize_spec(rt + np) =~= (emit(sr, true) + seq!['/']) + (emit(sp, true)
                + trnp));
            assert(normalize_spec(abs) == rt + np);
            let t = seq!['/'] + normalize_spec(abs);
            assert(t =~= root + np);
            assert(t.take(root.len() as int) =~= root);
            assert(t.skip(root.len() as int) =~= np);
            assert(rel_path_spec(root, abs) =~= seq!['/'] + np);
        }
    }
}

/// `normalize_path` is idempotent: a normalized path normalizes to itself.
pub proof fn lemma_normalize_idempotent(p: Seq<char>)
    ensures
        normalize_spec(normalize_spec(p)) == normalize_spec(p),
{
    let ss = segments(p);
    lemma_segments_wf(p);
    let np = normalize_spec(p);
    if p.len() > 0 && p.last() == '/' && emit(ss, true).len() > 0 {
        lemma_join_then_segments(ss, seq!['/']);
        assert(np.last() == '/');
        assert(np.len() > 0);
        assert(normalize_spec(np) =~= np);
    } else {
        lemma_join_then_segments(ss, Seq::<char>::empty());
        assert(emit(ss, true) + Seq::<char>::empty() =~= emit(ss, true));
        assert(np =~= emit(ss, true));
        if np.len() > 0 {
            lemma_emit_no_trailing_slash(ss, true);
            assert(np.last() != '/');
        }
        assert(normalize_spec(np) =~= np);
    }
}

} // verus!
