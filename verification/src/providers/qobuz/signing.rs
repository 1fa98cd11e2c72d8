//! Request signatures of the Qobuz API.
use vstd::prelude::*;
use vstd::utf8::encode_utf8;

use crate::bindings::{lower_hex, md5_digest, md5_hex, unix_time_secs};
use crate::text::{chars_of, concat_seq, decimal, owned, u64_to_string};

verus! {

/// The timestamp of a signed request: the current Unix time in whole
/// seconds, in decimal. Which number it is depends on the clock.
pub fn current_timestamp() -> (r: String)
    ensures
        exists|t: u64| r@ == decimal(t as nat),
{
    let t = unix_time_secs();
    let r = u64_to_string(t);
    assert(r@ == decimal(t as nat));
    r
}

/// The text signed for `track/getFileUrl`.
pub open spec fn file_url_payload(format_id: u32, track_id: Seq<char>, ts: Seq<char>, app_secret: Seq<char>) -> Seq<char> {
    "trackgetFileUrlformat_id"@ + decimal(format_id as nat) + "intentstreamtrack_id"@ + track_id + ts
        + app_secret
}

/// The MD5 signature (lowercase hex) of a text.
pub open spec fn md5_signature(text: Seq<char>) -> Seq<char> {
    lower_hex(md5_digest(encode_utf8(text)))
}

/// The `request_sig` of a `track/getFileUrl` request.
pub fn file_url_signature(format_id: u32, track_id: &str, ts: &str, app_secret: &str) -> (r: String)
    ensures
        r@ == md5_signature(file_url_payload(format_id, track_id@, ts@, app_secret@)),
{
    let mut payload = owned("trackgetFileUrlformat_id");
    let fid = u64_to_string(format_id as u64);
    payload.append(fid.as_str());
    payload.append("intentstreamtrack_id");
    payload.append(track_id);
    payload.append(ts);
    payload.append(app_secret);
    md5_hex(payload.as_str())
}

/// `a` comes strictly before `b` in lexicographic order of characters (the
/// order of `String`'s `Ord`, since UTF-8 preserves code point order).
pub open spec fn text_lt(a: Seq<char>, b: Seq<char>) -> bool
    decreases a.len(),
{
    if a.len() == 0 {
        b.len() > 0
    } else if b.len() == 0 {
        false
    } else if a[0] != b[0] {
        a[0] < b[0]
    } else {
        text_lt(a.drop_first(), b.drop_first())
    }
}

/// Whether `a` comes strictly before `b`.
pub fn chars_lt(a: &[char], b: &[char]) -> (r: bool)
    ensures
        r == text_lt(a@, b@),
{
    let mut i: usize = 0;
    assert(a@.skip(0) == a@ && b@.skip(0) == b@);
    while i < a.len() && i < b.len()
        invariant
            i <= a@.len(),
            i <= b@.len(),
            a@.take(i as int) == b@.take(i as int),
            text_lt(a@, b@) == text_lt(a@.skip(i as int), b@.skip(i as int)),
        decreases a.len() - i,
    {
        assert(a@.skip(i as int)[0] == a@[i as int]);
        assert(b@.skip(i as int)[0] == b@[i as int]);
        if a[i] != b[i] {
            return a[i] < b[i];
        }
        assert(a@.skip(i as int).drop_first() == a@.skip(i + 1));
        assert(b@.skip(i as int).drop_first() == b@.skip(i + 1));
        assert(a@.take(i + 1) == a@.take(i as int).push(a@[i as int]));
        assert(b@.take(i + 1) == b@.take(i as int).push(b@[i as int]));
        i = i + 1;
    }
    i < b.len()
}

/// A signed parameter: name and value.
pub type Param = (Seq<char>, Seq<char>);

/// The characters of the name and value of each parameter.
pub open spec fn params_view(v: Seq<(String, String)>) -> Seq<Param> {
    v.map_values(|p: (String, String)| (p.0@, p.1@))
}

/// `x` inserted into `s` after every parameter whose name is not after its own.
pub open spec fn insert_by_name(s: Seq<Param>, x: Param) -> Seq<Param>
    decreases s.len(),
{
    if s.len() == 0 {
        seq![x]
    } else if text_lt(x.0, s.last().0) {
        insert_by_name(s.drop_last(), x).push(s.last())
    } else {
        s.push(x)
    }
}

/// The parameters stably sorted by name (what `sort_by` on the names gives).
pub open spec fn sort_by_name(s: Seq<Param>) -> Seq<Param>
    decreases s.len(),
{
    if s.len() == 0 {
        Seq::empty()
    } else {
        insert_by_name(sort_by_name(s.drop_last()), s.last())
    }
}

proof fn lemma_insert_at(s: Seq<Param>, x: Param, j: int)
    requires
        0 <= j <= s.len(),
        forall|k: int| j <= k < s.len() ==> text_lt(x.0, #[trigger] s[k].0),
        j == 0 || !text_lt(x.0, s[j - 1].0),
    ensures
        insert_by_name(s, x) == s.take(j).push(x) + s.skip(j),
    decreases s.len(),
{
    if s.len() == 0 {
        assert(s.take(0).push(x) + s.skip(0) =~= seq![x]);
    } else if j == s.len() {
        assert(s.take(j) == s);
        assert(s.skip(j) =~= Seq::<Param>::empty());
        assert(s.take(j).push(x) + s.skip(j) =~= s.push(x));
    } else {
        assert(text_lt(x.0, s[s.len() - 1].0));
        let p = s.drop_last();
        assert forall|k: int| j <= k < p.len() implies text_lt(x.0, #[trigger] p[k].0) by {
            assert(p[k] == s[k]);
        }
        lemma_insert_at(p, x, j);
        assert(p.take(j) == s.take(j));
        assert((p.take(j).push(x) + p.skip(j)).push(s.last()) =~= s.take(j).push(x) + s.skip(j));
    }
}

/// Whether `x` comes before `y` by name.
fn name_lt(x: &(String, String), y: &(String, String)) -> (r: bool)
    ensures
        r == text_lt(x.0@, y.0@),
{
    let a = chars_of(x.0.as_str());
    let b = chars_of(y.0.as_str());
    chars_lt(a.as_slice(), b.as_slice())
}

/// Copies a parameter.
fn clone_param(p: &(String, String)) -> (r: (String, String))
    ensures
        r.0@ == p.0@,
        r.1@ == p.1@,
{
    (p.0.clone(), p.1.clone())
}

/// Sorts parameters by name, keeping the order of equal names.
pub fn sort_params(params: &Vec<(String, String)>) -> (r: Vec<(String, String)>)
    ensures
        params_view(r@) == sort_by_name(params_view(params@)),
{
    let mut out: Vec<(String, String)> = Vec::new();
    let ghost pv = params_view(params@);
    for i in 0..params.len()
        invariant
            pv == params_view(params@),
            params_view(out@) == sort_by_name(pv.take(i as int)),
    {
        let x = clone_param(&params[i]);
        let mut j = out.len();
        while j > 0 && name_lt(&x, &out[j - 1])
            invariant
                j <= out@.len(),
                forall|k: int| j <= k < out@.len() ==> text_lt(x.0@, #[trigger] out@[k].0@),
            decreases j,
        {
            j = j - 1;
        }
        let ghost before = params_view(out@);
        let ghost xv = (x.0@, x.1@);
        proof {
            assert forall|k: int| j <= k < before.len() implies text_lt(xv.0, #[trigger] before[k].0) by {}
            if j > 0 {
                assert(before[j - 1].0 == out@[j - 1].0@);
            }
            lemma_insert_at(before, xv, j as int);
            assert(pv.take(i + 1).drop_last() == pv.take(i as int));
            assert(pv.take(i + 1).last() == xv);
        }
        out.insert(j, x);
        assert(params_view(out@) =~= before.take(j as int).push(xv) + before.skip(j as int));
    }
    assert(pv.take(params.len() as int) == pv);
    out
}

/// The text signed for a signed request to `object/method`: the object, the
/// method, each of the request's parameters as name then value in name order,
/// the timestamp, then the application secret. `app_id` and
/// `user_auth_token`, which the request also carries, are not signed.
pub open spec fn signed_get_payload(
    object: Seq<char>,
    method: Seq<char>,
    params: Seq<Param>,
    ts: Seq<char>,
    app_secret: Seq<char>,
) -> Seq<char> {
    object + method + concat_seq(sort_by_name(params).map_values(|p: Param| p.0 + p.1)) + ts + app_secret
}

/// The `request_sig` of a signed request to `object/method` with `params`.
pub fn signed_get_signature(
    object: &str,
    method: &str,
    params: &Vec<(String, String)>,
    ts: &str,
    app_secret: &str,
) -> (r: String)
    ensures
        r@ == md5_signature(signed_get_payload(object@, method@, params_view(params@), ts@, app_secret@)),
{
    let sorted = sort_params(params);
    let ghost sv = params_view(sorted@);
    let ghost pieces = sv.map_values(|p: Param| p.0 + p.1);
    let mut text = owned(object);
    text.append(method);
    let ghost head = text@;
    for k in 0..sorted.len()
        invariant
            sv == params_view(sorted@),
            pieces == sv.map_values(|p: Param| p.0 + p.1),
            text@ == head + concat_seq(pieces.take(k as int)),
    {
        text.append(sorted[k].0.as_str());
        text.append(sorted[k].1.as_str());
        assert(pieces.take(k + 1).drop_last() == pieces.take(k as int));
        assert(pieces.take(k + 1).last() == sorted@[k as int].0@ + sorted@[k as int].1@);
    }
    assert(pieces.take(sorted.len() as int) == pieces);
    text.append(ts);
    text.append(app_secret);
    md5_hex(text.as_str())
}


pub(crate) proof fn lemma_text_lt_irreflexive(a: Seq<char>)
    ensures
        !text_lt(a, a),
    decreases a.len(),
{
    if a.len() > 0 {
        lemma_text_lt_irreflexive(a.drop_first());
    }
}

pub(crate) proof fn lemma_text_lt_transitive(a: Seq<char>, b: Seq<char>, c: Seq<char>)
    requires
        text_lt(a, b),
        text_lt(b, c),
    ensures
        text_lt(a, c),
    decreases a.len(),
{
    if a.len() > 0 && b.len() > 0 && c.len() > 0 && a[0] == b[0] && b[0] == c[0] {
        lemma_text_lt_transitive(a.drop_first(), b.drop_first(), c.drop_first());
    }
}

pub(crate) proof fn lemma_text_lt_total(a: Seq<char>, b: Seq<char>)
    ensures
        a == b || text_lt(a, b) || text_lt(b, a),
    decreases a.len(),
{
    if a.len() > 0 && b.len() > 0 && a[0] == b[0] {
        lemma_text_lt_total(a.drop_first(), b.drop_first());
        if a.drop_first() == b.drop_first() {
            assert(a =~= seq![a[0]] + a.drop_first());
            assert(b =~= seq![b[0]] + b.drop_first());
        }
    } else if a.len() == 0 && b.len() == 0 {
        assert(a =~= b);
    }
}

/// Parameters in name order: no name comes after a later one.
pub open spec fn sorted_by_name(s: Seq<Param>) -> bool {
    forall|j: int, k: int| 0 <= j < k < s.len() ==> !text_lt(#[trigger] s[k].0, #[trigger] s[j].0)
}

proof fn lemma_insert_by_name_multiset(s: Seq<Param>, x: Param)
    ensures
        insert_by_name(s, x).to_multiset() == s.to_multiset().insert(x),
    decreases s.len(),
{
    broadcast use vstd::multiset::group_multiset_axioms;

    if s.len() == 0 {
        assert(s == Seq::<Param>::empty());
        assert(insert_by_name(s, x) == s.push(x));
        vstd::seq_lib::to_multiset_build(s, x);
    } else if text_lt(x.0, s.last().0) {
        let p = s.drop_last();
        lemma_insert_by_name_multiset(p, x);
        vstd::seq_lib::to_multiset_build(insert_by_name(p, x), s.last());
        vstd::seq_lib::to_multiset_build(p, s.last());
        assert(s == p.push(s.last()));
        assert(p.to_multiset().insert(x).insert(s.last()) =~= p.to_multiset().insert(s.last()).insert(x));
    } else {
        vstd::seq_lib::to_multiset_build(s, x);
    }
}

proof fn lemma_insert_by_name_sorted(s: Seq<Param>, x: Param)
    requires
        sorted_by_name(s),
    ensures
        sorted_by_name(insert_by_name(s, x)),
        forall|k: int| 0 <= k < insert_by_name(s, x).len() ==> (#[trigger] insert_by_name(s, x)[k] == x || s.contains(insert_by_name(s, x)[k])),
    decreases s.len(),
{
    if s.len() == 0 {
        assert(insert_by_name(s, x) == seq![x]);
    } else if text_lt(x.0, s.last().0) {
        let p = s.drop_last();
        let l = s.last();
        assert(sorted_by_name(p)) by {
            assert forall|j: int, k: int| 0 <= j < k < p.len() implies !text_lt(#[trigger] p[k].0, #[trigger] p[j].0) by {
                assert(p[k] == s[k] && p[j] == s[j]);
            }
        }
        lemma_insert_by_name_sorted(p, x);
        let q = insert_by_name(p, x);
        let r = q.push(l);
        assert forall|k: int| 0 <= k < q.len() implies !text_lt(l.0, #[trigger] q[k].0) by {
            if q[k] == x {
                if text_lt(l.0, x.0) {
                    lemma_text_lt_transitive(l.0, x.0, l.0);
                    lemma_text_lt_irreflexive(l.0);
                }
            } else {
                assert(p.contains(q[k]));
                let j = choose|j: int| 0 <= j < p.len() && p[j] == q[k];
                assert(s[j] == p[j]);
                assert(!text_lt(s[s.len() - 1].0, s[j].0));
            }
        }
        assert forall|j: int, k: int| 0 <= j < k < r.len() implies !text_lt(#[trigger] r[k].0, #[trigger] r[j].0) by {
            if k == q.len() {
                assert(r[k] == l);
                assert(r[j] == q[j]);
            } else {
                assert(r[k] == q[k] && r[j] == q[j]);
            }
        }
        assert forall|k: int| 0 <= k < r.len() implies (#[trigger] r[k] == x || s.contains(r[k])) by {
            if k == q.len() {
                assert(s[s.len() - 1] == l);
            } else {
                assert(r[k] == q[k]);
                if q[k] != x {
                    let j = choose|j: int| 0 <= j < p.len() && p[j] == q[k];
                    assert(s[j] == p[j]);
                }
            }
        }
    } else {
        let r = s.push(x);
        let l = s.last();
        assert forall|j: int| 0 <= j < s.len() implies !text_lt(x.0, #[trigger] s[j].0) by {
            if text_lt(x.0, s[j].0) {
                lemma_text_lt_total(s[j].0, l.0);
                if s[j].0 == l.0 {
                } else if text_lt(s[j].0, l.0) {
                    lemma_text_lt_transitive(x.0, s[j].0, l.0);
                } else {
                    assert(j < s.len() - 1);
                    assert(!text_lt(s[s.len() - 1].0, s[j].0));
                }
            }
        }
        assert forall|j: int, k: int| 0 <= j < k < r.len() implies !text_lt(#[trigger] r[k].0, #[trigger] r[j].0) by {
            if k == s.len() {
                assert(r[j] == s[j]);
            } else {
                assert(r[k] == s[k] && r[j] == s[j]);
            }
        }
        assert forall|k: int| 0 <= k < r.len() implies (#[trigger] r[k] == x || s.contains(r[k])) by {
            if k < s.len() {
                assert(r[k] == s[k]);
            }
        }
    }
}

/// Sorting parameters by name puts them in name order and keeps each of them
/// exactly as often as it occurs, so a signature covers every parameter.
pub proof fn lemma_sort_by_name(s: Seq<Param>)
    ensures
        sorted_by_name(sort_by_name(s)),
        sort_by_name(s).to_multiset() == s.to_multiset(),
    decreases s.len(),
{
    if s.len() == 0 {
        assert(s == Seq::<Param>::empty());
    } else {
        let p = s.drop_last();
        lemma_sort_by_name(p);
        lemma_insert_by_name_sorted(sort_by_name(p), s.last());
        lemma_insert_by_name_multiset(sort_by_name(p), s.last());
        vstd::seq_lib::to_multiset_build(p, s.last());
        assert(s == p.push(s.last()));
    }
}

} // verus!
