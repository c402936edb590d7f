//! Lexicographic order on strings and sorted, duplicate-free string lists
//! (what `sort_unstable` followed by `dedup` produces).

use vstd::prelude::*;
use vstd::string::*;

use crate::text::chars_of;

verus! {

/// `a < b` in the order of `String`: lexicographic by character (UTF-8
/// preserves code-point order, so this is also the byte order).
pub open spec fn lex_lt(a: Seq<char>, b: Seq<char>) -> bool
    decreases a.len(),
{
    if a.len() == 0 {
        b.len() > 0
    } else if b.len() == 0 {
        false
    } else if a[0] < b[0] {
        true
    } else if a[0] == b[0] {
        lex_lt(a.drop_first(), b.drop_first())
    } else {
        false
    }
}

/// Strictly increasing: sorted and free of duplicates.
pub open spec fn strictly_sorted(s: Seq<Seq<char>>) -> bool {
    forall|i: int, j: int| 0 <= i < j < s.len() ==> lex_lt(#[trigger] s[i], #[trigger] s[j])
}

/// The character sequences of a list of strings.
pub open spec fn strings_view(v: Seq<String>) -> Seq<Seq<char>> {
    v.map_values(|s: String| s@)
}

pub proof fn lemma_lex_irrefl(a: Seq<char>)
    ensures
        !lex_lt(a, a),
    decreases a.len(),
{
    if a.len() > 0 {
        lemma_lex_irrefl(a.drop_first());
    }
}

pub proof fn lemma_lex_trans(a: Seq<char>, b: Seq<char>, c: Seq<char>)
    requires
        lex_lt(a, b),
        lex_lt(b, c),
    ensures
        lex_lt(a, c),
    decreases a.len(),
{
    if a.len() > 0 && b.len() > 0 && c.len() > 0 && a[0] == b[0] && b[0] == c[0] {
        lemma_lex_trans(a.drop_first(), b.drop_first(), c.drop_first());
    }
}

pub proof fn lemma_lex_total(a: Seq<char>, b: Seq<char>)
    requires
        a != b,
    ensures
        lex_lt(a, b) || lex_lt(b, a),
    decreases a.len(),
{
    if a.len() == 0 && b.len() == 0 {
        assert(a =~= b);
    } else if a.len() > 0 && b.len() > 0 && a[0] == b[0] {
        if a.drop_first() == b.drop_first() {
            assert(a =~= seq![a[0]] + a.drop_first());
            assert(b =~= seq![b[0]] + b.drop_first());
        } else {
            lemma_lex_total(a.drop_first(), b.drop_first());
        }
    }
}

proof fn lemma_push_contains<T>(s: Seq<T>, e: T, x: T)
    ensures
        s.push(e).contains(x) <==> (s.contains(x) || x == e),
{
    if s.contains(x) {
        let k = choose|k: int| 0 <= k < s.len() && s[k] == x;
        assert(s.push(e)[k] == x);
    }
    if x == e {
        assert(s.push(e)[s.len() as int] == x);
    }
    if s.push(e).contains(x) {
        let k = choose|k: int| 0 <= k < s.push(e).len() && s.push(e)[k] == x;
        if k < s.len() {
            assert(s[k] == x);
        }
    }
}

proof fn lemma_insert_contains<T>(s: Seq<T>, p: int, e: T, x: T)
    requires
        0 <= p <= s.len(),
    ensures
        s.insert(p, e).contains(x) <==> (s.contains(x) || x == e),
{
    let t = s.insert(p, e);
    if s.contains(x) {
        let k = choose|k: int| 0 <= k < s.len() && s[k] == x;
        if k < p {
            assert(t[k] == x);
        } else {
            assert(t[k + 1] == x);
        }
    }
    if x == e {
        assert(t[p] == x);
    }
    if t.contains(x) {
        let k = choose|k: int| 0 <= k < t.len() && t[k] == x;
        if k < p {
            assert(s[k] == x);
        } else if k > p {
            assert(s[k - 1] == x);
        }
    }
}

/// Compares two strings: `(a < b, a == b)`.
pub fn str_order(a: &str, b: &str) -> (r: (bool, bool))
    ensures
        r.0 == lex_lt(a@, b@),
        r.1 == (a@ == b@),
{
    let x = chars_of(a);
    let y = chars_of(b);
    let mut i: usize = 0;
    assert(x@.skip(0) =~= x@);
    assert(y@.skip(0) =~= y@);
    assert(x@.take(0) =~= y@.take(0));
    while i < x.len() && i < y.len() && x[i] == y[i]
        invariant
            x@ == a@,
            y@ == b@,
            i <= x.len(),
            i <= y.len(),
            x@.take(i as int) == y@.take(i as int),
            lex_lt(a@, b@) == lex_lt(x@.skip(i as int), y@.skip(i as int)),
        decreases x.len() - i,
    {
        assert(x@.skip(i as int).drop_first() =~= x@.skip(i + 1));
        assert(y@.skip(i as int).drop_first() =~= y@.skip(i + 1));
        assert(x@.take(i + 1) =~= x@.take(i as int).push(x@[i as int]));
        assert(y@.take(i + 1) =~= y@.take(i as int).push(y@[i as int]));
        i = i + 1;
    }
    let lt = if i == x.len() {
        i < y.len()
    } else if i == y.len() {
        false
    } else {
        x[i] < y[i]
    };
    let eq = i == x.len() && i == y.len();
    proof {
        if eq {
            assert(x@ =~= x@.take(i as int));
            assert(y@ =~= y@.take(i as int));
        } else if i < x.len() && i < y.len() {
            assert(x@[i as int] != y@[i as int]);
            assert(x@.take(i as int + 1)[i as int] != y@.take(i as int + 1)[i as int]);
            if a@ == b@ {
                assert(x@.take(i as int + 1) =~= y@.take(i as int + 1));
            }
        } else {
            assert(x@.len() != y@.len());
        }
    }
    (lt, eq)
}

/// The same strings, sorted ascending with duplicates removed.
pub fn sorted_unique(v: Vec<String>) -> (r: Vec<String>)
    ensures
        strictly_sorted(strings_view(r@)),
        forall|x: Seq<char>| strings_view(r@).contains(x) <==> strings_view(v@).contains(x),
{
    let mut out: Vec<String> = Vec::new();
    let mut i: usize = 0;
    while i < v.len()
        invariant
            i <= v.len(),
            strictly_sorted(strings_view(out@)),
            forall|x: Seq<char>|
                strings_view(out@).contains(x) <==> strings_view(v@.take(i as int)).contains(x),
        decreases v.len() - i,
    {
        let ghost before = strings_view(out@);
        let ghost xv = v@[i as int]@;
        let mut p: usize = 0;
        let mut found = false;
        let mut done = false;
        while p < out.len() && !done
            invariant
                i < v.len(),
                before == strings_view(out@),
                xv == v@[i as int]@,
                p <= out.len(),
                forall|k: int| 0 <= k < p ==> lex_lt(#[trigger] before[k], xv),
                found ==> done,
                done ==> p < out.len(),
                done && found ==> before[p as int] == xv,
                done && !found ==> !lex_lt(before[p as int], xv) && before[p as int] != xv,
            decreases out.len() - p + (if done { 0int } else { 1int }),
        {
            let (lt, eq) = str_order(out[p].as_str(), v[i].as_str());
            if eq {
                found = true;
                done = true;
            } else if !lt {
                done = true;
            } else {
                p = p + 1;
            }
        }
        assert(v@.take(i + 1) =~= v@.take(i as int).push(v@[i as int]));
        assert(strings_view(v@.take(i + 1)) =~= strings_view(v@.take(i as int)).push(xv));
        if found {
            proof {
                assert(before[p as int] == xv);
                assert(before.contains(xv));
                assert forall|x: Seq<char>| strings_view(out@).contains(x) <==> strings_view(
                    v@.take(i + 1),
                ).contains(x) by {
                    lemma_push_contains(strings_view(v@.take(i as int)), xv, x);
                }
            }
        } else {
            let s = v[i].clone();
            let ghost n = out.len();
            out.insert(p, s);
            proof {
                let after = strings_view(out@);
                assert(after =~= before.insert(p as int, xv));
                assert forall|a: int, b: int| 0 <= a < b < after.len() implies lex_lt(
                    #[trigger] after[a],
                    #[trigger] after[b],
                ) by {
                    if p < n {
                        lemma_lex_total(xv, before[p as int]);
                        lemma_lex_irrefl(xv);
                        if lex_lt(before[p as int], xv) {
                        }
                    }
                    if a < p && b == p {
                    } else if a < p && b > p {
                        assert(after[b] == before[b - 1]);
                    } else if a == p && b > p {
                        assert(after[b] == before[b - 1]);
                        if b - 1 > p {
                            lemma_lex_trans(xv, before[p as int], before[b - 1]);
                        }
                    } else if a > p {
                        assert(after[a] == before[a - 1]);
                        assert(after[b] == before[b - 1]);
                    }
                }
                assert forall|x: Seq<char>| after.contains(x) <==> strings_view(
                    v@.take(i + 1),
                ).contains(x) by {
                    lemma_push_contains(strings_view(v@.take(i as int)), xv, x);
                    lemma_insert_contains(before, p as int, xv, x);
                }
            }
        }
        i = i + 1;
    }
    assert(v@.take(v.len() as int) =~= v@);
    out
}

/// `order` lists each of the indices `0..n` exactly once.
pub open spec fn is_index_permutation(order: Seq<usize>, n: nat) -> bool {
    &&& order.len() == n
    &&& forall|i: int| 0 <= i < order.len() ==> (#[trigger] order[i]) < n
    &&& forall|i: int, j: int| 0 <= i < j < order.len() ==> order[i] != order[j]
}

/// Listing `keys` in the order `order` gives them ascending, and equal keys
/// keep their original relative order (a stable sort).
pub open spec fn stably_sorted_by(keys: Seq<Seq<char>>, order: Seq<usize>) -> bool {
    forall|a: int, b: int|
        0 <= a < b < order.len() ==> !lex_lt(keys[#[trigger] order[b] as int], keys[#[trigger] order[a] as int])
            && (keys[order[a] as int] == keys[order[b] as int] ==> order[a] < order[b])
}

/// `lex_lt` is asymmetric.
proof fn lemma_lex_asym(a: Seq<char>, b: Seq<char>)
    ensures
        !(lex_lt(a, b) && lex_lt(b, a)),
{
    if lex_lt(a, b) && lex_lt(b, a) {
        lemma_lex_trans(a, b, a);
        lemma_lex_irrefl(a);
    }
}

/// The order in which a stable sort by key (`sort_by` on the string order)
/// puts the items with these keys: item indices, keys ascending, equal keys
/// in their original order.
pub fn stable_order_by_key(keys: &Vec<String>) -> (r: Vec<usize>)
    ensures
        is_index_permutation(r@, keys@.len()),
        stably_sorted_by(strings_view(keys@), r@),
{
    let ghost kv = strings_view(keys@);
    let mut out: Vec<usize> = Vec::new();
    let mut i: usize = 0;
    while i < keys.len()
        invariant
            i <= keys.len(),
            kv == strings_view(keys@),
            kv.len() == keys@.len(),
            is_index_permutation(out@, i as nat),
            stably_sorted_by(kv, out@),
        decreases keys.len() - i,
    {
        let ghost ki = kv[i as int];
        let mut p: usize = 0;
        let mut done = false;
        while p < out.len() && !done
            invariant
                i < keys.len(),
                kv == strings_view(keys@),
                kv.len() == keys@.len(),
                ki == kv[i as int],
                is_index_permutation(out@, i as nat),
                p <= out.len(),
                forall|k: int| 0 <= k < p ==> !lex_lt(ki, #[trigger] kv[out@[k] as int]),
                done ==> p < out.len() && lex_lt(ki, kv[out@[p as int] as int]),
            decreases out.len() - p + (if done { 0int } else { 1int }),
        {
            let (lt, _eq) = str_order(keys[i].as_str(), keys[out[p]].as_str());
            if lt {
                done = true;
            } else {
                p = p + 1;
            }
        }
        let ghost before = out@;
        out.insert(p, i);
        proof {
            let after = out@;
            assert(after =~= before.insert(p as int, i));
            assert forall|x: int| 0 <= x < after.len() implies (#[trigger] after[x]) < i + 1 by {
                if x < p {
                    assert(after[x] == before[x]);
                } else if x > p {
                    assert(after[x] == before[x - 1]);
                }
            }
            assert forall|x: int, y: int| 0 <= x < y < after.len() implies after[x] != after[y] by {
                if x < p && y < p {
                } else if x < p && y == p {
                    assert(before[x] < i);
                } else if x < p && y > p {
                    assert(after[y] == before[y - 1]);
                } else if x == p {
                    assert(after[y] == before[y - 1]);
                    assert(before[y - 1] < i);
                } else {
                    assert(after[x] == before[x - 1]);
                    assert(after[y] == before[y - 1]);
                }
            }
            assert forall|a: int, b: int| 0 <= a < b < after.len() implies !lex_lt(
                kv[#[trigger] after[b] as int],
                kv[#[trigger] after[a] as int],
            ) && (kv[after[a] as int] == kv[after[b] as int] ==> after[a] < after[b]) by {
                if a < p && b < p {
                    assert(after[a] == before[a] && after[b] == before[b]);
                } else if a < p && b == p {
                    assert(after[a] == before[a]);
                    assert(!lex_lt(ki, kv[before[a] as int]));
                    assert(before[a] < i);
                } else if a < p && b > p {
                    assert(after[a] == before[a] && after[b] == before[b - 1]);
                } else if a == p {
                    let q = after[b];
                    assert(q == before[b - 1]);
                    let kp = kv[before[p as int] as int];
                    let kq = kv[q as int];
                    assert(lex_lt(ki, kp));
                    if b - 1 > p {
                        assert(!lex_lt(kq, kp));
                        if kq != kp {
                            lemma_lex_total(kq, kp);
                            lemma_lex_trans(ki, kp, kq);
                        }
                    }
                    assert(lex_lt(ki, kq));
                    lemma_lex_asym(ki, kq);
                    lemma_lex_irrefl(ki);
                } else {
                    assert(after[a] == before[a - 1] && after[b] == before[b - 1]);
                }
            }
        }
        i = i + 1;
    }
    out
}

} // verus!
