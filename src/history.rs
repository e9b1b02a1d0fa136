use vstd::prelude::*;

use crate::state::{zero_root, PoolView};

verus! {

/// Index of the oldest push that the ring still holds after `n` pushes.
pub open spec fn window_start(n: int) -> int {
    if n > 30 {
        n - 30
    } else {
        0
    }
}

/// The roots of `s` that a fresh pool still remembers after `s` was pushed:
/// the last thirty.
pub open spec fn recent_roots(s: Seq<Seq<u8>>) -> Seq<Seq<u8>> {
    s.subrange(window_start(s.len() as int), s.len() as int)
}

/// Where each pushed root sits after the pushes of `s` on a fresh pool.
proof fn lemma_ring_layout(d: u64, s: Seq<Seq<u8>>)
    ensures
        PoolView::fresh(d).push_all(s).roots.len() == 30,
        PoolView::fresh(d).push_all(s).current_root_index == s.len() % 30,
        forall|k: int|
            window_start(s.len() as int) <= k < s.len() ==> PoolView::fresh(d).push_all(s).roots[(k
                + 1) % 30] == s[k],
        s.len() < 30 ==> forall|j: int|
            0 <= j < 30 && !(1 <= j <= s.len()) ==> PoolView::fresh(d).push_all(s).roots[j]
                == zero_root(),
    decreases s.len(),
{
    let n = s.len() as int;
    if n > 0 {
        let prefix = s.drop_last();
        let m = n - 1;
        lemma_ring_layout(d, prefix);
        let before = PoolView::fresh(d).push_all(prefix);
        let after = PoolView::fresh(d).push_all(s);
        assert(after == before.push(s[m]));
        assert(before.next_slot() == (m + 1) % 30);
        assert forall|k: int| window_start(n) <= k < n implies after.roots[(k + 1) % 30] == s[k] by {
            if k < m {
                assert((k + 1) % 30 != (m + 1) % 30);
                assert(prefix[k] == s[k]);
            }
        }
    }
}

/// After any pushes on a fresh pool, a root is known exactly when it is not
/// the zero root and is among the last thirty roots pushed.
pub proof fn lemma_known_roots_are_recent(d: u64, s: Seq<Seq<u8>>, r: Seq<u8>)
    ensures
        PoolView::fresh(d).push_all(s).knows(r) <==> (r != zero_root() && recent_roots(
            s,
        ).contains(r)),
{
    lemma_ring_layout(d, s);
    let st = PoolView::fresh(d).push_all(s);
    let n = s.len() as int;
    let w = recent_roots(s);
    if r != zero_root() && w.contains(r) {
        let i = choose|i: int| 0 <= i < w.len() && w[i] == r;
        let k = window_start(n) + i;
        assert(st.roots[(k + 1) % 30] == r);
    }
    if st.knows(r) {
        let j = choose|j: int| 0 <= j < 30 && st.roots[j] == r;
        if n >= 30 {
            let k = n - 1 - (n - j) % 30;
            assert((k + 1) % 30 == j);
            assert(w[k - window_start(n)] == r);
        } else {
            let k = j - 1;
            assert(w[k] == r);
        }
    }
}

/// With at most thirty pushes on a fresh pool, every pushed root other than
/// the zero root is known, and nothing else is.
pub proof fn lemma_short_history_known(d: u64, s: Seq<Seq<u8>>, r: Seq<u8>)
    requires
        s.len() <= 30,
    ensures
        PoolView::fresh(d).push_all(s).knows(r) <==> (r != zero_root() && s.contains(r)),
{
    lemma_known_roots_are_recent(d, s, r);
    assert(recent_roots(s) =~= s);
}

/// After thirty-one distinct pushes on a fresh pool, the first root is no
/// longer known, and each of the other thirty is known unless it is the zero
/// root.
pub proof fn lemma_oldest_root_expires(d: u64, s: Seq<Seq<u8>>)
    requires
        s.len() == 31,
        s.no_duplicates(),
    ensures
        !PoolView::fresh(d).push_all(s).knows(s[0]),
        forall|k: int|
            1 <= k < 31 ==> (PoolView::fresh(d).push_all(s).knows(#[trigger] s[k]) <==> s[k]
                != zero_root()),
{
    let w = recent_roots(s);
    lemma_known_roots_are_recent(d, s, s[0]);
    if w.contains(s[0]) {
        let i = choose|i: int| 0 <= i < w.len() && w[i] == s[0];
        assert(s[i + 1] == s[0]);
    }
    assert forall|k: int|
        1 <= k < 31 implies (PoolView::fresh(d).push_all(s).knows(#[trigger] s[k]) <==> s[k]
        != zero_root()) by {
        lemma_known_roots_are_recent(d, s, s[k]);
        assert(w[k - 1] == s[k]);
    }
}

} // verus!
