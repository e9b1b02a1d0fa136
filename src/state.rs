use vstd::prelude::*;

use crate::bytes::{
    bytes32_eq, le_bytes, le_value, lemma_le_bytes_len, lemma_le_round_trip, lemma_pow256_8,
    read_bytes32, read_u64_le, u64_to_le, write_bytes,
};
use crate::error::MixerError;

verus! {

/// How many recent roots the pool remembers.
pub const ROOT_HISTORY_SIZE: usize = 30;

/// Length of the stored state: denomination, the roots, the cursor.
pub const STATE_LEN: usize = 969;

/// Offset of the cursor byte in the stored state.
pub const INDEX_OFFSET: usize = 968;

/// The all-zero root, which marks an unwritten slot.
pub open spec fn zero_root() -> Seq<u8> {
    Seq::new(32, |i: int| 0u8)
}

/// The pool's configuration and its ring of recent Merkle roots.
#[derive(Clone, Copy, Debug)]
pub struct MixerState {
    /// Fixed amount that every withdrawal pays out.
    pub denomination: u64,
    /// Ring buffer of recent roots.
    pub roots: [[u8; 32]; ROOT_HISTORY_SIZE],
    /// Slot of the most recently written root.
    pub current_root_index: u8,
}

/// The mathematical value of a `MixerState`.
pub struct PoolView {
    pub denomination: u64,
    pub roots: Seq<Seq<u8>>,
    pub current_root_index: u8,
}

impl PoolView {
    /// The state that initialization writes.
    pub open spec fn fresh(denomination: u64) -> PoolView {
        PoolView {
            denomination,
            roots: Seq::new(30, |i: int| zero_root()),
            current_root_index: 0,
        }
    }

    /// Thirty slots of 32 bytes each.
    pub open spec fn wf(self) -> bool {
        &&& self.roots.len() == 30
        &&& forall|i: int| 0 <= i < 30 ==> #[trigger] self.roots[i].len() == 32
    }

    /// The slot that the next push writes.
    pub open spec fn next_slot(self) -> int {
        (self.current_root_index as int + 1) % 30
    }

    /// A root is known when it is not the zero root and some slot holds it.
    pub open spec fn knows(self, root: Seq<u8>) -> bool {
        &&& root != zero_root()
        &&& exists|i: int| 0 <= i < 30 && #[trigger] self.roots[i] == root
    }

    /// The state after pushing `root`.
    pub open spec fn push(self, root: Seq<u8>) -> PoolView {
        PoolView {
            denomination: self.denomination,
            roots: self.roots.update(self.next_slot(), root),
            current_root_index: self.next_slot() as u8,
        }
    }

    /// The state after pushing each root of `s` in turn.
    pub open spec fn push_all(self, s: Seq<Seq<u8>>) -> PoolView
        decreases s.len(),
    {
        if s.len() == 0 {
            self
        } else {
            self.push_all(s.drop_last()).push(s.last())
        }
    }
}

impl View for MixerState {
    type V = PoolView;

    open spec fn view(&self) -> PoolView {
        PoolView {
            denomination: self.denomination,
            roots: self.roots@.map_values(|r: [u8; 32]| r@),
            current_root_index: self.current_root_index,
        }
    }
}

/// Whether the 32 bytes are all zero.
fn is_zero_root(root: &[u8; 32]) -> (r: bool)
    ensures
        r == (root@ == zero_root()),
{
    let mut i: usize = 0;
    while i < 32
        invariant
            i <= 32,
            root@.len() == 32,
            forall|k: int| 0 <= k < i ==> root@[k] == 0u8,
        decreases 32 - i,
    {
        if root[i] != 0 {
            return false;
        }
        i = i + 1;
    }
    assert(root@ =~= zero_root());
    true
}

/// Slot `j` lies among the first `n` slots of a backward walk from `start`.
spec fn walked(start: int, n: int, j: int) -> bool {
    if j <= start {
        start - j < n
    } else {
        start - j + 30 < n
    }
}

impl MixerState {
    /// How many recent roots the pool remembers.
    pub const ROOT_HISTORY_SIZE: usize = ROOT_HISTORY_SIZE;

    /// Length of the stored state.
    pub const LEN: usize = STATE_LEN;

    /// A pool with the given denomination and an empty root history.
    pub fn new(denomination: u64) -> (r: MixerState)
        ensures
            r@ == PoolView::fresh(denomination),
    {
        let r = MixerState {
            denomination,
            roots: [[0u8; 32]; ROOT_HISTORY_SIZE],
            current_root_index: 0,
        };
        proof {
            assert forall|i: int| 0 <= i < 30 implies r@.roots[i] == zero_root() by {
                assert(r.roots@[i]@ =~= zero_root());
            }
            assert(r@.roots =~= PoolView::fresh(denomination).roots);
        }
        r
    }

    /// Whether `root` is one of the remembered roots. The zero root is never
    /// known. The walk starts at the newest slot and goes backwards.
    pub fn is_known_root(&self, root: &[u8; 32]) -> (r: bool)
        ensures
            r == self@.knows(root@),
    {
        if is_zero_root(root) {
            return false;
        }
        let start: usize = self.current_root_index as usize % ROOT_HISTORY_SIZE;
        let mut idx: usize = start;
        let mut n: usize = 0;
        while n < ROOT_HISTORY_SIZE
            invariant
                start < 30,
                n <= 30,
                n < 30 ==> idx == (if n <= start {
                    start - n
                } else {
                    start + 30 - n
                }),
                root@ != zero_root(),
                forall|j: int|
                    0 <= j < 30 && walked(start as int, n as int, j) ==> self@.roots[j] != root@,
            decreases 30 - n,
        {
            if bytes32_eq(&self.roots[idx], root) {
                assert(self@.roots[idx as int] == root@);
                return true;
            }
            assert(self@.roots[idx as int] != root@);
            assert forall|j: int|
                0 <= j < 30 && walked(start as int, n + 1, j) implies self@.roots[j] != root@ by {
                if !walked(start as int, n as int, j) {
                    assert(j == idx);
                }
            }
            if idx == 0 {
                idx = ROOT_HISTORY_SIZE - 1;
            } else {
                idx = idx - 1;
            }
            n = n + 1;
        }
        assert forall|j: int| 0 <= j < 30 implies self@.roots[j] != root@ by {
            assert(walked(start as int, 30, j));
        }
        false
    }

    /// Writes `root` into the slot after the newest one, which becomes the
    /// newest; after thirty pushes this overwrites the oldest root.
    pub fn push_root(&mut self, root: [u8; 32])
        ensures
            final(self)@ == old(self)@.push(root@),
    {
        let next: usize = (self.current_root_index as usize + 1) % ROOT_HISTORY_SIZE;
        self.roots[next] = root;
        self.current_root_index = next as u8;
        proof {
            assert(self@.roots =~= old(self)@.roots.update(next as int, root@));
        }
    }
}

/// The state that the bytes `b` hold, read by the fixed layout.
pub open spec fn decode_state(b: Seq<u8>) -> PoolView {
    PoolView {
        denomination: le_value(b.subrange(0, 8)) as u64,
        roots: Seq::new(30, |i: int| b.subrange(8 + 32 * i, 8 + 32 * i + 32)),
        current_root_index: b[968],
    }
}

/// The bytes `b` hold `v` in the fixed layout.
pub open spec fn encodes_state(b: Seq<u8>, v: PoolView) -> bool {
    &&& b.len() >= STATE_LEN
    &&& b.subrange(0, 8) == le_bytes(v.denomination as nat, 8)
    &&& forall|i: int| 0 <= i < 30 ==> #[trigger] b.subrange(8 + 32 * i, 8 + 32 * i + 32) == v.roots[i]
    &&& b[968] == v.current_root_index
}

/// Reading back a stored state gives the state that was stored.
pub proof fn lemma_state_round_trip(b: Seq<u8>, v: PoolView)
    requires
        v.wf(),
        encodes_state(b, v),
    ensures
        decode_state(b) == v,
{
    lemma_pow256_8();
    lemma_le_round_trip(v.denomination as nat, 8);
    assert(decode_state(b).roots =~= v.roots);
}

/// Reads the pool state from storage.
pub fn load_state(data: &[u8]) -> (r: Result<MixerState, MixerError>)
    ensures
        data@.len() < STATE_LEN <==> r is Err,
        r matches Err(e) ==> e == MixerError::StorageTooSmall,
        r matches Ok(s) ==> s@ == decode_state(data@),
{
    if data.len() < STATE_LEN {
        return Err(MixerError::StorageTooSmall);
    }
    let denomination = read_u64_le(data, 0);
    let mut roots: [[u8; 32]; ROOT_HISTORY_SIZE] = [[0u8; 32]; ROOT_HISTORY_SIZE];
    let mut i: usize = 0;
    while i < ROOT_HISTORY_SIZE
        invariant
            i <= 30,
            data@.len() >= STATE_LEN,
            roots@.len() == 30,
            forall|k: int| 0 <= k < i ==> #[trigger] roots@[k]@ == data@.subrange(8 + 32 * k, 8 + 32 * k + 32),
        decreases 30 - i,
    {
        let start: usize = 8 + i * 32;
        roots[i] = read_bytes32(data, start);
        i = i + 1;
    }
    let s = MixerState { denomination, roots, current_root_index: data[INDEX_OFFSET] };
    assert(s@.roots =~= decode_state(data@).roots);
    Ok(s)
}

/// Writes the pool state to storage in the fixed layout; bytes past the
/// layout are left as they were.
pub fn store_state(data: &mut [u8], state: &MixerState) -> (r: Result<(), MixerError>)
    ensures
        old(data)@.len() < STATE_LEN <==> r is Err,
        r matches Err(e) ==> e == MixerError::StorageTooSmall && final(data)@ == old(data)@,
        r is Ok ==> encodes_state(final(data)@, state@),
        final(data)@.len() == old(data)@.len(),
        forall|k: int| STATE_LEN <= k < old(data)@.len() ==> final(data)@[k] == old(data)@[k],
{
    if data.len() < STATE_LEN {
        return Err(MixerError::StorageTooSmall);
    }
    let ghost orig = data@;
    let d = u64_to_le(state.denomination);
    proof {
        lemma_le_bytes_len(state.denomination as nat, 8);
    }
    write_bytes(data, 0, d.as_slice());
    assert(data@.subrange(0, 8) =~= le_bytes(state.denomination as nat, 8));
    let mut i: usize = 0;
    while i < ROOT_HISTORY_SIZE
        invariant
            i <= 30,
            data@.len() == orig.len(),
            orig.len() >= STATE_LEN,
            data@.subrange(0, 8) == le_bytes(state.denomination as nat, 8),
            forall|k: int| 0 <= k < i ==> #[trigger] data@.subrange(8 + 32 * k, 8 + 32 * k + 32) == state@.roots[k],
            forall|k: int| 8 + 32 * i <= k < orig.len() ==> data@[k] == orig[k],
        decreases 30 - i,
    {
        let start: usize = 8 + i * 32;
        let ghost prev = data@;
        write_bytes(data, start, state.roots[i].as_slice());
        proof {
            assert(data@.subrange(0, 8) =~= prev.subrange(0, 8));
            assert forall|k: int| 0 <= k < i + 1 implies #[trigger] data@.subrange(
                8 + 32 * k,
                8 + 32 * k + 32,
            ) == state@.roots[k] by {
                if k < i {
                    assert(data@.subrange(8 + 32 * k, 8 + 32 * k + 32) =~= prev.subrange(
                        8 + 32 * k,
                        8 + 32 * k + 32,
                    ));
                } else {
                    assert(data@.subrange(8 + 32 * k, 8 + 32 * k + 32) =~= state.roots@[k]@);
                }
            }
        }
        i = i + 1;
    }
    let ghost prev = data@;
    data[INDEX_OFFSET] = state.current_root_index;
    proof {
        assert(data@.subrange(0, 8) =~= prev.subrange(0, 8));
        assert forall|k: int| 0 <= k < 30 implies #[trigger] data@.subrange(
            8 + 32 * k,
            8 + 32 * k + 32,
        ) == state@.roots[k] by {
            assert(data@.subrange(8 + 32 * k, 8 + 32 * k + 32) =~= prev.subrange(
                8 + 32 * k,
                8 + 32 * k + 32,
            ));
        }
    }
    Ok(())
}

} // verus!
