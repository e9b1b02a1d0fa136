use vstd::prelude::*;

use crate::bytes::{
    le_bytes, le_value, lemma_le_bytes_len, lemma_le_round_trip, lemma_pow256_8, read_bytes32,
    read_u64_le, u64_to_le,
};
use crate::error::MixerError;

verus! {

/// The operations that the pool accepts.
///
/// Wire format: a tag byte, then the operation's fields.
/// - `0 || denomination: u64 LE` (9 bytes)
/// - `1 || new_root: 32 bytes` (33 bytes)
/// - `2 || root: 32 || nullifier_hash: 32 || recipient_field: 32 || proof` (97 bytes or more)
pub enum MixerInstruction {
    /// Set up the pool state with a fixed denomination.
    Initialize { denomination: u64 },
    /// Record a new Merkle root of the deposit tree.
    PushRoot { new_root: [u8; 32] },
    /// Pay out one denomination against a proof of a deposit under a known root.
    Withdraw {
        root: [u8; 32],
        nullifier_hash: [u8; 32],
        recipient_field: [u8; 32],
        proof: Vec<u8>,
    },
}

/// The mathematical value of a `MixerInstruction`.
pub enum InstructionView {
    Initialize { denomination: u64 },
    PushRoot { new_root: Seq<u8> },
    Withdraw {
        root: Seq<u8>,
        nullifier_hash: Seq<u8>,
        recipient_field: Seq<u8>,
        proof: Seq<u8>,
    },
}

impl InstructionView {
    /// Every fixed-width field has 32 bytes.
    pub open spec fn wf(self) -> bool {
        match self {
            InstructionView::Initialize { .. } => true,
            InstructionView::PushRoot { new_root } => new_root.len() == 32,
            InstructionView::Withdraw { root, nullifier_hash, recipient_field, .. } => {
                &&& root.len() == 32
                &&& nullifier_hash.len() == 32
                &&& recipient_field.len() == 32
            },
        }
    }
}

impl View for MixerInstruction {
    type V = InstructionView;

    open spec fn view(&self) -> InstructionView {
        match self {
            MixerInstruction::Initialize { denomination } => InstructionView::Initialize {
                denomination: *denomination,
            },
            MixerInstruction::PushRoot { new_root } => InstructionView::PushRoot {
                new_root: new_root@,
            },
            MixerInstruction::Withdraw { root, nullifier_hash, recipient_field, proof } =>
                InstructionView::Withdraw {
                root: root@,
                nullifier_hash: nullifier_hash@,
                recipient_field: recipient_field@,
                proof: proof@,
            },
        }
    }
}

/// The instruction that the payload `b` spells, if any.
pub open spec fn decode_instruction(b: Seq<u8>) -> Option<InstructionView> {
    if b.len() == 0 {
        None
    } else if b[0] == 0 {
        if b.len() == 9 {
            Some(InstructionView::Initialize { denomination: le_value(b.subrange(1, 9)) as u64 })
        } else {
            None
        }
    } else if b[0] == 1 {
        if b.len() == 33 {
            Some(InstructionView::PushRoot { new_root: b.subrange(1, 33) })
        } else {
            None
        }
    } else if b[0] == 2 {
        if b.len() >= 97 {
            Some(
                InstructionView::Withdraw {
                    root: b.subrange(1, 33),
                    nullifier_hash: b.subrange(33, 65),
                    recipient_field: b.subrange(65, 97),
                    proof: b.subrange(97, b.len() as int),
                },
            )
        } else {
            None
        }
    } else {
        None
    }
}

/// The payload of an instruction.
pub open spec fn encode_instruction(i: InstructionView) -> Seq<u8> {
    match i {
        InstructionView::Initialize { denomination } => seq![0u8] + le_bytes(
            denomination as nat,
            8,
        ),
        InstructionView::PushRoot { new_root } => seq![1u8] + new_root,
        InstructionView::Withdraw { root, nullifier_hash, recipient_field, proof } => seq![2u8]
            + root + nullifier_hash + recipient_field + proof,
    }
}

/// The fewest bytes that a payload with tag `tag` can have.
pub open spec fn min_payload_len(tag: u8) -> nat {
    if tag == 0 {
        9
    } else if tag == 1 {
        33
    } else {
        97
    }
}

/// Decoding an encoded instruction gives back the same fields.
pub proof fn lemma_instruction_round_trip(i: InstructionView)
    requires
        i.wf(),
    ensures
        decode_instruction(encode_instruction(i)) == Some(i),
{
    let b = encode_instruction(i);
    match i {
        InstructionView::Initialize { denomination } => {
            lemma_le_bytes_len(denomination as nat, 8);
            lemma_pow256_8();
            lemma_le_round_trip(denomination as nat, 8);
            assert(b.subrange(1, 9) =~= le_bytes(denomination as nat, 8));
        },
        InstructionView::PushRoot { new_root } => {
            assert(b.subrange(1, 33) =~= new_root);
        },
        InstructionView::Withdraw { root, nullifier_hash, recipient_field, proof } => {
            assert(b.subrange(1, 33) =~= root);
            assert(b.subrange(33, 65) =~= nullifier_hash);
            assert(b.subrange(65, 97) =~= recipient_field);
            assert(b.subrange(97, b.len() as int) =~= proof);
        },
    }
}

/// A payload that is empty, or shorter than its tag requires, decodes to
/// nothing.
pub proof fn lemma_short_payload_rejected(b: Seq<u8>)
    requires
        b.len() == 0 || b.len() < min_payload_len(b[0]),
    ensures
        decode_instruction(b) is None,
{
}

/// Copies `input[from..]` into a new vector.
fn copy_tail(input: &[u8], from: usize) -> (r: Vec<u8>)
    requires
        from <= input@.len(),
    ensures
        r@ == input@.subrange(from as int, input@.len() as int),
{
    let n: usize = input.len();
    let mut out: Vec<u8> = Vec::new();
    let mut i: usize = from;
    while i < n
        invariant
            from <= i <= n,
            n == input@.len(),
            out@ == input@.subrange(from as int, i as int),
        decreases n - i,
    {
        out.push(input[i]);
        i = i + 1;
        assert(out@ =~= input@.subrange(from as int, i as int));
    }
    out
}

/// Appends `src` to `out`.
fn append_bytes(out: &mut Vec<u8>, src: &[u8])
    ensures
        final(out)@ == old(out)@ + src@,
{
    let n: usize = src.len();
    let mut i: usize = 0;
    let ghost start = out@;
    while i < n
        invariant
            i <= n,
            n == src@.len(),
            out@ == start + src@.subrange(0, i as int),
        decreases n - i,
    {
        out.push(src[i]);
        i = i + 1;
        assert(out@ =~= start + src@.subrange(0, i as int));
    }
    assert(src@.subrange(0, n as int) =~= src@);
}

impl MixerInstruction {
    /// Parses a payload. Fails with `InvalidInstruction` exactly when the
    /// payload is empty, its tag is unknown, or its length is wrong for the
    /// tag. The proof bytes of a withdrawal are taken as they are.
    pub fn unpack(input: &[u8]) -> (r: Result<MixerInstruction, MixerError>)
        ensures
            r matches Ok(i) ==> decode_instruction(input@) == Some(i@),
            r matches Err(e) ==> e == MixerError::InvalidInstruction && decode_instruction(
                input@,
            ) is None,
    {
        let n: usize = input.len();
        if n == 0 {
            return Err(MixerError::InvalidInstruction);
        }
        let tag = input[0];
        if tag == 0 {
            if n != 9 {
                return Err(MixerError::InvalidInstruction);
            }
            let denomination = read_u64_le(input, 1);
            Ok(MixerInstruction::Initialize { denomination })
        } else if tag == 1 {
            if n != 33 {
                return Err(MixerError::InvalidInstruction);
            }
            let new_root = read_bytes32(input, 1);
            Ok(MixerInstruction::PushRoot { new_root })
        } else if tag == 2 {
            if n < 97 {
                return Err(MixerError::InvalidInstruction);
            }
            let root = read_bytes32(input, 1);
            let nullifier_hash = read_bytes32(input, 33);
            let recipient_field = read_bytes32(input, 65);
            let proof = copy_tail(input, 97);
            Ok(MixerInstruction::Withdraw { root, nullifier_hash, recipient_field, proof })
        } else {
            Err(MixerError::InvalidInstruction)
        }
    }

    /// The payload that `unpack` reads back as this instruction.
    pub fn pack(&self) -> (r: Vec<u8>)
        ensures
            r@ == encode_instruction(self@),
    {
        let mut out: Vec<u8> = Vec::new();
        match self {
            MixerInstruction::Initialize { denomination } => {
                out.push(0u8);
                let d = u64_to_le(*denomination);
                append_bytes(&mut out, d.as_slice());
            },
            MixerInstruction::PushRoot { new_root } => {
                out.push(1u8);
                append_bytes(&mut out, new_root.as_slice());
            },
            MixerInstruction::Withdraw { root, nullifier_hash, recipient_field, proof } => {
                out.push(2u8);
                append_bytes(&mut out, root.as_slice());
                append_bytes(&mut out, nullifier_hash.as_slice());
                append_bytes(&mut out, recipient_field.as_slice());
                append_bytes(&mut out, proof.as_slice());
            },
        }
        assert(out@ =~= encode_instruction(self@));
        out
    }
}

} // verus!
