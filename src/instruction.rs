use vstd::prelude::*;
use vstd::bytes::{spec_u64_from_le_bytes, spec_u64_to_le_bytes, u64_from_le_bytes, u64_to_le_bytes};
use vstd::slice::slice_subrange;

verus! {

/// The instructions the counter program understands.
#[derive(Debug, Clone, Copy, PartialEq, Eq, Structural)]
pub enum CounterInstruction {
    /// Create the counter account with a count of zero.
    Initialize,
    /// Add one to the count.
    Increment,
    /// Take one from the count.
    Decrement,
    /// Overwrite the count.
    SetCount { value: u64 },
    /// Put the count back to zero.
    Reset,
    /// Delete the counter account and refund its balance.
    Close,
}

/// Why instruction bytes could not be decoded.
#[derive(Debug, Clone, Copy, PartialEq, Eq, Structural)]
pub enum Error {
    /// Empty input, an unknown discriminant, or a `SetCount` that is not nine bytes long.
    Malformed,
}

/// The wire form of an instruction: one discriminant byte, then for `SetCount`
/// the value as eight little-endian bytes.
pub open spec fn encoding(c: CounterInstruction) -> Seq<u8> {
    match c {
        CounterInstruction::Initialize => seq![0u8],
        CounterInstruction::Increment => seq![1u8],
        CounterInstruction::Decrement => seq![2u8],
        CounterInstruction::SetCount { value } => seq![3u8] + spec_u64_to_le_bytes(value),
        CounterInstruction::Reset => seq![4u8],
        CounterInstruction::Close => seq![5u8],
    }
}

/// What a byte string decodes to. Only `SetCount` looks past the first byte.
pub open spec fn decoding(b: Seq<u8>) -> Result<CounterInstruction, Error> {
    if b.len() == 0 {
        Err(Error::Malformed)
    } else if b[0] == 0 {
        Ok(CounterInstruction::Initialize)
    } else if b[0] == 1 {
        Ok(CounterInstruction::Increment)
    } else if b[0] == 2 {
        Ok(CounterInstruction::Decrement)
    } else if b[0] == 3 {
        if b.len() == 9 {
            Ok(CounterInstruction::SetCount { value: spec_u64_from_le_bytes(b.subrange(1, 9)) })
        } else {
            Err(Error::Malformed)
        }
    } else if b[0] == 4 {
        Ok(CounterInstruction::Reset)
    } else if b[0] == 5 {
        Ok(CounterInstruction::Close)
    } else {
        Err(Error::Malformed)
    }
}

impl CounterInstruction {
    /// Encodes the instruction into its wire form.
    pub fn serialize(&self) -> (r: Vec<u8>)
        ensures
            r@ == encoding(*self),
    {
        let mut data: Vec<u8> = Vec::new();
        match self {
            CounterInstruction::Initialize => data.push(0),
            CounterInstruction::Increment => data.push(1),
            CounterInstruction::Decrement => data.push(2),
            CounterInstruction::SetCount { value } => {
                data.push(3);
                let bytes = u64_to_le_bytes(*value);
                let mut i: usize = 0;
                while i < 8
                    invariant
                        0 <= i <= 8,
                        bytes@ == spec_u64_to_le_bytes(*value),
                        bytes@.len() == 8,
                        data@ == seq![3u8] + bytes@.subrange(0, i as int),
                    decreases 8 - i,
                {
                    data.push(bytes[i]);
                    i = i + 1;
                    assert(data@ == seq![3u8] + bytes@.subrange(0, i as int));
                }
                assert(bytes@.subrange(0, 8) == bytes@);
            },
            CounterInstruction::Reset => data.push(4),
            CounterInstruction::Close => data.push(5),
        }
        data
    }

    /// Decodes instruction bytes.
    pub fn try_from_slice(data: &[u8]) -> (r: Result<CounterInstruction, Error>)
        ensures
            r == decoding(data@),
    {
        if data.len() == 0 {
            return Err(Error::Malformed);
        }
        match data[0] {
            0 => Ok(CounterInstruction::Initialize),
            1 => Ok(CounterInstruction::Increment),
            2 => Ok(CounterInstruction::Decrement),
            3 => {
                if data.len() != 9 {
                    return Err(Error::Malformed);
                }
                let value = u64_from_le_bytes(slice_subrange(data, 1, 9));
                Ok(CounterInstruction::SetCount { value })
            },
            4 => Ok(CounterInstruction::Reset),
            5 => Ok(CounterInstruction::Close),
            _ => Err(Error::Malformed),
        }
    }
}

/// Decoding the encoding of any instruction gives that instruction back.
pub proof fn lemma_decode_encode(c: CounterInstruction)
    ensures
        decoding(encoding(c)) == Ok::<CounterInstruction, Error>(c),
{
    vstd::bytes::lemma_auto_spec_u64_to_from_le_bytes();
    if let CounterInstruction::SetCount { value } = c {
        let e = encoding(c);
        assert(e.subrange(1, 9) =~= spec_u64_to_le_bytes(value));
    }
}

/// Empty input, a `SetCount` discriminant without exactly eight value bytes, and
/// any discriminant above five are all rejected.
pub proof fn lemma_decode_rejects(b: Seq<u8>)
    requires
        b.len() == 0 || (b[0] == 3 && b.len() != 9) || b[0] > 5,
    ensures
        decoding(b) == Err::<CounterInstruction, Error>(Error::Malformed),
{
}

} // verus!
