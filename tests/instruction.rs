use solana_counter::instruction::{CounterInstruction, Error};

#[test]
fn test_instruction_serialization() {
    let test_cases = vec![
        CounterInstruction::Initialize,
        CounterInstruction::Increment,
        CounterInstruction::Decrement,
        CounterInstruction::SetCount { value: 42 },
        CounterInstruction::Reset,
        CounterInstruction::Close,
    ];

    for instruction in test_cases {
        let serialized = instruction.serialize();
        let deserialized =
            CounterInstruction::try_from_slice(&serialized).expect("Failed to deserialize");

        assert_eq!(instruction, deserialized);
    }
}

#[test]
fn serialize_gives_exact_bytes() {
    assert_eq!(CounterInstruction::Initialize.serialize(), vec![0]);
    assert_eq!(CounterInstruction::Increment.serialize(), vec![1]);
    assert_eq!(CounterInstruction::Decrement.serialize(), vec![2]);
    assert_eq!(CounterInstruction::Reset.serialize(), vec![4]);
    assert_eq!(CounterInstruction::Close.serialize(), vec![5]);
    assert_eq!(
        CounterInstruction::SetCount { value: 0x0102_0304_0506_0708 }.serialize(),
        vec![3, 8, 7, 6, 5, 4, 3, 2, 1]
    );
}

#[test]
fn round_trip_set_extremes() {
    for value in [0u64, 1, 42, u64::MAX - 1, u64::MAX] {
        let c = CounterInstruction::SetCount { value };
        let bytes = c.serialize();
        assert_eq!(bytes.len(), 9);
        assert_eq!(CounterInstruction::try_from_slice(&bytes), Ok(c));
    }
}

#[test]
fn decode_little_endian_value() {
    assert_eq!(
        CounterInstruction::try_from_slice(&[3, 42, 0, 0, 0, 0, 0, 0, 0]),
        Ok(CounterInstruction::SetCount { value: 42 })
    );
    assert_eq!(
        CounterInstruction::try_from_slice(&[3, 0, 1, 0, 0, 0, 0, 0, 0]),
        Ok(CounterInstruction::SetCount { value: 256 })
    );
}

#[test]
fn decode_rejects_empty() {
    assert_eq!(CounterInstruction::try_from_slice(&[]), Err(Error::Malformed));
}

#[test]
fn decode_rejects_set_with_wrong_length() {
    assert_eq!(CounterInstruction::try_from_slice(&[3]), Err(Error::Malformed));
    assert_eq!(CounterInstruction::try_from_slice(&[3, 1, 2, 3, 4, 5, 6, 7]), Err(Error::Malformed));
    assert_eq!(
        CounterInstruction::try_from_slice(&[3, 1, 2, 3, 4, 5, 6, 7, 8, 9]),
        Err(Error::Malformed)
    );
}

#[test]
fn decode_rejects_unknown_discriminant() {
    for d in 6u8..=255 {
        assert_eq!(CounterInstruction::try_from_slice(&[d]), Err(Error::Malformed));
    }
}

#[test]
fn decode_ignores_trailing_bytes_of_plain_instructions() {
    assert_eq!(CounterInstruction::try_from_slice(&[1, 9, 9]), Ok(CounterInstruction::Increment));
}
