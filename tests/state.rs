use solana_counter::error::CounterError;
use solana_counter::state::{status, system_program, Account, AccountStatus, Counter, Pubkey};

fn program() -> Pubkey {
    Pubkey::new([7u8; 32])
}

fn account(owner: Pubkey, lamports: u64, data: Vec<u8>) -> Account {
    Account { key: Pubkey::new([1u8; 32]), owner, lamports, data, is_signer: false }
}

#[test]
fn fresh_counter_is_zero() {
    assert_eq!(Counter::get().count, 0);
}

#[test]
fn add_and_overflow() {
    let mut c = Counter { count: 5 };
    assert_eq!(c.add(3), Ok(8));
    assert_eq!(c.count, 8);
    let mut m = Counter { count: u64::MAX };
    assert_eq!(m.add(1), Err(CounterError::ArithmeticOverflow));
    assert_eq!(m.count, u64::MAX);
    let mut n = Counter { count: u64::MAX - 1 };
    assert_eq!(n.add(1), Ok(u64::MAX));
}

#[test]
fn sub_and_underflow() {
    let mut c = Counter { count: 5 };
    assert_eq!(c.sub(2), Ok(3));
    assert_eq!(c.count, 3);
    let mut z = Counter { count: 0 };
    assert_eq!(z.sub(1), Err(CounterError::Underflow));
    assert_eq!(z.count, 0);
}

#[test]
fn set_and_reset() {
    let mut c = Counter { count: 5 };
    assert_eq!(c.set(42), Ok(42));
    assert_eq!(c.count, 42);
    assert_eq!(c.reset(), Ok(0));
    assert_eq!(c.count, 0);
    assert_eq!(c.reset(), Ok(0));
    assert_eq!(c.count, 0);
}

#[test]
fn increments_from_zero_count_up() {
    let mut c = Counter::get();
    for i in 1..=1000u64 {
        assert_eq!(c.add(1), Ok(i));
    }
    assert_eq!(c.count, 1000);
}

#[test]
fn get_value_reads_active_account() {
    let a = account(program(), 10, 300u64.to_le_bytes().to_vec());
    assert_eq!(Counter::get_value(&a, &program()), Ok(300));
}

#[test]
fn get_value_rejects_invalid_accounts() {
    let wrong_owner = account(system_program(), 10, vec![0; 8]);
    assert_eq!(Counter::get_value(&wrong_owner, &program()), Err(CounterError::NotInitialized));
    let wrong_size = account(program(), 10, vec![0; 7]);
    assert_eq!(Counter::get_value(&wrong_size, &program()), Err(CounterError::NotInitialized));
    let unfunded = account(program(), 0, vec![0; 8]);
    assert_eq!(Counter::get_value(&unfunded, &program()), Err(CounterError::NotInitialized));
}

#[test]
fn status_of_accounts() {
    assert_eq!(status(&account(system_program(), 0, vec![]), &program()), AccountStatus::Uninitialized);
    assert_eq!(status(&account(program(), 5, vec![0; 8]), &program()), AccountStatus::Active);
    assert_eq!(status(&account(program(), 0, vec![]), &program()), AccountStatus::Closed);
}

#[test]
fn pubkey_equality() {
    let a = Pubkey::new([3u8; 32]);
    let mut bytes = [3u8; 32];
    assert!(a.equals(&Pubkey::new(bytes)));
    bytes[31] = 4;
    assert!(!a.equals(&Pubkey::new(bytes)));
    assert!(system_program().equals(&Pubkey::new([0u8; 32])));
}

#[test]
fn error_codes_and_messages() {
    assert_eq!(CounterError::AlreadyInitialized.code(), 0);
    assert_eq!(CounterError::ArithmeticOverflow.code(), 4);
    assert_eq!(CounterError::Underflow.message(), "Counter underflow");
    assert_eq!(CounterError::Invalid.message(), "Invalid instruction");
}
