use vstd::prelude::*;
use vstd::bytes::{spec_u64_from_le_bytes, u64_from_le_bytes};

use crate::error::CounterError;

verus! {

/// A 32-byte account identity.
#[derive(Debug, Clone, Copy)]
pub struct Pubkey {
    pub bytes: [u8; 32],
}

impl View for Pubkey {
    type V = Seq<u8>;

    open spec fn view(&self) -> Seq<u8> {
        self.bytes@
    }
}

impl Pubkey {
    pub fn new(bytes: [u8; 32]) -> (r: Pubkey)
        ensures
            r@ == bytes@,
    {
        Pubkey { bytes }
    }

    /// Whether two identities are the same.
    pub fn equals(&self, other: &Pubkey) -> (r: bool)
        ensures
            r == (self@ == other@),
    {
        let mut i: usize = 0;
        while i < 32
            invariant
                0 <= i <= 32,
                self@.len() == 32,
                other@.len() == 32,
                forall|j: int| 0 <= j < i ==> self@[j] == other@[j],
            decreases 32 - i,
        {
            if self.bytes[i] != other.bytes[i] {
                return false;
            }
            i = i + 1;
        }
        assert(self@ =~= other@);
        true
    }
}

/// The identity of the host's system program, which owns every account that
/// no program has claimed: all zero bytes.
pub open spec fn system_program_id() -> Seq<u8> {
    Seq::new(32, |i: int| 0u8)
}

/// The system program's identity.
pub fn system_program() -> (r: Pubkey)
    ensures
        r@ == system_program_id(),
{
    let r = Pubkey { bytes: [0u8; 32] };
    assert(r@ =~= system_program_id());
    r
}

/// What the host hands over for one account: its identity, the program
/// that owns it, its balance, its data and whether it signed the invocation.
pub struct Account {
    pub key: Pubkey,
    pub owner: Pubkey,
    pub lamports: u64,
    pub data: Vec<u8>,
    pub is_signer: bool,
}

/// The mathematical value of an account.
pub struct AccountModel {
    pub key: Seq<u8>,
    pub owner: Seq<u8>,
    pub lamports: u64,
    pub data: Seq<u8>,
    pub is_signer: bool,
}

impl View for Account {
    type V = AccountModel;

    open spec fn view(&self) -> AccountModel {
        AccountModel {
            key: self.key@,
            owner: self.owner@,
            lamports: self.lamports,
            data: self.data@,
            is_signer: self.is_signer,
        }
    }
}

/// The lifecycle of a counter account, read off its metadata.
#[derive(Debug, Clone, Copy, PartialEq, Eq, Structural)]
pub enum AccountStatus {
    /// Not owned by the program: never created, or closed and reclaimed.
    Uninitialized,
    /// Owned by the program, funded, and holding an eight-byte count.
    Active,
    /// Owned by the program but emptied or malformed: closed and not reclaimed.
    Closed,
}

/// The status of an account with respect to the program `program`.
pub open spec fn status_of(a: AccountModel, program: Seq<u8>) -> AccountStatus {
    if a.owner != program {
        AccountStatus::Uninitialized
    } else if a.data.len() == 8 && a.lamports > 0 {
        AccountStatus::Active
    } else {
        AccountStatus::Closed
    }
}

/// Reads the status of `account` with respect to the program `program_id`.
pub fn status(account: &Account, program_id: &Pubkey) -> (r: AccountStatus)
    ensures
        r == status_of(account@, program_id@),
{
    if !account.owner.equals(program_id) {
        AccountStatus::Uninitialized
    } else if account.data.len() == 8 && account.lamports > 0 {
        AccountStatus::Active
    } else {
        AccountStatus::Closed
    }
}

/// The count held in an account's data.
pub open spec fn stored_count(a: AccountModel) -> u64 {
    spec_u64_from_le_bytes(a.data)
}

/// The authority role: it carries no data of its own.
#[derive(Debug, Clone, Copy, PartialEq, Eq, Structural)]
pub struct Signer {}

/// The counter record persisted in a counter account.
#[derive(Debug, Clone, Copy, PartialEq, Eq, Structural)]
pub struct Counter {
    pub count: u64,
}

/// Adding `delta` to `count`, or the overflow it would cause.
pub open spec fn counter_add(count: u64, delta: u64) -> Result<u64, CounterError> {
    if count + delta <= u64::MAX {
        Ok((count + delta) as u64)
    } else {
        Err(CounterError::ArithmeticOverflow)
    }
}

/// Taking `delta` from `count`, or the underflow it would cause.
pub open spec fn counter_sub(count: u64, delta: u64) -> Result<u64, CounterError> {
    if count >= delta {
        Ok((count - delta) as u64)
    } else {
        Err(CounterError::Underflow)
    }
}

/// The count after a step: the new value on success, the old one on failure.
pub open spec fn count_after(count: u64, r: Result<u64, CounterError>) -> u64 {
    match r {
        Ok(v) => v,
        Err(_) => count,
    }
}

impl Counter {
    /// A fresh record, as Initialize creates it.
    pub fn get() -> (r: Self)
        ensures
            r.count == 0,
    {
        Counter { count: 0 }
    }

    /// Adds `delta`, failing with `ArithmeticOverflow` (and leaving the count
    /// as it was) past `u64::MAX`.
    pub fn add(&mut self, delta: u64) -> (r: Result<u64, CounterError>)
        ensures
            r == counter_add(old(self).count, delta),
            final(self).count == count_after(old(self).count, r),
    {
        match self.count.checked_add(delta) {
            Some(v) => {
                self.count = v;
                Ok(v)
            },
            None => Err(CounterError::ArithmeticOverflow),
        }
    }

    /// Takes `delta` away, failing with `Underflow` (and leaving the count as
    /// it was) below zero.
    pub fn sub(&mut self, delta: u64) -> (r: Result<u64, CounterError>)
        ensures
            r == counter_sub(old(self).count, delta),
            final(self).count == count_after(old(self).count, r),
    {
        if self.count < delta {
            return Err(CounterError::Underflow);
        }
        self.count = self.count - delta;
        Ok(self.count)
    }

    /// Overwrites the count; never fails.
    pub fn set(&mut self, value: u64) -> (r: Result<u64, CounterError>)
        ensures
            final(self).count == value,
            r == Ok::<u64, CounterError>(value),
    {
        self.count = value;
        Ok(self.count)
    }

    /// Puts the count back to zero; never fails.
    pub fn reset(&mut self) -> (r: Result<u64, CounterError>)
        ensures
            final(self).count == 0,
            r == Ok::<u64, CounterError>(0),
    {
        self.count = 0;
        Ok(self.count)
    }

    /// Reads the count held by a counter account of the program `program_id`,
    /// failing with `NotInitialized` unless the account is active.
    pub fn get_value(account: &Account, program_id: &Pubkey) -> (r: Result<u64, CounterError>)
        ensures
            r == (if status_of(account@, program_id@) == AccountStatus::Active {
                Ok::<u64, CounterError>(stored_count(account@))
            } else {
                Err(CounterError::NotInitialized)
            }),
    {
        if status(account, program_id) != AccountStatus::Active {
            return Err(CounterError::NotInitialized);
        }
        Ok(u64_from_le_bytes(account.data.as_slice()))
    }
}

/// The result of `n` increments from `count`: the first failure, or the final count.
pub open spec fn increments(count: u64, n: nat) -> Result<u64, CounterError>
    decreases n,
{
    if n == 0 {
        Ok(count)
    } else {
        match counter_add(count, 1) {
            Ok(v) => increments(v, (n - 1) as nat),
            Err(e) => Err(e),
        }
    }
}

/// Increments from zero never overflow before `u64::MAX` is reached: any run
/// of `n <= u64::MAX` of them ends at `n`. One more at `u64::MAX` fails with
/// `ArithmeticOverflow` and keeps the count.
pub proof fn lemma_increment_safety(n: nat)
    requires
        n <= u64::MAX,
    ensures
        increments(0, n) == Ok::<u64, CounterError>(n as u64),
        counter_add(u64::MAX, 1) == Err::<u64, CounterError>(CounterError::ArithmeticOverflow),
        count_after(u64::MAX, counter_add(u64::MAX, 1)) == u64::MAX,
{
    lemma_increments_from(0, n);
}

proof fn lemma_increments_from(start: u64, n: nat)
    requires
        start + n <= u64::MAX,
    ensures
        increments(start, n) == Ok::<u64, CounterError>((start + n) as u64),
    decreases n,
{
    if n > 0 {
        lemma_increments_from((start + 1) as u64, (n - 1) as nat);
    }
}

/// Decrementing a zero count fails with `Underflow` and keeps the count at zero.
pub proof fn lemma_underflow_guard()
    ensures
        counter_sub(0, 1) == Err::<u64, CounterError>(CounterError::Underflow),
        count_after(0, counter_sub(0, 1)) == 0,
{
}

} // verus!
