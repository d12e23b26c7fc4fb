use vstd::prelude::*;
use vstd::bytes::{spec_u64_from_le_bytes, spec_u64_to_le_bytes, u64_from_le_bytes, u64_to_le_bytes};

use crate::address::{derived_counter_address, is_counter_address};
use crate::error::{error_code, CounterError};
use crate::instruction::{decoding, encoding, lemma_decode_encode, CounterInstruction, Error};
use crate::state::{
    counter_add, counter_sub, stored_count, status, status_of, system_program, system_program_id,
    Account, AccountModel, AccountStatus, Counter, Pubkey,
};

verus! {

/// Why the accounts handed in do not fit the instruction.
#[derive(Debug, Clone, Copy, PartialEq, Eq, Structural)]
pub enum ResolveError {
    /// Fewer accounts than the instruction's roles.
    MissingAccount,
    /// The authority did not sign.
    NotSigner,
    /// For Initialize: the third account is not the system program, or the
    /// counter address is owned by another program.
    WrongOwner,
    /// Initialize found a counter account that already exists.
    AlreadyInitialized,
    /// The counter account does not exist.
    NotInitialized,
    /// The authority cannot pay for the counter account, or the payment is zero.
    InsufficientFunds,
    /// A balance would exceed `u64::MAX`.
    BalanceOverflow,
    /// The counter account is not at the program's derived counter address.
    WrongAddress,
}

/// The positions of the accounts bound to each role.
#[derive(Debug, Clone, Copy, PartialEq, Eq, Structural)]
pub struct ResolvedAccounts {
    pub counter: usize,
    pub authority: usize,
    /// The system program for Initialize, the refund destination for Close.
    pub extra: Option<usize>,
}

/// What one invocation can fail with.
#[derive(Debug, Clone, Copy, PartialEq, Eq, Structural)]
pub enum ProcessError {
    Decode(Error),
    Resolve(ResolveError),
    State(CounterError),
}

/// The numeric code of a resolution failure: it follows the transition
/// failures of `CounterError`, whose codes are 0 to 4.
pub open spec fn resolve_code(e: ResolveError) -> u32 {
    match e {
        ResolveError::MissingAccount => 5,
        ResolveError::NotSigner => 6,
        ResolveError::WrongOwner => 7,
        ResolveError::AlreadyInitialized => 0,
        ResolveError::NotInitialized => 1,
        ResolveError::InsufficientFunds => 8,
        ResolveError::BalanceOverflow => 9,
        ResolveError::WrongAddress => 10,
    }
}

/// The code under which the host reports a failed invocation. Undecodable
/// bytes share the code of `CounterError::Invalid`, and a counter in the
/// wrong state gives the same code whichever step noticed it.
pub open spec fn process_code(e: ProcessError) -> u32 {
    match e {
        ProcessError::Decode(_) => error_code(CounterError::Invalid),
        ProcessError::Resolve(r) => resolve_code(r),
        ProcessError::State(s) => error_code(s),
    }
}

impl ProcessError {
    /// The code under which the host reports this failure.
    pub fn code(&self) -> (r: u32)
        ensures
            r == process_code(*self),
    {
        match self {
            ProcessError::Decode(_) => CounterError::Invalid.code(),
            ProcessError::Resolve(r) => match r {
                ResolveError::MissingAccount => 5,
                ResolveError::NotSigner => 6,
                ResolveError::WrongOwner => 7,
                ResolveError::AlreadyInitialized => CounterError::AlreadyInitialized.code(),
                ResolveError::NotInitialized => CounterError::NotInitialized.code(),
                ResolveError::InsufficientFunds => 8,
                ResolveError::BalanceOverflow => 9,
                ResolveError::WrongAddress => 10,
            },
            ProcessError::State(s) => s.code(),
        }
    }
}

/// The models of a list of accounts.
pub open spec fn models(accounts: Seq<Account>) -> Seq<AccountModel> {
    accounts.map_values(|a: Account| a@)
}

/// How many accounts an instruction binds.
pub open spec fn roles_needed(c: CounterInstruction) -> nat {
    match c {
        CounterInstruction::Initialize => 3,
        CounterInstruction::Close => 3,
        _ => 2,
    }
}

/// The binding of `accts` to the roles of `c`: counter first, authority
/// second, then the system program (Initialize) or the refund destination
/// (Close). The counter must sit at the program's derived counter address.
/// `rent` is what Initialize moves from the authority to the counter.
pub open spec fn resolution(
    c: CounterInstruction,
    accts: Seq<AccountModel>,
    program: Seq<u8>,
    rent: u64,
) -> Result<ResolvedAccounts, ResolveError> {
    if accts.len() < roles_needed(c) {
        Err(ResolveError::MissingAccount)
    } else {
        let counter = accts[0];
        let authority = accts[1];
        match c {
            CounterInstruction::Initialize => {
                if status_of(counter, program) != AccountStatus::Uninitialized {
                    Err(ResolveError::AlreadyInitialized)
                } else if !authority.is_signer {
                    Err(ResolveError::NotSigner)
                } else if derived_counter_address(program) != Some(counter.key) {
                    Err(ResolveError::WrongAddress)
                } else if accts[2].key != system_program_id() || counter.owner
                    != system_program_id() {
                    Err(ResolveError::WrongOwner)
                } else if rent == 0 || authority.lamports < rent {
                    Err(ResolveError::InsufficientFunds)
                } else if counter.lamports + rent > u64::MAX {
                    Err(ResolveError::BalanceOverflow)
                } else {
                    Ok(ResolvedAccounts { counter: 0, authority: 1, extra: Some(2) })
                }
            },
            CounterInstruction::Close => {
                if status_of(counter, program) != AccountStatus::Active {
                    Err(ResolveError::NotInitialized)
                } else if !authority.is_signer {
                    Err(ResolveError::NotSigner)
                } else if derived_counter_address(program) != Some(counter.key) {
                    Err(ResolveError::WrongAddress)
                } else if accts[2].lamports + counter.lamports > u64::MAX {
                    Err(ResolveError::BalanceOverflow)
                } else {
                    Ok(ResolvedAccounts { counter: 0, authority: 1, extra: Some(2) })
                }
            },
            _ => {
                if status_of(counter, program) != AccountStatus::Active {
                    Err(ResolveError::NotInitialized)
                } else if !authority.is_signer {
                    Err(ResolveError::NotSigner)
                } else if derived_counter_address(program) != Some(counter.key) {
                    Err(ResolveError::WrongAddress)
                } else {
                    Ok(ResolvedAccounts { counter: 0, authority: 1, extra: None })
                }
            },
        }
    }
}

/// `a` with its data replaced.
pub open spec fn with_data(a: AccountModel, data: Seq<u8>) -> AccountModel {
    AccountModel { key: a.key, owner: a.owner, lamports: a.lamports, data, is_signer: a.is_signer }
}

/// `a` with its balance replaced.
pub open spec fn with_lamports(a: AccountModel, lamports: u64) -> AccountModel {
    AccountModel { key: a.key, owner: a.owner, lamports, data: a.data, is_signer: a.is_signer }
}

/// The effect of `c` on accounts that resolved for it: the outcome and the
/// accounts afterwards. A failing step changes nothing.
pub open spec fn transition(
    c: CounterInstruction,
    accts: Seq<AccountModel>,
    program: Seq<u8>,
    rent: u64,
) -> (Result<(), CounterError>, Seq<AccountModel>) {
    let counter = accts[0];
    match c {
        CounterInstruction::Initialize => (
            Ok(()),
            accts.update(
                0,
                AccountModel {
                    key: counter.key,
                    owner: program,
                    lamports: (counter.lamports + rent) as u64,
                    data: spec_u64_to_le_bytes(0),
                    is_signer: counter.is_signer,
                },
            ).update(1, with_lamports(accts[1], (accts[1].lamports - rent) as u64)),
        ),
        CounterInstruction::Increment => match counter_add(stored_count(counter), 1) {
            Ok(v) => (Ok(()), accts.update(0, with_data(counter, spec_u64_to_le_bytes(v)))),
            Err(e) => (Err(e), accts),
        },
        CounterInstruction::Decrement => match counter_sub(stored_count(counter), 1) {
            Ok(v) => (Ok(()), accts.update(0, with_data(counter, spec_u64_to_le_bytes(v)))),
            Err(e) => (Err(e), accts),
        },
        CounterInstruction::SetCount { value } => (
            Ok(()),
            accts.update(0, with_data(counter, spec_u64_to_le_bytes(value))),
        ),
        CounterInstruction::Reset => (
            Ok(()),
            accts.update(0, with_data(counter, spec_u64_to_le_bytes(0))),
        ),
        CounterInstruction::Close => (
            Ok(()),
            accts.update(
                0,
                AccountModel {
                    key: counter.key,
                    owner: system_program_id(),
                    lamports: 0,
                    data: Seq::empty(),
                    is_signer: counter.is_signer,
                },
            ).update(2, with_lamports(accts[2], (accts[2].lamports + counter.lamports) as u64)),
        ),
    }
}

/// One whole invocation: decode, resolve, then apply. On any failure the
/// accounts are left as they were.
pub open spec fn process_spec(
    program: Seq<u8>,
    accts: Seq<AccountModel>,
    data: Seq<u8>,
    rent: u64,
) -> (Result<(), ProcessError>, Seq<AccountModel>) {
    match decoding(data) {
        Err(e) => (Err(ProcessError::Decode(e)), accts),
        Ok(c) => match resolution(c, accts, program, rent) {
            Err(e) => (Err(ProcessError::Resolve(e)), accts),
            Ok(_) => {
                let (r, after) = transition(c, accts, program, rent);
                match r {
                    Ok(()) => (Ok(()), after),
                    Err(e) => (Err(ProcessError::State(e)), after),
                }
            },
        },
    }
}

/// Binds the accounts to the roles of `instruction`, checking counts,
/// signatures, ownership, the counter's status and balances. Changes nothing.
pub fn resolve(
    instruction: &CounterInstruction,
    accounts: &Vec<Account>,
    program_id: &Pubkey,
    rent: u64,
) -> (r: Result<ResolvedAccounts, ResolveError>)
    ensures
        r == resolution(*instruction, models(accounts@), program_id@, rent),
{
    let ghost accts = models(accounts@);
    let needed: usize = match instruction {
        CounterInstruction::Initialize => 3,
        CounterInstruction::Close => 3,
        _ => 2,
    };
    if accounts.len() < needed {
        return Err(ResolveError::MissingAccount);
    }
    assert(accts[0] == accounts@[0]@ && accts[1] == accounts@[1]@);
    let counter = &accounts[0];
    let authority = &accounts[1];
    let st = status(counter, program_id);
    match instruction {
        CounterInstruction::Initialize => {
            assert(accts[2] == accounts@[2]@);
            if st != AccountStatus::Uninitialized {
                return Err(ResolveError::AlreadyInitialized);
            }
            if !authority.is_signer {
                return Err(ResolveError::NotSigner);
            }
            if !is_counter_address(&counter.key, program_id) {
                return Err(ResolveError::WrongAddress);
            }
            let system = system_program();
            if !accounts[2].key.equals(&system) || !counter.owner.equals(&system) {
                return Err(ResolveError::WrongOwner);
            }
            if rent == 0 || authority.lamports < rent {
                return Err(ResolveError::InsufficientFunds);
            }
            if counter.lamports.checked_add(rent).is_none() {
                return Err(ResolveError::BalanceOverflow);
            }
            Ok(ResolvedAccounts { counter: 0, authority: 1, extra: Some(2) })
        },
        CounterInstruction::Close => {
            assert(accts[2] == accounts@[2]@);
            if st != AccountStatus::Active {
                return Err(ResolveError::NotInitialized);
            }
            if !authority.is_signer {
                return Err(ResolveError::NotSigner);
            }
            if !is_counter_address(&counter.key, program_id) {
                return Err(ResolveError::WrongAddress);
            }
            if accounts[2].lamports.checked_add(counter.lamports).is_none() {
                return Err(ResolveError::BalanceOverflow);
            }
            Ok(ResolvedAccounts { counter: 0, authority: 1, extra: Some(2) })
        },
        _ => {
            if st != AccountStatus::Active {
                return Err(ResolveError::NotInitialized);
            }
            if !authority.is_signer {
                return Err(ResolveError::NotSigner);
            }
            if !is_counter_address(&counter.key, program_id) {
                return Err(ResolveError::WrongAddress);
            }
            Ok(ResolvedAccounts { counter: 0, authority: 1, extra: None })
        },
    }
}

/// Applies `instruction` to accounts already resolved for it. Every check
/// that can fail comes before the first write.
pub fn execute(
    instruction: &CounterInstruction,
    resolved: &ResolvedAccounts,
    accounts: &mut Vec<Account>,
    program_id: &Pubkey,
    rent: u64,
) -> (r: Result<(), CounterError>)
    requires
        resolution(*instruction, models(old(accounts)@), program_id@, rent) == Ok::<
            ResolvedAccounts,
            ResolveError,
        >(*resolved),
    ensures
        (r, models(final(accounts)@)) == transition(
            *instruction,
            models(old(accounts)@),
            program_id@,
            rent,
        ),
{
    let ghost before = models(accounts@);
    let c = resolved.counter;
    assert(before[0] == accounts@[0]@ && before[1] == accounts@[1]@);
    match instruction {
        CounterInstruction::Initialize => {
            let a = resolved.authority;
            accounts[c].owner = *program_id;
            accounts[c].lamports = accounts[c].lamports + rent;
            accounts[c].data = u64_to_le_bytes(Counter::get().count);
            accounts[a].lamports = accounts[a].lamports - rent;
            let ghost expect = transition(*instruction, before, program_id@, rent).1;
            assert(models(accounts@) =~= expect);
            Ok(())
        },
        CounterInstruction::Increment => {
            let mut record = Counter { count: u64_from_le_bytes(accounts[c].data.as_slice()) };
            match record.add(1) {
                Ok(v) => {
                    accounts[c].data = u64_to_le_bytes(v);
                    let ghost expect = transition(*instruction, before, program_id@, rent).1;
                    assert(models(accounts@) =~= expect);
                    Ok(())
                },
                Err(e) => {
                    assert(models(accounts@) =~= before);
                    Err(e)
                },
            }
        },
        CounterInstruction::Decrement => {
            let mut record = Counter { count: u64_from_le_bytes(accounts[c].data.as_slice()) };
            match record.sub(1) {
                Ok(v) => {
                    accounts[c].data = u64_to_le_bytes(v);
                    let ghost expect = transition(*instruction, before, program_id@, rent).1;
                    assert(models(accounts@) =~= expect);
                    Ok(())
                },
                Err(e) => {
                    assert(models(accounts@) =~= before);
                    Err(e)
                },
            }
        },
        CounterInstruction::SetCount { value } => {
            let mut record = Counter::get();
            let _ = record.set(*value);
            accounts[c].data = u64_to_le_bytes(record.count);
            let ghost expect = transition(*instruction, before, program_id@, rent).1;
            assert(models(accounts@) =~= expect);
            Ok(())
        },
        CounterInstruction::Reset => {
            let mut record = Counter::get();
            let _ = record.reset();
            accounts[c].data = u64_to_le_bytes(record.count);
            let ghost expect = transition(*instruction, before, program_id@, rent).1;
            assert(models(accounts@) =~= expect);
            Ok(())
        },
        CounterInstruction::Close => {
            let refund = resolved.extra.unwrap();
            assert(before[2] == accounts@[2]@);
            let balance = accounts[c].lamports;
            accounts[refund].lamports = accounts[refund].lamports + balance;
            accounts[c].lamports = 0;
            accounts[c].data = Vec::new();
            accounts[c].owner = system_program();
            let ghost expect = transition(*instruction, before, program_id@, rent).1;
            assert(accounts@[0].data@ =~= Seq::<u8>::empty());
            assert(models(accounts@) =~= expect);
            Ok(())
        },
    }
}

/// One invocation of the counter program: decodes `data`, binds `accounts`
/// to the instruction's roles and applies it. `rent` is the balance that
/// Initialize moves from the authority into the new counter account. On
/// failure no account is changed.
pub fn process_instruction(
    program_id: &Pubkey,
    accounts: &mut Vec<Account>,
    data: &[u8],
    rent: u64,
) -> (r: Result<(), ProcessError>)
    ensures
        (r, models(final(accounts)@)) == process_spec(
            program_id@,
            models(old(accounts)@),
            data@,
            rent,
        ),
{
    let instruction = match CounterInstruction::try_from_slice(data) {
        Ok(c) => c,
        Err(e) => return Err(ProcessError::Decode(e)),
    };
    let resolved = match resolve(&instruction, accounts, program_id, rent) {
        Ok(r) => r,
        Err(e) => return Err(ProcessError::Resolve(e)),
    };
    match execute(&instruction, &resolved, accounts, program_id, rent) {
        Ok(()) => Ok(()),
        Err(e) => Err(ProcessError::State(e)),
    }
}

/// Whether `c` is one of the four instructions that change an existing count.
pub open spec fn is_update(c: CounterInstruction) -> bool {
    match c {
        CounterInstruction::Increment => true,
        CounterInstruction::Decrement => true,
        CounterInstruction::SetCount { .. } => true,
        CounterInstruction::Reset => true,
        _ => false,
    }
}

/// An invocation that fails leaves every account as it was.
pub proof fn lemma_failure_changes_nothing(
    program: Seq<u8>,
    accts: Seq<AccountModel>,
    data: Seq<u8>,
    rent: u64,
)
    ensures
        process_spec(program, accts, data, rent).0 is Err ==> process_spec(
            program,
            accts,
            data,
            rent,
        ).1 == accts,
{
}

/// Reset on accounts that it accepts succeeds with a count of zero, whatever
/// the count was; a second Reset succeeds again and changes nothing.
pub proof fn lemma_reset_idempotent(program: Seq<u8>, accts: Seq<AccountModel>, rent: u64)
    requires
        resolution(CounterInstruction::Reset, accts, program, rent) is Ok,
    ensures
        ({
            let (r1, after) = process_spec(
                program,
                accts,
                encoding(CounterInstruction::Reset),
                rent,
            );
            &&& r1 == Ok::<(), ProcessError>(())
            &&& status_of(after[0], program) == AccountStatus::Active
            &&& stored_count(after[0]) == 0
            &&& process_spec(program, after, encoding(CounterInstruction::Reset), rent) == (
            r1, after)
        }),
{
    lemma_decode_encode(CounterInstruction::Reset);
    vstd::bytes::lemma_auto_spec_u64_to_from_le_bytes();
    let after = process_spec(program, accts, encoding(CounterInstruction::Reset), rent).1;
    assert(after.update(0, with_data(after[0], spec_u64_to_le_bytes(0))) =~= after);
}

/// Decrement on accounts that it accepts, with the count at zero, fails with
/// `Underflow` and changes nothing.
pub proof fn lemma_decrement_at_zero(program: Seq<u8>, accts: Seq<AccountModel>, rent: u64)
    requires
        resolution(CounterInstruction::Decrement, accts, program, rent) is Ok,
        stored_count(accts[0]) == 0,
    ensures
        process_spec(program, accts, encoding(CounterInstruction::Decrement), rent) == (
        Err::<(), ProcessError>(ProcessError::State(CounterError::Underflow)), accts),
{
    lemma_decode_encode(CounterInstruction::Decrement);
}

/// Increment on accounts that it accepts fails with `ArithmeticOverflow` and
/// changes nothing when the count is `u64::MAX`; below that it adds one.
pub proof fn lemma_increment_bounds(program: Seq<u8>, accts: Seq<AccountModel>, rent: u64)
    requires
        resolution(CounterInstruction::Increment, accts, program, rent) is Ok,
    ensures
        ({
            let (r, after) = process_spec(
                program,
                accts,
                encoding(CounterInstruction::Increment),
                rent,
            );
            &&& stored_count(accts[0]) == u64::MAX ==> r == Err::<(), ProcessError>(
                ProcessError::State(CounterError::ArithmeticOverflow),
            ) && after == accts
            &&& stored_count(accts[0]) < u64::MAX ==> r == Ok::<(), ProcessError>(())
                && stored_count(after[0]) == stored_count(accts[0]) + 1
                && status_of(after[0], program) == AccountStatus::Active
        }),
{
    lemma_decode_encode(CounterInstruction::Increment);
    vstd::bytes::lemma_auto_spec_u64_to_from_le_bytes();
}

/// The counter's lifecycle is kept: the update instructions fail with
/// `NotInitialized` on a counter that is not active, and Initialize fails
/// with `AlreadyInitialized` on one that is.
pub proof fn lemma_lifecycle_discipline(
    program: Seq<u8>,
    accts: Seq<AccountModel>,
    c: CounterInstruction,
    rent: u64,
)
    requires
        accts.len() >= 3,
    ensures
        is_update(c) && status_of(accts[0], program) != AccountStatus::Active ==> process_spec(
            program,
            accts,
            encoding(c),
            rent,
        ) == (Err::<(), ProcessError>(ProcessError::Resolve(ResolveError::NotInitialized)), accts),
        status_of(accts[0], program) == AccountStatus::Active ==> process_spec(
            program,
            accts,
            encoding(CounterInstruction::Initialize),
            rent,
        ) == (Err::<(), ProcessError>(ProcessError::Resolve(ResolveError::AlreadyInitialized)), accts),
{
    lemma_decode_encode(c);
    lemma_decode_encode(CounterInstruction::Initialize);
}

/// After a Close that succeeds the counter account is uninitialized again,
/// and every update instruction against it fails with `NotInitialized`.
pub proof fn lemma_closed_reverts(
    program: Seq<u8>,
    accts: Seq<AccountModel>,
    c: CounterInstruction,
    rent: u64,
)
    requires
        program != system_program_id(),
        process_spec(program, accts, encoding(CounterInstruction::Close), rent).0 is Ok,
    ensures
        ({
            let after = process_spec(program, accts, encoding(CounterInstruction::Close), rent).1;
            &&& status_of(after[0], program) == AccountStatus::Uninitialized
            &&& is_update(c) ==> process_spec(program, after, encoding(c), rent) == (
            Err::<(), ProcessError>(ProcessError::Resolve(ResolveError::NotInitialized)), after)
        }),
{
    lemma_decode_encode(CounterInstruction::Close);
    lemma_decode_encode(c);
}

/// The sum of the balances of a list of accounts.
pub open spec fn total_lamports(accts: Seq<AccountModel>) -> int
    decreases accts.len(),
{
    if accts.len() == 0 {
        0
    } else {
        total_lamports(accts.drop_last()) + accts.last().lamports
    }
}

proof fn lemma_total_after_update(accts: Seq<AccountModel>, i: int, a: AccountModel)
    requires
        0 <= i < accts.len(),
    ensures
        total_lamports(accts.update(i, a)) == total_lamports(accts) - accts[i].lamports
            + a.lamports,
    decreases accts.len(),
{
    let u = accts.update(i, a);
    if i == accts.len() - 1 {
        assert(u.drop_last() =~= accts.drop_last());
    } else {
        assert(u.drop_last() =~= accts.drop_last().update(i, a));
        lemma_total_after_update(accts.drop_last(), i, a);
    }
}

/// No invocation creates or destroys balance: Initialize and Close move it
/// between accounts, and everything else leaves it alone.
pub proof fn lemma_balance_conserved(
    program: Seq<u8>,
    accts: Seq<AccountModel>,
    data: Seq<u8>,
    rent: u64,
)
    ensures
        total_lamports(process_spec(program, accts, data, rent).1) == total_lamports(accts),
{
    if let Ok(c) = decoding(data) {
        if resolution(c, accts, program, rent) is Ok {
            let t = transition(c, accts, program, rent).1;
            match c {
                CounterInstruction::Initialize => {
                    let first = accts.update(
                        0,
                        AccountModel {
                            key: accts[0].key,
                            owner: program,
                            lamports: (accts[0].lamports + rent) as u64,
                            data: spec_u64_to_le_bytes(0),
                            is_signer: accts[0].is_signer,
                        },
                    );
                    lemma_total_after_update(accts, 0, first[0]);
                    lemma_total_after_update(first, 1, t[1]);
                },
                CounterInstruction::Close => {
                    let first = accts.update(
                        0,
                        AccountModel {
                            key: accts[0].key,
                            owner: system_program_id(),
                            lamports: 0,
                            data: Seq::empty(),
                            is_signer: accts[0].is_signer,
                        },
                    );
                    lemma_total_after_update(accts, 0, first[0]);
                    lemma_total_after_update(first, 2, t[2]);
                },
                _ => {
                    if t != accts {
                        lemma_total_after_update(accts, 0, t[0]);
                    }
                },
            }
        }
    }
}

} // verus!
