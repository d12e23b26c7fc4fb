use vstd::prelude::*;
use solana_program::pubkey::Pubkey as HostPubkey;

use crate::state::Pubkey;

verus! {

/// The address that the host derives for the counter account from the seed
/// `counter` and the program's identity, if one exists.
pub uninterp spec fn derived_counter_address(program: Seq<u8>) -> Option<Seq<u8>>;

/// Relies on `solana_program::pubkey::Pubkey::try_find_program_address`
/// with the single seed `counter`: the derived address, or `None` when no
/// bump seed gives one. It depends on the program identity alone.
#[verifier::external_body]
pub(crate) fn find_counter_address(program_id: &Pubkey) -> (r: Option<Pubkey>)
    ensures
        (match r {
            Some(k) => derived_counter_address(program_id@) == Some(k@),
            None => derived_counter_address(program_id@) is None,
        }),
{
    let program = HostPubkey::new_from_array(program_id.bytes);
    match HostPubkey::try_find_program_address(&[b"counter"], &program) {
        Some((key, _bump)) => Some(Pubkey { bytes: key.to_bytes() }),
        None => None,
    }
}

/// Whether `key` is the counter account's derived address for `program_id`.
pub fn is_counter_address(key: &Pubkey, program_id: &Pubkey) -> (r: bool)
    ensures
        r == (derived_counter_address(program_id@) == Some(key@)),
{
    match find_counter_address(program_id) {
        Some(k) => k.equals(key),
        None => false,
    }
}

} // verus!
