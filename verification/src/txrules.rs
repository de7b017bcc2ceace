//! The few facts the daemon takes from the transaction library: the
//! protocol's value floors, and the derivation of a locking script from an
//! address string. Everything else in this crate works on plain values.

use vstd::prelude::*;

verus! {

/// The locking script of outputs paid to the address written `addr`, when
/// `addr` is a well-formed address, and `None` when it is not. Address
/// decoding is a pure function of the characters alone.
pub uninterp spec fn spk_of(addr: Seq<char>) -> Option<Seq<u8>>;

/// Relies on `revault_tx::bitcoin::Address`: `from_str` parses the address
/// string and `script_pubkey` derives the script that pays to it; both
/// depend on the characters of `addr` alone, and `from_str` fails exactly
/// on ill-formed addresses.
#[verifier::external_body]
pub(crate) fn address_script_pubkey(addr: &str) -> (r: Option<Vec<u8>>)
    ensures
        r is Some <==> spk_of(addr@) is Some,
        r matches Some(b) ==> spk_of(addr@) matches Some(s) && b@ == s,
{
    match <revault_tx::bitcoin::Address as core::str::FromStr>::from_str(addr) {
        Ok(a) => Some(a.script_pubkey().to_bytes()),
        Err(_) => None,
    }
}

/// Relies on `revault_tx::transactions::DEPOSIT_MIN_SATS`, the protocol's
/// minimum deposit value: its source sets it to 500_000 sats.
#[verifier::external_body]
pub(crate) fn deposit_min_sats() -> (r: u64)
    ensures
        r == 500_000u64,
{
    revault_tx::transactions::DEPOSIT_MIN_SATS
}

/// Relies on `revault_tx::transactions::UNVAULT_CPFP_VALUE`, the value of
/// the fee-bump output every unvault carries: its source sets it to
/// 30_000 sats.
#[verifier::external_body]
pub(crate) fn unvault_cpfp_value() -> (r: u64)
    ensures
        r == 30_000u64,
{
    revault_tx::transactions::UNVAULT_CPFP_VALUE
}

/// Relies on `COIN_VALUE` of the bitcoin library that `revault_tx`
/// re-exports: one coin is 100_000_000 of the smallest unit.
#[verifier::external_body]
pub(crate) fn coin_value() -> (r: u64)
    ensures
        r == 100_000_000u64,
{
    revault_tx::bitcoin::blockdata::constants::COIN_VALUE
}

/// The value floor under which a deposit is never tracked: outputs below
/// the protocol minimum plus the fee-bump value, with a five percent
/// leeway, can never be economically unwound.
pub fn min_deposit_value() -> (r: u64)
    ensures
        r == 556_500u64,
{
    let floor = deposit_min_sats() + unvault_cpfp_value();
    floor * 105 / 100
}

} // verus!
