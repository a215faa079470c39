//! Output scripts and the addresses that they pay.

use vstd::prelude::*;

verus! {

/// First byte of a script that carries data and can never be spent.
pub const OP_RETURN: u8 = 0x6a;

/// The main-network address that an output script pays, in its usual text
/// form, as the `bitcoin` crate derives it; `None` where the script is of no
/// kind that has an address.
pub uninterp spec fn script_address(script: Seq<u8>) -> Option<Seq<char>>;

/// The view of an optional text.
pub open spec fn text_view(text: Option<String>) -> Option<Seq<char>> {
    match text {
        Some(t) => Some(t@),
        None => None,
    }
}

/// Derives the address of an output script with `bitcoin::Address::from_script`
/// for `Network::Bitcoin`, and prints it with `to_string`.
///
/// Trusted: the address depends on the bytes of the script alone; a script
/// that the crate does not recognise gives `None`.
#[verifier::external_body]
pub(crate) fn address_of_script(script: &[u8]) -> (address: Option<String>)
    ensures
        text_view(address) == script_address(script@),
{
    let script = bitcoin::ScriptBuf::from_bytes(script.to_vec());
    match bitcoin::Address::from_script(script.as_script(), bitcoin::Network::Bitcoin) {
        Ok(address) => Some(address.to_string()),
        Err(_) => None,
    }
}

} // verus!
