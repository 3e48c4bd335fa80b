//! Plain records that the front end shares with the pool: descriptions of
//! tokens and assets, transaction receipts, and provider errors.
use vstd::prelude::*;

verus! {

/// A token as the front end shows it.
#[derive(Debug, Clone, PartialEq)]
pub struct Token {
    pub name: &'static str,
    pub ticker: &'static str,
    pub icon: &'static str,
}

/// An asset that a pool holds, with its ledger identifier as text.
#[derive(Clone, Default, PartialEq)]
pub struct Asset {
    pub symbol: String,
    pub name: String,
    pub alkane_id: String,
    pub decimals: u8,
}

/// Whether a submitted transaction went through.
#[derive(Debug, Clone, Copy, PartialEq, Eq, Structural)]
pub struct TxReceipt {
    pub success: bool,
}

/// An error reported by a provider: a short code and a message.
#[derive(Debug)]
pub struct DzlError {
    pub code: String,
    pub message: String,
}

impl DzlError {
    pub fn new(code: &str, message: String) -> (r: DzlError)
        ensures
            r.code@ == code@,
            r.message@ == message@,
    {
        proof {
            broadcast use vstd::string::to_string_from_display_ensures_for_str;
        }
        DzlError { code: code.to_string(), message }
    }
}

} // verus!
