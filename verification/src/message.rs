//! The messages of the errors of a round.

use crate::coordinator::OffchainErr;
use vstd::prelude::*;

verus! {

/// The character of a decimal digit.
pub open spec fn digit(d: nat) -> char {
    ((48 + d) as u8) as char
}

/// A number in decimal digits, without leading zeros.
pub open spec fn decimal(n: nat) -> Seq<char>
    decreases n,
{
    if n < 10 {
        seq![digit(n)]
    } else {
        decimal(n / 10).push(digit(n % 10))
    }
}

/// The message of an error.
pub open spec fn message_of(e: OffchainErr) -> Seq<char> {
    match e {
        OffchainErr::NotValidator => "Failed to sign heartbeat"@,
        OffchainErr::NoTaskToExecute => "No task to Execute"@,
        OffchainErr::FailToAcquireLock => "Failed to acquire lock"@,
        OffchainErr::HttpError(code) => "Got an HttpError("@ + decimal(code as nat) + ")"@,
        OffchainErr::FailedSigning => "Failed to sign the result"@,
        OffchainErr::SubmitTransaction(now) => "Failed to submit transaction at block "@ + decimal(
            now as nat,
        ),
        OffchainErr::VerificationFailed => "Failed to verify"@,
    }
}

/// Formats a number with `format!`, which writes an unsigned integer in
/// decimal digits without leading zeros; that is taken on trust.
#[verifier::external_body]
fn decimal_string(n: u64) -> (s: String)
    ensures
        s@ == decimal(n as nat),
{
    format!("{:?}", n)
}

/// Joins two strings with `format!`, which writes the one and then the other;
/// that is taken on trust.
#[verifier::external_body]
fn joined(head: &str, tail: &str) -> (s: String)
    ensures
        s@ == head@ + tail@,
{
    format!("{}{}", head, tail)
}

impl OffchainErr {
    /// The message that says what went wrong.
    pub fn message(&self) -> (text: String)
        ensures
            text@ == message_of(*self),
    {
        match *self {
            OffchainErr::NotValidator => "Failed to sign heartbeat".to_owned(),
            OffchainErr::NoTaskToExecute => "No task to Execute".to_owned(),
            OffchainErr::FailToAcquireLock => "Failed to acquire lock".to_owned(),
            OffchainErr::HttpError(code) => {
                let number = decimal_string(code as u64);
                let opened = joined("Got an HttpError(", number.as_str());
                joined(opened.as_str(), ")")
            },
            OffchainErr::FailedSigning => "Failed to sign the result".to_owned(),
            OffchainErr::SubmitTransaction(now) => {
                let number = decimal_string(now);
                joined("Failed to submit transaction at block ", number.as_str())
            },
            OffchainErr::VerificationFailed => "Failed to verify".to_owned(),
        }
    }
}

} // verus!
