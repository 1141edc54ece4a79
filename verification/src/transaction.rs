//! Signed value-transfer records and their canonical signing message.

use vstd::prelude::*;

use crate::clock::now_epoch_seconds;
use crate::text::{spec_dec_u64, push_dec_u64, string_push};
use crate::wallet::{spec_verify_signature, verify_signature};

verus! {

/// A signed value transfer: who pays whom how much, when, and the sender's
/// signature over the canonical message of those fields.
#[derive(Debug, Clone, PartialEq, Eq)]
pub struct Transaction {
    pub sender: String,
    pub recipient: String,
    pub amount: u64,
    pub signature: String,
    pub timestamp: u64,
}

/// The canonical signing message: sender, recipient, decimal amount and
/// decimal timestamp, joined by colons.
pub open spec fn spec_tx_message(
    sender: Seq<char>,
    recipient: Seq<char>,
    amount: u64,
    timestamp: u64,
) -> Seq<char> {
    sender + seq![':'] + recipient + seq![':'] + spec_dec_u64(amount as nat) + seq![':']
        + spec_dec_u64(timestamp as nat)
}

/// Builds the canonical signing message of a record.
pub fn tx_message(sender: &str, recipient: &str, amount: u64, timestamp: u64) -> (r: String)
    ensures
        r@ == spec_tx_message(sender@, recipient@, amount, timestamp),
{
    let mut m = String::new();
    m.append(sender);
    string_push(&mut m, ':');
    m.append(recipient);
    string_push(&mut m, ':');
    push_dec_u64(&mut m, amount);
    string_push(&mut m, ':');
    push_dec_u64(&mut m, timestamp);
    proof {
        assert(m@ =~= spec_tx_message(sender@, recipient@, amount, timestamp));
    }
    m
}

impl Transaction {
    /// Assembles a record from its parts, as given.
    pub fn new(
        sender: &str,
        recipient: &str,
        amount: u64,
        signature: &str,
        timestamp: u64,
    ) -> (t: Transaction)
        ensures
            t.sender@ == sender@,
            t.recipient@ == recipient@,
            t.amount == amount,
            t.signature@ == signature@,
            t.timestamp == timestamp,
    {
        Transaction {
            sender: sender.to_owned(),
            recipient: recipient.to_owned(),
            amount,
            signature: signature.to_owned(),
            timestamp,
        }
    }

    /// Signs the canonical message for the pair and amount at the current
    /// time with the caller's signing capability, and assembles the record.
    pub fn create<F: Fn(&str) -> String>(
        sender: &str,
        recipient: &str,
        amount: u64,
        sign_fn: F,
    ) -> (t: Transaction)
        requires
            forall|m: &str| #[trigger] call_requires(sign_fn, (m,)),
        ensures
            t.sender@ == sender@,
            t.recipient@ == recipient@,
            t.amount == amount,
            exists|m: &str, s: String|
                m@ == spec_tx_message(sender@, recipient@, amount, t.timestamp)
                    && #[trigger] call_ensures(sign_fn, (m,), s) && t.signature@ == s@,
    {
        let timestamp = now_epoch_seconds();
        let message = tx_message(sender, recipient, amount, timestamp);
        let signature = sign_fn(message.as_str());
        Transaction::new(sender, recipient, amount, signature.as_str(), timestamp)
    }

    /// Whether the stored signature is a valid signature by the sender's key
    /// over the record's canonical message.
    pub fn is_valid(&self) -> (r: bool)
        ensures
            r == spec_verify_signature(
                self.sender@,
                spec_tx_message(self.sender@, self.recipient@, self.amount, self.timestamp),
                self.signature@,
            ),
    {
        let message = tx_message(
            self.sender.as_str(),
            self.recipient.as_str(),
            self.amount,
            self.timestamp,
        );
        verify_signature(self.sender.as_str(), message.as_str(), self.signature.as_str())
    }
}

} // verus!
