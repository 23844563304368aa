//! The admission gate: what a vote must pass before it may be counted.

use crate::codec::{receipt_encoding, tag_encoding};
use crate::crypto::{sr25519_accepts, sr25519_verify};
use crate::identity::{AuthorityId, Signature, TaskId};
use crate::model::ModuleView;
use crate::registry::Module;
use crate::types::VerificationReceipt;
use vstd::prelude::*;
use vstd::string::StringSliceAdditionalSpecFns;

verus! {

/// The code of the refusal of a vote whose sender saw an authority set of
/// another size than the current one.
pub const INVALID_VALIDATORS_LEN: u8 = 10;

/// For how many blocks an admitted vote stays valid.
pub const VOTE_LONGEVITY: u64 = 5;

/// Where a transaction came from.
#[derive(Clone, Copy, Debug, PartialEq, Eq)]
pub enum TransactionSource {
    /// It stands in a block already.
    InBlock,
    /// This node made it.
    Local,
    /// Another node sent it.
    External,
}

/// Why a transaction is not admitted.
#[derive(Clone, Copy, Debug, PartialEq, Eq)]
pub enum InvalidTransaction {
    /// The call is not one that may come unsigned.
    Call,
    /// The transaction is not valid yet.
    Future,
    /// The proof that the transaction carries does not hold.
    BadProof,
    /// Another reason, by its code.
    Custom(u8),
}

/// The mathematical content of a [`ValidTransaction`].
#[verifier::ext_equal]
pub struct ValidTransactionView {
    /// Its priority against other transactions.
    pub priority: u64,
    /// The tags that must have been provided before it.
    pub requires: Seq<Seq<u8>>,
    /// The tags that it provides.
    pub provides: Seq<Seq<u8>>,
    /// For how many blocks it stays valid.
    pub longevity: u64,
    /// Whether it is passed on to other nodes.
    pub propagate: bool,
}

/// What the pool is told of an admitted transaction.
#[derive(Clone, Debug, PartialEq, Eq)]
pub struct ValidTransaction {
    /// Its priority against other transactions.
    pub priority: u64,
    /// The tags that must have been provided before it.
    pub requires: Vec<Vec<u8>>,
    /// The tags that it provides. Of two transactions with one tag the pool
    /// keeps one.
    pub provides: Vec<Vec<u8>>,
    /// For how many blocks it stays valid.
    pub longevity: u64,
    /// Whether it is passed on to other nodes.
    pub propagate: bool,
}

impl View for ValidTransaction {
    type V = ValidTransactionView;

    open spec fn view(&self) -> ValidTransactionView {
        ValidTransactionView {
            priority: self.priority,
            requires: self.requires.deep_view(),
            provides: self.provides.deep_view(),
            longevity: self.longevity,
            propagate: self.propagate,
        }
    }
}

/// A call to the registry.
#[derive(Clone, Debug, PartialEq, Eq)]
pub enum Call {
    /// Register a task.
    CreateTask { program_hash: TaskId, inputs: Vec<u128>, outputs: Vec<u128>, proof_id: Vec<u8> },
    /// Count a vote.
    SubmitVerification { receipt: VerificationReceipt, signature: Signature },
}

/// Why the checks that need no signature turn a vote down, if they do: it was
/// made at a block that has not come yet, its sender saw an authority set of
/// another size, or no authority stands at its sender's place.
pub open spec fn early_rejection(
    state: ModuleView,
    now: u64,
    receipt: VerificationReceipt,
) -> Option<InvalidTransaction> {
    if receipt.submit_at > now {
        Some(InvalidTransaction::Future)
    } else if state.keys.len() != receipt.validators_len {
        Some(InvalidTransaction::Custom(INVALID_VALIDATORS_LEN))
    } else if receipt.auth_index >= state.keys.len() {
        Some(InvalidTransaction::BadProof)
    } else {
        None
    }
}

/// Why a vote is turned down, if it is. The signature is looked at last.
pub open spec fn rejection(
    state: ModuleView,
    now: u64,
    receipt: VerificationReceipt,
    signature_valid: bool,
) -> Option<InvalidTransaction> {
    if early_rejection(state, now, receipt) is Some {
        early_rejection(state, now, receipt)
    } else if !signature_valid {
        Some(InvalidTransaction::BadProof)
    } else {
        None
    }
}

/// Whether the vote carries the signature of the authority at its sender's place.
pub open spec fn signed_by_sender(
    state: ModuleView,
    receipt: VerificationReceipt,
    signature: Signature,
) -> bool {
    sr25519_accepts(signature@, receipt_encoding(receipt), state.keys[receipt.auth_index as int]@)
}

/// What the pool is told of an admitted vote: the configured priority, one tag
/// made of the task and the voter, a validity of a few blocks, and that it is
/// passed on.
pub open spec fn admission(
    state: ModuleView,
    prefix: Seq<u8>,
    receipt: VerificationReceipt,
) -> ValidTransactionView {
    ValidTransactionView {
        priority: state.config.unsigned_priority,
        requires: Seq::empty(),
        provides: seq![
            tag_encoding(prefix, receipt.program_hash@, state.keys[receipt.auth_index as int]@),
        ],
        longevity: VOTE_LONGEVITY,
        propagate: true,
    }
}

/// The bytes of the prefix that marks the tags of votes.
pub open spec fn tag_prefix() -> Seq<u8> {
    "StarksVerifier".spec_bytes()
}

/// Builds the description of a valid transaction with the builder of
/// `sp_runtime::transaction_validity::ValidTransaction`: `with_tag_prefix`,
/// `priority`, `and_provides`, `longevity`, `propagate`. The builder sets the
/// three values as given and requires no tag. The one tag that it provides is
/// the encoding of the prefix and the pair of identities: for a prefix shorter
/// than 64 bytes, one byte with four times its length, its bytes, and the
/// bytes of the two identities. That is taken on trust.
#[verifier::external_body]
fn build_valid_transaction(
    prefix: &'static str,
    priority: u64,
    first: &[u8; 32],
    second: &[u8; 32],
    longevity: u64,
    propagate: bool,
) -> (valid: ValidTransaction)
    requires
        prefix.spec_bytes().len() < 64,
    ensures
        valid@ == (ValidTransactionView {
            priority,
            requires: Seq::empty(),
            provides: seq![tag_encoding(prefix.spec_bytes(), first@, second@)],
            longevity,
            propagate,
        }),
{
    let built: sp_runtime::transaction_validity::ValidTransaction =
        sp_runtime::transaction_validity::ValidTransaction::with_tag_prefix(prefix)
        .priority(priority).and_provides((first, second)).longevity(longevity).propagate(
        propagate,
    ).into();
    ValidTransaction {
        priority: built.priority,
        requires: built.requires,
        provides: built.provides,
        longevity: built.longevity,
        propagate: built.propagate,
    }
}

impl Module {
    /// Makes the checks on a vote that need no signature, cheapest first, and
    /// gives the key that the signature has to be checked against.
    pub fn check_receipt(&self, now: u64, receipt: &VerificationReceipt) -> (res: Result<
        AuthorityId,
        InvalidTransaction,
    >)
        requires
            self.wf(),
        ensures
            match res {
                Ok(key) => early_rejection(self@, now, *receipt) is None && key
                    == self@.keys[receipt.auth_index as int],
                Err(e) => early_rejection(self@, now, *receipt) == Some(e),
            },
    {
        if receipt.submit_at > now {
            return Err(InvalidTransaction::Future);
        }
        let keys = self.keys();
        if self.authority_len() != receipt.validators_len {
            return Err(InvalidTransaction::Custom(INVALID_VALIDATORS_LEN));
        }
        if receipt.auth_index as usize >= keys.len() {
            return Err(InvalidTransaction::BadProof);
        }
        Ok(keys[receipt.auth_index as usize])
    }

    /// Admits a vote that has passed the checks without signature, if its
    /// signature was found valid, and says what the pool is told of it.
    pub fn accept_checked(
        &self,
        receipt: &VerificationReceipt,
        authority: &AuthorityId,
        signature_valid: bool,
    ) -> (res: Result<ValidTransaction, InvalidTransaction>)
        requires
            self.wf(),
            receipt.auth_index < self@.keys.len(),
            *authority == self@.keys[receipt.auth_index as int],
        ensures
            match res {
                Ok(valid) => signature_valid && valid@ == admission(
                    self@,
                    tag_prefix(),
                    *receipt,
                ),
                Err(e) => !signature_valid && e == InvalidTransaction::BadProof,
            },
    {
        if !signature_valid {
            return Err(InvalidTransaction::BadProof);
        }
        let prefix = "StarksVerifier";
        proof {
            reveal_strlit("StarksVerifier");
            assert(vstd::string::is_ascii(prefix));
            vstd::string::is_ascii_spec_bytes(prefix);
        }
        Ok(
            build_valid_transaction(
                prefix,
                self.config().unsigned_priority,
                &receipt.program_hash,
                authority,
                VOTE_LONGEVITY,
                true,
            ),
        )
    }

    /// The admission gate. Only a vote may come unsigned. A vote is admitted
    /// if it was not made at a block that is still to come, its sender saw the
    /// authority set at its current size, an authority stands at the sender's
    /// place, and the vote carries that authority's signature. Admission changes
    /// nothing in the registry.
    pub fn validate_unsigned(&self, _source: TransactionSource, call: &Call, now: u64) -> (res:
        Result<ValidTransaction, InvalidTransaction>)
        requires
            self.wf(),
        ensures
            match *call {
                Call::SubmitVerification { receipt, signature } => match res {
                    Ok(valid) => {
                        &&& early_rejection(self@, now, receipt) is None
                        &&& signed_by_sender(self@, receipt, signature)
                        &&& valid@ == admission(self@, tag_prefix(), receipt)
                    },
                    Err(e) => {
                        &&& early_rejection(self@, now, receipt) is Some || !signed_by_sender(
                            self@,
                            receipt,
                            signature,
                        )
                        &&& early_rejection(self@, now, receipt) is Some ==> early_rejection(
                            self@,
                            now,
                            receipt,
                        ) == Some(e)
                        &&& early_rejection(self@, now, receipt) is None ==> e
                            == InvalidTransaction::BadProof
                    },
                },
                Call::CreateTask { .. } => res == Err::<ValidTransaction, InvalidTransaction>(
                    InvalidTransaction::Call,
                ),
            },
    {
        match call {
            Call::SubmitVerification { receipt, signature } => {
                let authority = match self.check_receipt(now, receipt) {
                    Ok(authority) => authority,
                    Err(e) => {
                        return Err(e);
                    },
                };
                let encoded = receipt.encode();
                let signature_valid = sr25519_verify(signature, encoded.as_slice(), &authority);
                self.accept_checked(receipt, &authority, signature_valid)
            },
            Call::CreateTask { .. } => Err(InvalidTransaction::Call),
        }
    }
}

} // verus!
