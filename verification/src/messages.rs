//! The message model of the bridge core.
//!
//! The external binary codec turns raw payload bytes into one of a closed
//! set of typed operations and back; this crate works on the decoded
//! values only.  [`CallMessage`] is one decoded inbound instruction;
//! [`DispatchAction`] is what the host must do after a successful
//! dispatch; [`Deposit`], [`DepositRevert`] and [`DepositEnvelope`]
//! describe the outbound message an accepted deposit emits.

use vstd::prelude::*;

verus! {

/// One decoded inbound cross-chain instruction.
///
/// A payload whose method name is none of the known ones decodes to
/// `Unknown`; the dispatcher rejects it with `UnknownMessageType` as its
/// explicit arm, not as a fallthrough.
pub enum CallMessage {
    /// Release `amount` of `token_address` from the vault to `to`.
    WithdrawTo { token_address: String, to: String, amount: u128 },
    /// Bounce-back of a failed outbound deposit: return `amount` of
    /// `token_address` to `to`.
    DepositRevert { token_address: String, to: String, amount: u128 },
    /// Replace the configured protocol sets.
    ConfigureProtocols { sources: Vec<String>, destinations: Vec<String> },
    /// Forward `data` as an arbitrary call to `contract_address`.
    Execute { contract_address: String, data: Vec<u8> },
    /// A method name the dispatcher does not know.
    Unknown,
}

/// What the host contract layer must perform after a successful
/// dispatch.  Every state change the dispatcher itself owns has already
/// been applied when an action is returned.
pub enum DispatchAction {
    /// Transfer `amount` of `token_address` from the vault to `to`
    /// through the token primitive.
    Withdraw { token_address: String, to: String, amount: u128 },
    /// Forward `data` to `contract_address` as a host-level call.
    Forward { contract_address: String, data: Vec<u8> },
    /// The protocol configuration was replaced; nothing moves.
    Reconfigured,
}

/// The outbound deposit notification sent to the remote asset manager.
pub struct Deposit {
    /// The deposited token.
    pub token_address: String,
    /// The depositor.
    pub from: String,
    /// Remote receiver, or empty when the depositor keeps the claim.
    pub to: String,
    /// The deposited amount.
    pub amount: u128,
    /// Opaque application payload carried with the deposit.
    pub data: Vec<u8>,
}

/// The rollback payload of a deposit: if the remote side rejects it, the
/// funds go back to `to`.
pub struct DepositRevert {
    /// The deposited token.
    pub token_address: String,
    /// The depositor the funds return to.
    pub to: String,
    /// The amount to return.
    pub amount: u128,
}

/// Everything the outbound transport needs to send one deposit: the
/// encoded-to-be message and rollback, the protocol route, and the remote
/// destination identity.
pub struct DepositEnvelope {
    /// The deposit notification to encode and send.
    pub message: Deposit,
    /// The rollback payload travelling with it.
    pub rollback: DepositRevert,
    /// Protocols that must attest the message.
    pub sources: Vec<String>,
    /// Remote identifiers the message is routed through.
    pub destinations: Vec<String>,
    /// The remote asset manager the message is addressed to.
    pub destination: String,
}

} // verus!
