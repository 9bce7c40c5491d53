//! Endpoint configuration of the cross-chain token, and the shared
//! amount check of the token interface.
//!
//! The host contract persists one [`ConfigData`] per token endpoint; the
//! accessors below are its read and write surface.  Identities are
//! carried as plain address and network-address strings.

use vstd::prelude::*;

verus! {

/// The stored configuration of a cross-chain token endpoint.
pub struct ConfigData {
    /// Address of the protocol-verifier contract.
    pub xcall_manager: String,
    /// Address of the local message router.
    pub xcall: String,
    /// Network identifier of this chain.
    pub nid: String,
    /// Network address of the remote hub token.
    pub icon_bnusd: String,
    /// Address allowed to upgrade the endpoint.
    pub upgrade_authority: String,
}

/// Replace the protocol-verifier address.
pub fn set_xcall_manager(config: &mut ConfigData, value: String)
    ensures
        *final(config) == (ConfigData { xcall_manager: value, ..*old(config) }),
{
    config.xcall_manager = value;
}

/// Replace the message-router address.
pub fn set_xcall(config: &mut ConfigData, value: String)
    ensures
        *final(config) == (ConfigData { xcall: value, ..*old(config) }),
{
    config.xcall = value;
}

/// Replace the network identifier.
pub fn set_nid(config: &mut ConfigData, value: String)
    ensures
        *final(config) == (ConfigData { nid: value, ..*old(config) }),
{
    config.nid = value;
}

/// Replace the remote hub token address.
pub fn set_icon_bnusd(config: &mut ConfigData, value: String)
    ensures
        *final(config) == (ConfigData { icon_bnusd: value, ..*old(config) }),
{
    config.icon_bnusd = value;
}

/// Replace the upgrade authority.
pub fn set_upgrade_authority(config: &mut ConfigData, value: String)
    ensures
        *final(config) == (ConfigData { upgrade_authority: value, ..*old(config) }),
{
    config.upgrade_authority = value;
}

/// The protocol-verifier address.
pub fn get_xcall_manager(config: &ConfigData) -> (r: String)
    ensures
        r@ == config.xcall_manager@,
{
    config.xcall_manager.clone()
}

/// The message-router address.
pub fn get_xcall(config: &ConfigData) -> (r: String)
    ensures
        r@ == config.xcall@,
{
    config.xcall.clone()
}

/// The network identifier of this chain.
pub fn get_nid(config: &ConfigData) -> (r: String)
    ensures
        r@ == config.nid@,
{
    config.nid.clone()
}

/// The remote hub token address.
pub fn get_icon_bnusd(config: &ConfigData) -> (r: String)
    ensures
        r@ == config.icon_bnusd@,
{
    config.icon_bnusd.clone()
}

/// The upgrade authority.
pub fn get_upgrade_authority(config: &ConfigData) -> (r: String)
    ensures
        r@ == config.upgrade_authority@,
{
    config.upgrade_authority.clone()
}

/// Whether `amount` is acceptable to the token interface: the token
/// primitive works on signed 128-bit amounts and takes no negative one.
pub fn check_nonnegative_amount(amount: i128) -> (r: bool)
    ensures
        r == (amount >= 0),
{
    amount >= 0
}

} // verus!
