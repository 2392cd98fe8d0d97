use crate::ids::AccountId;
use vstd::prelude::*;

verus! {

/// Profile data of a registered account.
pub struct AccountInfo {
    /// Display name of the account holder.
    pub name: Vec<u8>,
    /// When the account was registered, as text.
    pub timestamp: Vec<u8>,
}

/// An account profile as plain values.
pub struct AccountInfoView {
    pub name: Seq<u8>,
    pub timestamp: Seq<u8>,
}

impl DeepView for AccountInfo {
    type V = AccountInfoView;

    open spec fn deep_view(&self) -> AccountInfoView {
        AccountInfoView { name: self.name@, timestamp: self.timestamp@ }
    }
}

/// A property-type schema registered by an authority.
pub struct PropertyType {
    /// Id of the property type.
    pub id: Vec<u8>,
    /// Address of the document stating the type's requirements.
    pub address: Vec<u8>,
}

/// A property type as plain values.
pub struct PropertyTypeView {
    pub id: Seq<u8>,
    pub address: Seq<u8>,
}

impl DeepView for PropertyType {
    type V = PropertyTypeView;

    open spec fn deep_view(&self) -> PropertyTypeView {
        PropertyTypeView { id: self.id@, address: self.address@ }
    }
}

/// The canonical ownership record of a property.
pub struct Property {
    /// Current claimer (owner) of the property.
    pub claimer: AccountId,
    /// Address of the document backing the current claim.
    pub property_claim_addr: Vec<u8>,
    /// The property type the property belongs to.
    pub property_type_id: Vec<u8>,
    /// Previous owners, each with the time the property left them.
    pub transfer_history: Vec<(AccountId, Vec<u8>)>,
    /// Time of the attestation and the account that made it. An empty time
    /// means the property is not attested.
    pub assertion: (Vec<u8>, AccountId),
}

/// A property record as plain values; account ids are their bytes.
pub struct PropertyView {
    pub claimer: Seq<u8>,
    pub claim_addr: Seq<u8>,
    pub type_id: Seq<u8>,
    pub history: Seq<(Seq<u8>, Seq<u8>)>,
    pub assertion: (Seq<u8>, Seq<u8>),
}

impl DeepView for Property {
    type V = PropertyView;

    open spec fn deep_view(&self) -> PropertyView {
        PropertyView {
            claimer: self.claimer.deep_view(),
            claim_addr: self.property_claim_addr@,
            type_id: self.property_type_id@,
            history: self.transfer_history.deep_view(),
            assertion: self.assertion.deep_view(),
        }
    }
}

/// The attestation field of a property that nobody has attested yet; by
/// convention it names the current claimer.
pub open spec fn unattested(claimer: Seq<u8>) -> (Seq<u8>, Seq<u8>) {
    (Seq::empty(), claimer)
}

/// The failures of the ledger's operations.
#[derive(Clone, Copy, Debug, PartialEq, Eq, Structural)]
pub enum Error {
    /// A property owner tried to transfer a property to themselves.
    CannotTransferToSelf,
    /// The signer registered property types, but not the one referenced.
    UnauthorizedAccount,
}

/// Notification: an account was registered.
pub struct AccountCreated {
    pub account_id: AccountId,
    pub name: Vec<u8>,
}

/// Notification: an authority registered a property type.
pub struct PropertyTypeRegistered {
    pub account_id: AccountId,
    pub property_type_id: Vec<u8>,
    pub ptype_ipfs_addr: Vec<u8>,
}

/// Notification: a claim to a property was registered.
pub struct PropertyClaimRegistered {
    pub claimer: AccountId,
    pub property_type_id: Vec<u8>,
    pub property_id: Vec<u8>,
}

/// Notification: a property was transferred, whole or in part.
pub struct PropertyTransferred {
    pub sender: AccountId,
    pub recipient: AccountId,
    pub property_id: Vec<u8>,
}

/// Notification: a property was attested.
pub struct PropertyDocumentSigned {
    pub attester: AccountId,
    pub property_id: Vec<u8>,
}

} // verus!
