//! A property registry and attestation ledger.
//!
//! Authorities register property-type schemas, claimants register ownership
//! claims against a type, owners transfer a property whole or split it in two,
//! and an authority attests a claim. The environment supplies the calling
//! account and persists the state; every operation here is a pure state
//! transition that also says which notification the environment should emit.

pub mod claims;
pub mod ids;
pub mod ledger;
pub mod listing;
pub mod records;
pub mod table;

pub use claims::{contains_id, push_unique_id, without_id};
pub use ids::{bytes_eq, copy_bytes, AccountId, Key};
pub use ledger::{Delphi, DelphiView};
pub use listing::{
    append_bytes, id_list_bytes, ptype_list_bytes, CLAIM_SEP, DETAIL_SEP, STATUS_SEP,
    TYPE_FIELD_SEP, TYPE_RECORD_SEP,
};
pub use records::{
    AccountCreated, AccountInfo, Error, Property, PropertyClaimRegistered,
    PropertyDocumentSigned, PropertyTransferred, PropertyType, PropertyTypeRegistered,
};
pub use table::Table;
