use crate::claims::{
    lemma_push_unique_once, lemma_without, push_unique, push_unique_id, without, without_id,
};
use crate::ids::{copy_bytes, lemma_bytes_deep_view, AccountId, Key};
use crate::listing::{
    append_bytes, id_list_bytes, id_listing, ptype_list_bytes, ptype_listing, DETAIL_SEP,
    STATUS_SEP,
};
use crate::records::{
    unattested, AccountCreated, AccountInfo, AccountInfoView, Error, Property,
    PropertyClaimRegistered, PropertyDocumentSigned, PropertyTransferred, PropertyType,
    PropertyTypeRegistered, PropertyTypeView, PropertyView,
};
use crate::table::Table;
use vstd::prelude::*;

verus! {

broadcast use lemma_bytes_deep_view;

/// The ledger's state as maps: accounts and the external form of their ids
/// by account id, property types by registering authority, live property ids
/// by property type (the claim index), and property records by id.
pub struct DelphiView {
    pub accounts: Map<Seq<u8>, AccountInfoView>,
    pub account_ids: Map<Seq<u8>, Seq<u8>>,
    pub registrations: Map<Seq<u8>, Seq<PropertyTypeView>>,
    pub claims: Map<Seq<u8>, Seq<Seq<u8>>>,
    pub properties: Map<Seq<u8>, PropertyView>,
}

/// The property types that `authority` registered, oldest first.
pub open spec fn types_of(v: DelphiView, authority: Seq<u8>) -> Seq<PropertyTypeView> {
    if v.registrations.contains_key(authority) {
        v.registrations[authority]
    } else {
        Seq::empty()
    }
}

/// The ids that the claim index lists under `type_id`.
pub open spec fn claims_of(v: DelphiView, type_id: Seq<u8>) -> Seq<Seq<u8>> {
    if v.claims.contains_key(type_id) {
        v.claims[type_id]
    } else {
        Seq::empty()
    }
}

/// The external form of an account id, empty for an unknown account.
pub open spec fn id_vec_of(v: DelphiView, account: Seq<u8>) -> Seq<u8> {
    if v.account_ids.contains_key(account) {
        v.account_ids[account]
    } else {
        Seq::empty()
    }
}

/// Whether `signer` may attest a property of type `type_id`: an account
/// that registered no property type at all is not checked; one that did
/// must have registered `type_id`.
pub open spec fn may_attest(v: DelphiView, signer: Seq<u8>, type_id: Seq<u8>) -> bool {
    !v.registrations.contains_key(signer) || exists|i: int|
        0 <= i < v.registrations[signer].len() && #[trigger] v.registrations[signer][i].id
            == type_id
}

/// No claim-index entry lists an id twice.
pub open spec fn claim_index_wf(v: DelphiView) -> bool {
    forall|t: Seq<u8>| #[trigger] v.claims.contains_key(t) ==> v.claims[t].no_duplicates()
}

/// The record of a property after it was transferred whole from `sender`
/// to `recipient`: the sender joins the history and the attestation lapses.
pub open spec fn after_whole_transfer(
    p: PropertyView,
    sender: Seq<u8>,
    recipient: Seq<u8>,
    claim_addr: Seq<u8>,
    time: Seq<u8>,
) -> PropertyView {
    PropertyView {
        claimer: recipient,
        claim_addr,
        type_id: p.type_id,
        history: p.history.push((sender, time)),
        assertion: unattested(recipient),
    }
}

/// One of the two records made by splitting a property: a history holding
/// only the split, and no attestation.
pub open spec fn split_part(
    owner: Seq<u8>,
    claim_addr: Seq<u8>,
    type_id: Seq<u8>,
    sender: Seq<u8>,
    time: Seq<u8>,
) -> PropertyView {
    PropertyView {
        claimer: owner,
        claim_addr,
        type_id,
        history: seq![(sender, time)],
        assertion: unattested(owner),
    }
}

/// A claim-index entry after a split: the old id out, the two new ids in.
pub open spec fn split_claims(
    ids: Seq<Seq<u8>>,
    old_id: Seq<u8>,
    senders_id: Seq<u8>,
    recipients_id: Seq<u8>,
) -> Seq<Seq<u8>> {
    push_unique(push_unique(without(ids, old_id), senders_id), recipients_id)
}

/// The record of a property after `attester` attested it at `time`.
pub open spec fn attested(p: PropertyView, time: Seq<u8>, attester: Seq<u8>) -> PropertyView {
    PropertyView { assertion: (time, attester), ..p }
}

/// `id$` before the fields when the claimer's external id is known, then
/// `claim_addr$type_id`; empty for an unknown property.
pub open spec fn detail_bytes(v: DelphiView, property_id: Seq<u8>) -> Seq<u8> {
    if v.properties.contains_key(property_id) {
        let p = v.properties[property_id];
        let head = if v.account_ids.contains_key(p.claimer) {
            v.account_ids[p.claimer] + seq![DETAIL_SEP]
        } else {
            Seq::empty()
        };
        head + p.claim_addr + seq![DETAIL_SEP] + p.type_id
    } else {
        Seq::empty()
    }
}

/// `owner$` for each previous owner, by external id, in order.
pub open spec fn owners_listing(v: DelphiView, h: Seq<(Seq<u8>, Seq<u8>)>) -> Seq<u8>
    decreases h.len(),
{
    if h.len() == 0 {
        Seq::empty()
    } else {
        owners_listing(v, h.drop_last()) + id_vec_of(v, h.last().0) + seq![DETAIL_SEP]
    }
}

/// The previous owners, then `@` and the attestation time; empty for an
/// unknown property.
pub open spec fn status_bytes(v: DelphiView, property_id: Seq<u8>) -> Seq<u8> {
    if v.properties.contains_key(property_id) {
        let p = v.properties[property_id];
        owners_listing(v, p.history) + seq![STATUS_SEP] + p.assertion.0
    } else {
        Seq::empty()
    }
}

/// The registry: accounts, property types, the claim index and property
/// records.
pub struct Delphi {
    accounts: Table<AccountId, AccountInfo>,
    account_ids: Table<AccountId, Vec<u8>>,
    registrations: Table<AccountId, Vec<PropertyType>>,
    claims: Table<Vec<u8>, Vec<Vec<u8>>>,
    properties: Table<Vec<u8>, Property>,
}

impl View for Delphi {
    type V = DelphiView;

    closed spec fn view(&self) -> DelphiView {
        DelphiView {
            accounts: self.accounts.deep_view(),
            account_ids: self.account_ids.deep_view(),
            registrations: self.registrations.deep_view(),
            claims: self.claims.deep_view(),
            properties: self.properties.deep_view(),
        }
    }
}

/// Whether some type in the list has id `type_id`.
fn has_type(types: &Vec<PropertyType>, type_id: &Vec<u8>) -> (r: bool)
    ensures
        r == exists|i: int| 0 <= i < types@.len() && #[trigger] types.deep_view()[i].id == type_id@,
{
    let mut i: usize = 0;
    while i < types.len()
        invariant
            0 <= i <= types@.len(),
            forall|j: int| 0 <= j < i ==> #[trigger] types.deep_view()[j].id != type_id@,
        decreases types@.len() - i,
    {
        if types[i].id.same(type_id) {
            assert(types.deep_view()[i as int].id == type_id@);
            return true;
        }
        i = i + 1;
    }
    false
}

impl Delphi {
    pub closed spec fn wf(&self) -> bool {
        &&& self.accounts.wf()
        &&& self.account_ids.wf()
        &&& self.registrations.wf()
        &&& self.claims.wf()
        &&& self.properties.wf()
        &&& claim_index_wf(self@)
    }

    /// A well-formed ledger has a claim index without duplicate ids.
    pub proof fn lemma_wf(&self)
        requires
            self.wf(),
        ensures
            claim_index_wf(self@),
    {
    }

    /// An empty registry.
    pub fn new() -> (r: Delphi)
        ensures
            r.wf(),
            r@.accounts == Map::<Seq<u8>, AccountInfoView>::empty(),
            r@.account_ids == Map::<Seq<u8>, Seq<u8>>::empty(),
            r@.registrations == Map::<Seq<u8>, Seq<PropertyTypeView>>::empty(),
            r@.claims == Map::<Seq<u8>, Seq<Seq<u8>>>::empty(),
            r@.properties == Map::<Seq<u8>, PropertyView>::empty(),
    {
        Delphi {
            accounts: Table::new(),
            account_ids: Table::new(),
            registrations: Table::new(),
            claims: Table::new(),
            properties: Table::new(),
        }
    }

    /// Registers `caller` (or re-registers it, overwriting its profile),
    /// together with the external form `account_id` of its id.
    pub fn register_account(
        &mut self,
        caller: AccountId,
        account_id: Vec<u8>,
        name: Vec<u8>,
        timestamp: Vec<u8>,
    ) -> (r: Result<AccountCreated, Error>)
        requires
            old(self).wf(),
        ensures
            final(self).wf(),
            final(self)@.accounts == old(self)@.accounts.insert(
                caller.deep_view(),
                AccountInfoView { name: name@, timestamp: timestamp@ },
            ),
            final(self)@.account_ids == old(self)@.account_ids.insert(
                caller.deep_view(),
                account_id@,
            ),
            final(self)@.registrations == old(self)@.registrations,
            final(self)@.claims == old(self)@.claims,
            final(self)@.properties == old(self)@.properties,
            match r {
                Ok(e) => e.account_id == caller && e.name@ == name@,
                Err(_) => false,
            },
    {
        let event = AccountCreated { account_id: caller, name: copy_bytes(&name) };
        self.accounts.insert(caller, AccountInfo { name, timestamp });
        self.account_ids.insert(caller, account_id);
        assert(self@.claims == old(self)@.claims);
        assert(claim_index_wf(self@));
        Ok(event)
    }

    /// Whether `caller` has registered, with its name (empty if not).
    pub fn account_exists(&self, caller: AccountId) -> (r: (bool, Vec<u8>))
        requires
            self.wf(),
        ensures
            r.0 == self@.accounts.contains_key(caller.deep_view()),
            r.0 ==> r.1@ == self@.accounts[caller.deep_view()].name,
            !r.0 ==> r.1@ == Seq::<u8>::empty(),
    {
        match self.accounts.get(&caller) {
            Some(info) => (true, copy_bytes(&info.name)),
            None => (false, Vec::new()),
        }
    }

    /// Appends a property type to the list of those that `caller` registered.
    /// Ids are not checked for duplicates.
    pub fn register_ptype(
        &mut self,
        caller: AccountId,
        property_type_id: Vec<u8>,
        ptype_ipfs_addr: Vec<u8>,
    ) -> (r: Result<PropertyTypeRegistered, Error>)
        requires
            old(self).wf(),
        ensures
            final(self).wf(),
            final(self)@.registrations == old(self)@.registrations.insert(
                caller.deep_view(),
                types_of(old(self)@, caller.deep_view()).push(
                    PropertyTypeView { id: property_type_id@, address: ptype_ipfs_addr@ },
                ),
            ),
            final(self)@.accounts == old(self)@.accounts,
            final(self)@.account_ids == old(self)@.account_ids,
            final(self)@.claims == old(self)@.claims,
            final(self)@.properties == old(self)@.properties,
            match r {
                Ok(e) => e.account_id == caller && e.property_type_id@ == property_type_id@
                    && e.ptype_ipfs_addr@ == ptype_ipfs_addr@,
                Err(_) => false,
            },
    {
        let ptype = PropertyType {
            id: copy_bytes(&property_type_id),
            address: copy_bytes(&ptype_ipfs_addr),
        };
        let mut types = match self.registrations.remove(&caller) {
            Some(types) => types,
            None => Vec::new(),
        };
        let ghost before = types.deep_view();
        assert(before =~= types_of(old(self)@, caller.deep_view()));
        types.push(ptype);
        assert(types.deep_view() =~= before.push(
            PropertyTypeView { id: property_type_id@, address: ptype_ipfs_addr@ },
        ));
        self.registrations.insert(caller, types);
        assert(self@.registrations =~= old(self)@.registrations.insert(
            caller.deep_view(),
            types_of(old(self)@, caller.deep_view()).push(
                PropertyTypeView { id: property_type_id@, address: ptype_ipfs_addr@ },
            ),
        ));
        assert(self@.claims == old(self)@.claims);
        assert(claim_index_wf(self@));
        Ok(PropertyTypeRegistered { account_id: caller, property_type_id, ptype_ipfs_addr })
    }

    /// The property types that `account_id` registered, as a listing.
    pub fn ptype_documents(&self, account_id: AccountId) -> (r: Vec<u8>)
        requires
            self.wf(),
        ensures
            r@ == ptype_listing(types_of(self@, account_id.deep_view())),
    {
        match self.registrations.get(&account_id) {
            Some(types) => ptype_list_bytes(types),
            None => Vec::new(),
        }
    }

    /// Registers an unattested claim of `caller` to `property_id` under
    /// `property_type_id`, replacing any record under that id, and lists the
    /// id under the type unless it is already listed.
    pub fn register_claim(
        &mut self,
        caller: AccountId,
        property_type_id: Vec<u8>,
        property_id: Vec<u8>,
        claim_ipfs_addr: Vec<u8>,
    ) -> (r: Result<PropertyClaimRegistered, Error>)
        requires
            old(self).wf(),
        ensures
            final(self).wf(),
            final(self)@.claims == old(self)@.claims.insert(
                property_type_id@,
                push_unique(claims_of(old(self)@, property_type_id@), property_id@),
            ),
            final(self)@.properties == old(self)@.properties.insert(
                property_id@,
                PropertyView {
                    claimer: caller.deep_view(),
                    claim_addr: claim_ipfs_addr@,
                    type_id: property_type_id@,
                    history: Seq::empty(),
                    assertion: unattested(caller.deep_view()),
                },
            ),
            final(self)@.accounts == old(self)@.accounts,
            final(self)@.account_ids == old(self)@.account_ids,
            final(self)@.registrations == old(self)@.registrations,
            match r {
                Ok(e) => e.claimer == caller && e.property_type_id@ == property_type_id@
                    && e.property_id@ == property_id@,
                Err(_) => false,
            },
    {
        let property = Property {
            claimer: caller,
            property_claim_addr: claim_ipfs_addr,
            property_type_id: copy_bytes(&property_type_id),
            transfer_history: Vec::new(),
            assertion: (Vec::new(), caller),
        };
        let mut ids = match self.claims.remove(&property_type_id) {
            Some(ids) => ids,
            None => Vec::new(),
        };
        proof {
            let ghost old_ids = claims_of(old(self)@, property_type_id@);
            assert(ids.deep_view() =~= old_ids);
            assert(old_ids.no_duplicates());
            lemma_push_unique_once(old_ids, property_id@);
        }
        push_unique_id(&mut ids, copy_bytes(&property_id));
        self.claims.insert(copy_bytes(&property_type_id), ids);
        self.properties.insert(copy_bytes(&property_id), property);
        proof {
            assert(property.transfer_history.deep_view() =~= Seq::<(Seq<u8>, Seq<u8>)>::empty());
            assert(self@.claims =~= old(self)@.claims.insert(
                property_type_id@,
                push_unique(claims_of(old(self)@, property_type_id@), property_id@),
            ));
        }
        Ok(PropertyClaimRegistered { claimer: caller, property_type_id, property_id })
    }

    /// Transfers the property `property_id` from `caller` to `recipient`.
    ///
    /// With an empty `recipients_claim_ipfs_addr` the property changes hands
    /// whole: same id, new claimer and claim address, the sender appended to
    /// its history, and its attestation lapsed. Otherwise it is split: the old
    /// record and its index entry go, and two unattested records, one for
    /// each party, come under the two new ids, each with a history holding
    /// only the split. A transfer to oneself fails; an unknown property is
    /// left alone and reported as `Ok(None)`.
    pub fn transfer_property(
        &mut self,
        caller: AccountId,
        property_id: Vec<u8>,
        recipient: AccountId,
        senders_claim_ipfs_addr: Vec<u8>,
        senders_property_id: Vec<u8>,
        recipients_claim_ipfs_addr: Vec<u8>,
        recipients_property_id: Vec<u8>,
        time_of_transfer: Vec<u8>,
    ) -> (r: Result<Option<PropertyTransferred>, Error>)
        requires
            old(self).wf(),
        ensures
            final(self).wf(),
            caller.deep_view() == recipient.deep_view() ==> final(self)@ == old(self)@ && match r {
                Err(e) => e == Error::CannotTransferToSelf,
                Ok(_) => false,
            },
            caller.deep_view() != recipient.deep_view() && !old(self)@.properties.contains_key(
                property_id@,
            ) ==> final(self)@ == old(self)@ && r matches Ok(None),
            caller.deep_view() != recipient.deep_view() && old(self)@.properties.contains_key(
                property_id@,
            ) ==> {
                let p = old(self)@.properties[property_id@];
                let t = p.type_id;
                &&& match r {
                    Ok(Some(e)) => e.sender == caller && e.recipient == recipient
                        && e.property_id@ == property_id@,
                    _ => false,
                }
                &&& final(self)@.accounts == old(self)@.accounts
                &&& final(self)@.account_ids == old(self)@.account_ids
                &&& final(self)@.registrations == old(self)@.registrations
                &&& recipients_claim_ipfs_addr@.len() == 0 ==> {
                    &&& final(self)@.properties == old(self)@.properties.insert(
                        property_id@,
                        after_whole_transfer(
                            p,
                            caller.deep_view(),
                            recipient.deep_view(),
                            senders_claim_ipfs_addr@,
                            time_of_transfer@,
                        ),
                    )
                    &&& final(self)@.claims == old(self)@.claims
                    &&& final(self)@.properties[property_id@].history.len() == p.history.len() + 1
                    &&& final(self)@.properties[property_id@].history.subrange(
                        0,
                        p.history.len() as int,
                    ) == p.history
                }
                &&& recipients_claim_ipfs_addr@.len() != 0 ==> {
                    &&& final(self)@.properties == old(self)@.properties.remove(property_id@).insert(
                        senders_property_id@,
                        split_part(
                            caller.deep_view(),
                            senders_claim_ipfs_addr@,
                            t,
                            caller.deep_view(),
                            time_of_transfer@,
                        ),
                    ).insert(
                        recipients_property_id@,
                        split_part(
                            recipient.deep_view(),
                            recipients_claim_ipfs_addr@,
                            t,
                            caller.deep_view(),
                            time_of_transfer@,
                        ),
                    )
                    &&& final(self)@.claims == old(self)@.claims.insert(
                        t,
                        split_claims(
                            claims_of(old(self)@, t),
                            property_id@,
                            senders_property_id@,
                            recipients_property_id@,
                        ),
                    )
                    &&& final(self)@.claims[t].contains(senders_property_id@)
                    &&& final(self)@.claims[t].contains(recipients_property_id@)
                    &&& forall|x: Seq<u8>|
                        x != property_id@ && #[trigger] claims_of(old(self)@, t).contains(x)
                            ==> final(self)@.claims[t].contains(x)
                    &&& property_id@ != senders_property_id@ && property_id@
                        != recipients_property_id@ ==> {
                        &&& !final(self)@.claims[t].contains(property_id@)
                        &&& !final(self)@.properties.contains_key(property_id@)
                    }
                }
            },
    {
        if caller.same(&recipient) {
            return Err(Error::CannotTransferToSelf);
        }
        let taken = self.properties.remove(&property_id);
        let mut property = match taken {
            Some(property) => property,
            None => {
                proof {
                    assert(self@.properties == old(self)@.properties);
                    assert(self@ == old(self)@);
                }
                return Ok(None);
            },
        };
        let ghost p = old(self)@.properties[property_id@];
        let ghost t = p.type_id;
        if recipients_claim_ipfs_addr.len() != 0 {
            let type_id = property.property_type_id;
            let mut ids = match self.claims.remove(&type_id) {
                Some(ids) => without_id(&ids, &property_id),
                None => Vec::new(),
            };
            proof {
                let old_ids = claims_of(old(self)@, t);
                assert(old_ids.no_duplicates());
                lemma_without(old_ids, property_id@);
                assert(ids.deep_view() =~= without(old_ids, property_id@));
                let w = without(old_ids, property_id@);
                lemma_push_unique_once(w, senders_property_id@);
                let w1 = push_unique(w, senders_property_id@);
                lemma_push_unique_once(w1, recipients_property_id@);
                let w2 = push_unique(w1, recipients_property_id@);
                assert(w2.contains(senders_property_id@)) by {
                    let k = choose|k: int| 0 <= k < w1.len() && w1[k] == senders_property_id@;
                    if !w1.contains(recipients_property_id@) {
                        assert(w2[k] == senders_property_id@);
                    }
                }
                assert forall|x: Seq<u8>|
                    x != property_id@ && #[trigger] old_ids.contains(x) implies w2.contains(x) by {
                    assert(w.contains(x));
                    let k = choose|k: int| 0 <= k < w.len() && w[k] == x;
                    if !w.contains(senders_property_id@) {
                        assert(w1[k] == x);
                    }
                    if !w1.contains(recipients_property_id@) {
                        assert(w2[k] == x);
                    }
                }
                if property_id@ != senders_property_id@ && property_id@ != recipients_property_id@ {
                    assert(!w2.contains(property_id@)) by {
                        if w2.contains(property_id@) {
                            let k = choose|k: int| 0 <= k < w2.len() && w2[k] == property_id@;
                            if !w1.contains(recipients_property_id@) && k == w1.len() {
                            } else {
                                assert(w1[k] == property_id@);
                                if !w.contains(senders_property_id@) && k == w.len() {
                                } else {
                                    assert(w[k] == property_id@);
                                }
                            }
                        }
                    }
                }
            }
            push_unique_id(&mut ids, copy_bytes(&senders_property_id));
            push_unique_id(&mut ids, copy_bytes(&recipients_property_id));
            let senders_property = Property {
                claimer: caller,
                property_claim_addr: senders_claim_ipfs_addr,
                property_type_id: copy_bytes(&type_id),
                transfer_history: vec![(caller, copy_bytes(&time_of_transfer))],
                assertion: (Vec::new(), caller),
            };
            let recipients_property = Property {
                claimer: recipient,
                property_claim_addr: recipients_claim_ipfs_addr,
                property_type_id: copy_bytes(&type_id),
                transfer_history: vec![(caller, time_of_transfer)],
                assertion: (Vec::new(), recipient),
            };
            self.claims.insert(type_id, ids);
            self.properties.insert(senders_property_id, senders_property);
            self.properties.insert(recipients_property_id, recipients_property);
            proof {
                assert(senders_property.transfer_history.deep_view() =~= seq![
                    (caller.deep_view(), time_of_transfer@),
                ]);
                assert(recipients_property.transfer_history.deep_view() =~= seq![
                    (caller.deep_view(), time_of_transfer@),
                ]);
                assert(self@.claims =~= old(self)@.claims.insert(
                    t,
                    split_claims(
                        claims_of(old(self)@, t),
                        property_id@,
                        senders_property_id@,
                        recipients_property_id@,
                    ),
                ));
                assert(claim_index_wf(self@));
            }
        } else {
            let ghost h = property.transfer_history.deep_view();
            property.claimer = recipient;
            property.property_claim_addr = senders_claim_ipfs_addr;
            property.transfer_history.push((caller, time_of_transfer));
            property.assertion = (Vec::new(), recipient);
            proof {
                assert(property.transfer_history.deep_view() =~= h.push(
                    (caller.deep_view(), time_of_transfer@),
                ));
                assert(property.assertion.0.deep_view() =~= Seq::<u8>::empty());
            }
            self.properties.insert(copy_bytes(&property_id), property);
            proof {
                assert(self@.properties =~= old(self)@.properties.insert(
                    property_id@,
                    after_whole_transfer(
                        p,
                        caller.deep_view(),
                        recipient.deep_view(),
                        senders_claim_ipfs_addr@,
                        time_of_transfer@,
                    ),
                ));
                assert(p.history.push((caller.deep_view(), time_of_transfer@)).subrange(
                    0,
                    p.history.len() as int,
                ) =~= p.history);
                assert(self@.claims == old(self)@.claims);
                assert(claim_index_wf(self@));
            }
        }
        Ok(Some(PropertyTransferred { sender: caller, recipient, property_id }))
    }

    /// Attests the property `property_id` in the name of `caller` at
    /// `assertion_timestamp`. An account that registered property types but
    /// not `property_type_id` is refused; an unknown property is left alone
    /// and reported as `Ok(None)`.
    pub fn sign_document(
        &mut self,
        caller: AccountId,
        property_id: Vec<u8>,
        property_type_id: Vec<u8>,
        assertion_timestamp: Vec<u8>,
    ) -> (r: Result<Option<PropertyDocumentSigned>, Error>)
        requires
            old(self).wf(),
        ensures
            final(self).wf(),
            !may_attest(old(self)@, caller.deep_view(), property_type_id@) ==> final(self)@ == old(
                self,
            )@ && match r {
                Err(e) => e == Error::UnauthorizedAccount,
                Ok(_) => false,
            },
            may_attest(old(self)@, caller.deep_view(), property_type_id@)
                && !old(self)@.properties.contains_key(property_id@) ==> final(self)@ == old(self)@
                && r matches Ok(None),
            may_attest(old(self)@, caller.deep_view(), property_type_id@)
                && old(self)@.properties.contains_key(property_id@) ==> {
                &&& final(self)@.properties == old(self)@.properties.insert(
                    property_id@,
                    attested(
                        old(self)@.properties[property_id@],
                        assertion_timestamp@,
                        caller.deep_view(),
                    ),
                )
                &&& final(self)@.accounts == old(self)@.accounts
                &&& final(self)@.account_ids == old(self)@.account_ids
                &&& final(self)@.registrations == old(self)@.registrations
                &&& final(self)@.claims == old(self)@.claims
                &&& match r {
                    Ok(Some(e)) => e.attester == caller && e.property_id@ == property_id@,
                    _ => false,
                }
            },
    {
        let authorized = match self.registrations.get(&caller) {
            Some(types) => has_type(types, &property_type_id),
            None => true,
        };
        if !authorized {
            return Err(Error::UnauthorizedAccount);
        }
        let mut property = match self.properties.remove(&property_id) {
            Some(property) => property,
            None => {
                proof {
                    assert(self@.properties == old(self)@.properties);
                    assert(self@ == old(self)@);
                }
                return Ok(None);
            },
        };
        property.assertion = (assertion_timestamp, caller);
        self.properties.insert(copy_bytes(&property_id), property);
        proof {
            assert(self@.properties =~= old(self)@.properties.insert(
                property_id@,
                attested(
                    old(self)@.properties[property_id@],
                    assertion_timestamp@,
                    caller.deep_view(),
                ),
            ));
            assert(self@.claims == old(self)@.claims);
            assert(claim_index_wf(self@));
        }
        Ok(Some(PropertyDocumentSigned { attester: caller, property_id }))
    }

    /// The ids listed under `property_type_id`, as a listing.
    pub fn property_claims(&self, property_type_id: &Vec<u8>) -> (r: Vec<u8>)
        requires
            self.wf(),
        ensures
            r@ == id_listing(claims_of(self@, property_type_id@)),
    {
        match self.claims.get(property_type_id) {
            Some(ids) => id_list_bytes(ids),
            None => Vec::new(),
        }
    }

    /// The record of a property, if it is live.
    pub fn property(&self, property_id: &Vec<u8>) -> (r: Option<&Property>)
        requires
            self.wf(),
        ensures
            match r {
                Some(p) => self@.properties.contains_key(property_id@) && self@.properties[property_id@]
                    == p.deep_view(),
                None => !self@.properties.contains_key(property_id@),
            },
    {
        self.properties.get(property_id)
    }

    /// The external form of an account id, empty for an unknown account.
    pub fn convert_accountid_to_vec(&self, account_id: &AccountId) -> (r: Vec<u8>)
        requires
            self.wf(),
        ensures
            r@ == id_vec_of(self@, account_id.deep_view()),
    {
        match self.account_ids.get(account_id) {
            Some(v) => copy_bytes(v),
            None => Vec::new(),
        }
    }

    /// The claimer's external id, claim address and type id of a property.
    pub fn property_detail(&self, property_id: &Vec<u8>) -> (r: Vec<u8>)
        requires
            self.wf(),
        ensures
            r@ == detail_bytes(self@, property_id@),
    {
        let mut out: Vec<u8> = Vec::new();
        match self.properties.get(property_id) {
            Some(p) => {
                match self.account_ids.get(&p.claimer) {
                    Some(id_vec) => {
                        append_bytes(&mut out, id_vec);
                        out.push(DETAIL_SEP);
                    },
                    None => {},
                }
                append_bytes(&mut out, &p.property_claim_addr);
                out.push(DETAIL_SEP);
                append_bytes(&mut out, &p.property_type_id);
                assert(out@ =~= detail_bytes(self@, property_id@));
            },
            None => {},
        }
        out
    }

    /// The previous owners of a property and the time of its attestation.
    pub fn attestation_status(&self, property_id: &Vec<u8>) -> (r: Vec<u8>)
        requires
            self.wf(),
        ensures
            r@ == status_bytes(self@, property_id@),
    {
        let mut out: Vec<u8> = Vec::new();
        match self.properties.get(property_id) {
            Some(p) => {
                let ghost h = p.transfer_history.deep_view();
                let mut i: usize = 0;
                while i < p.transfer_history.len()
                    invariant
                        self.wf(),
                        0 <= i <= p.transfer_history@.len(),
                        h == p.transfer_history.deep_view(),
                        out@ == owners_listing(self@, h.take(i as int)),
                    decreases p.transfer_history@.len() - i,
                {
                    assert(h.take(i + 1).drop_last() =~= h.take(i as int));
                    let ghost before = out@;
                    let id_vec = self.convert_accountid_to_vec(&p.transfer_history[i].0);
                    append_bytes(&mut out, &id_vec);
                    out.push(DETAIL_SEP);
                    assert(out@ =~= before + id_vec_of(self@, h[i as int].0) + seq![DETAIL_SEP]);
                    i = i + 1;
                }
                assert(h.take(h.len() as int) =~= h);
                out.push(STATUS_SEP);
                append_bytes(&mut out, &p.assertion.0);
            },
            None => {},
        }
        out
    }
}

} // verus!

verus! {

/// An account that registered at least one property type, none of them with
/// id `type_id`, may not attest a property of that type: `sign_document`
/// then fails with `UnauthorizedAccount` and leaves every record, and so
/// every attestation, as it was.
pub proof fn lemma_foreign_type_attestation_refused(
    v: DelphiView,
    signer: Seq<u8>,
    type_id: Seq<u8>,
)
    requires
        types_of(v, signer).len() > 0,
        forall|i: int| 0 <= i < types_of(v, signer).len() ==> #[trigger] types_of(v, signer)[i].id
            != type_id,
    ensures
        !may_attest(v, signer, type_id),
{
    assert(v.registrations.contains_key(signer));
}

/// Registering a claim to the same property id twice under the same type,
/// each time as `register_claim` changes the claim index, leaves that type's
/// entry holding the id exactly once, and the second registration does not
/// change the index.
pub proof fn lemma_duplicate_claim_listed_once(
    s0: DelphiView,
    s1: DelphiView,
    s2: DelphiView,
    type_id: Seq<u8>,
    property_id: Seq<u8>,
)
    requires
        claim_index_wf(s0),
        s1.claims == s0.claims.insert(type_id, push_unique(claims_of(s0, type_id), property_id)),
        s2.claims == s1.claims.insert(type_id, push_unique(claims_of(s1, type_id), property_id)),
    ensures
        s2.claims == s1.claims,
        s2.claims[type_id].contains(property_id),
        forall|i: int, j: int|
            0 <= i < s2.claims[type_id].len() && 0 <= j < s2.claims[type_id].len()
                && s2.claims[type_id][i] == property_id && s2.claims[type_id][j] == property_id
                ==> i == j,
{
    let ids = claims_of(s0, type_id);
    assert(ids.no_duplicates());
    lemma_push_unique_once(ids, property_id);
    assert(claims_of(s1, type_id) == push_unique(ids, property_id));
    assert(s2.claims =~= s1.claims);
}

} // verus!
