use crate::ids::lemma_bytes_deep_view;
use crate::records::{PropertyType, PropertyTypeView};
use vstd::prelude::*;

verus! {

broadcast use lemma_bytes_deep_view;

/// `~`: separates a property type's id from its requirements address.
pub const TYPE_FIELD_SEP: u8 = 0x7e;

/// `#`: closes each record of a property-type listing (written three times).
pub const TYPE_RECORD_SEP: u8 = 0x23;

/// `#`: closes each id of a claim listing.
pub const CLAIM_SEP: u8 = 0x23;

/// `$`: separates the fields of a property detail, and closes each previous
/// owner of an attestation status.
pub const DETAIL_SEP: u8 = 0x24;

/// `@`: separates the owners of an attestation status from its timestamp.
pub const STATUS_SEP: u8 = 0x40;

/// `id~address###` for each property type, in order.
pub open spec fn ptype_listing(ts: Seq<PropertyTypeView>) -> Seq<u8>
    decreases ts.len(),
{
    if ts.len() == 0 {
        Seq::empty()
    } else {
        ptype_listing(ts.drop_last()) + ts.last().id + seq![TYPE_FIELD_SEP] + ts.last().address
            + seq![TYPE_RECORD_SEP, TYPE_RECORD_SEP, TYPE_RECORD_SEP]
    }
}

/// `id#` for each id, in order.
pub open spec fn id_listing(ids: Seq<Seq<u8>>) -> Seq<u8>
    decreases ids.len(),
{
    if ids.len() == 0 {
        Seq::empty()
    } else {
        id_listing(ids.drop_last()) + ids.last() + seq![CLAIM_SEP]
    }
}

/// Appends `src` to `out`.
pub fn append_bytes(out: &mut Vec<u8>, src: &Vec<u8>)
    ensures
        final(out)@ == old(out)@ + src@,
{
    let ghost start = out@;
    let mut i: usize = 0;
    while i < src.len()
        invariant
            0 <= i <= src@.len(),
            out@ == start + src@.take(i as int),
        decreases src@.len() - i,
    {
        out.push(src[i]);
        assert(src@.take(i + 1) =~= src@.take(i as int).push(src@[i as int]));
        i = i + 1;
    }
    assert(src@.take(src@.len() as int) =~= src@);
}

/// The listing of a sequence of property types.
pub fn ptype_list_bytes(types: &Vec<PropertyType>) -> (r: Vec<u8>)
    ensures
        r@ == ptype_listing(types.deep_view()),
{
    let ghost all = types.deep_view();
    let mut out: Vec<u8> = Vec::new();
    let mut i: usize = 0;
    while i < types.len()
        invariant
            0 <= i <= types@.len(),
            all == types.deep_view(),
            out@ == ptype_listing(all.take(i as int)),
        decreases types@.len() - i,
    {
        assert(all.take(i + 1).drop_last() =~= all.take(i as int));
        let ghost before = out@;
        append_bytes(&mut out, &types[i].id);
        out.push(TYPE_FIELD_SEP);
        append_bytes(&mut out, &types[i].address);
        out.push(TYPE_RECORD_SEP);
        out.push(TYPE_RECORD_SEP);
        out.push(TYPE_RECORD_SEP);
        assert(out@ =~= before + all[i as int].id + seq![TYPE_FIELD_SEP] + all[i as int].address
            + seq![TYPE_RECORD_SEP, TYPE_RECORD_SEP, TYPE_RECORD_SEP]);
        i = i + 1;
    }
    assert(all.take(types@.len() as int) =~= all);
    out
}

/// The listing of a sequence of ids.
pub fn id_list_bytes(ids: &Vec<Vec<u8>>) -> (r: Vec<u8>)
    ensures
        r@ == id_listing(ids.deep_view()),
{
    let ghost all = ids.deep_view();
    let mut out: Vec<u8> = Vec::new();
    let mut i: usize = 0;
    while i < ids.len()
        invariant
            0 <= i <= ids@.len(),
            all == ids.deep_view(),
            out@ == id_listing(all.take(i as int)),
        decreases ids@.len() - i,
    {
        assert(all.take(i + 1).drop_last() =~= all.take(i as int));
        let ghost before = out@;
        append_bytes(&mut out, &ids[i]);
        out.push(CLAIM_SEP);
        assert(out@ =~= before + all[i as int] + seq![CLAIM_SEP]);
        i = i + 1;
    }
    assert(all.take(ids@.len() as int) =~= all);
    out
}

} // verus!
