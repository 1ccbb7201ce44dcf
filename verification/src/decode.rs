//! Decoding of one stream message into a market update event.
//!
//! A message is one BSON document with the 32-bit integers `world_id` and
//! `item_id` and the array `listings`, whose elements are documents with the
//! 32-bit integers `price_per_unit` and `quantity` and the boolean `hq`.
//! Further fields are ignored.

use vstd::prelude::*;
use crate::listing::{Listing, MarketUpdateEvent, WILDCARD_ITEM};

verus! {

/// A BSON document, as the `bson` crate holds it.
#[verifier::external_type_specification]
#[verifier::external_body]
pub struct ExDocument(bson::Document);

/// A BSON value, as the `bson` crate holds it.
#[verifier::external_type_specification]
#[verifier::external_body]
pub struct ExBson(bson::Bson);

/// The error of the `bson` crate.
#[verifier::external_type_specification]
#[verifier::external_body]
pub struct ExBsonError(bson::error::Error);

/// The document that the bytes of a message encode, if they encode one.
pub uninterp spec fn decoded_document(bytes: Seq<u8>) -> Option<bson::Document>;

/// The entries of a document whose value is a 32-bit integer, by key.
pub uninterp spec fn int32_entries(doc: bson::Document) -> Map<Seq<char>, i32>;

/// The entries of a document whose value is a boolean, by key.
pub uninterp spec fn bool_entries(doc: bson::Document) -> Map<Seq<char>, bool>;

/// The entries of a document whose value is an array, by key.
pub uninterp spec fn array_entries(doc: bson::Document) -> Map<Seq<char>, Seq<bson::Bson>>;

/// The document that a value is, if it is one.
pub uninterp spec fn embedded_document(value: bson::Bson) -> Option<bson::Document>;

/// Why a message gave no event.
#[derive(Clone, Copy, Debug, PartialEq, Eq, Structural)]
pub enum DecodeError {
    /// The bytes are not one well-formed document.
    Malformed,
    /// There is no 32-bit integer `world_id`.
    MissingWorld,
    /// There is no 32-bit integer `item_id`.
    MissingItem,
    /// The item id is the one that stands for any item.
    WildcardItem,
    /// There is no array `listings`.
    MissingListings,
    /// The element of `listings` at this index is not a listing.
    BadListing(usize),
}

/// The value under a key, if there is one.
pub open spec fn entry<V>(entries: Map<Seq<char>, V>, key: Seq<char>) -> Option<V> {
    if entries.contains_key(key) {
        Some(entries[key])
    } else {
        None
    }
}

/// The listing that the three fields give: there is one where all three are
/// present and neither the price nor the quantity is negative.
pub open spec fn listing_of(price: Option<i32>, quantity: Option<i32>, hq: Option<bool>) -> Option<Listing> {
    match (price, quantity, hq) {
        (Some(p), Some(q), Some(h)) => if p >= 0 && q >= 0 {
            Some(Listing { price_per_unit: p, quantity: q, hq: h })
        } else {
            None
        },
        _ => None,
    }
}

/// The listing that a document gives.
pub open spec fn listing_in(doc: bson::Document) -> Option<Listing> {
    listing_of(
        entry(int32_entries(doc), "price_per_unit"@),
        entry(int32_entries(doc), "quantity"@),
        entry(bool_entries(doc), "hq"@),
    )
}

/// The world and item that the two fields give, or why they give none.
pub open spec fn header_of(world: Option<i32>, item: Option<i32>) -> Result<(i32, i32), DecodeError> {
    match (world, item) {
        (None, _) => Err(DecodeError::MissingWorld),
        (Some(_), None) => Err(DecodeError::MissingItem),
        (Some(w), Some(i)) => if i == WILDCARD_ITEM {
            Err(DecodeError::WildcardItem)
        } else {
            Ok((w, i))
        },
    }
}

/// The world and item that a document gives, or why it gives none.
pub open spec fn header_in(doc: bson::Document) -> Result<(i32, i32), DecodeError> {
    header_of(entry(int32_entries(doc), "world_id"@), entry(int32_entries(doc), "item_id"@))
}

/// The listing that an element of `listings` gives: that of the document
/// that the element is.
pub open spec fn listing_at(value: bson::Bson) -> Option<Listing> {
    match embedded_document(value) {
        Some(doc) => listing_in(doc),
        None => None,
    }
}

/// The listings that the elements give, in order, or the index of the first
/// element that gives none.
pub open spec fn listings_in(items: Seq<bson::Bson>) -> Result<Seq<Listing>, DecodeError>
    decreases items.len(),
{
    if items.len() == 0 {
        Ok(Seq::empty())
    } else {
        match listings_in(items.drop_last()) {
            Err(e) => Err(e),
            Ok(before) => match listing_at(items.last()) {
                Some(listing) => Ok(before.push(listing)),
                None => Err(DecodeError::BadListing((items.len() - 1) as usize)),
            },
        }
    }
}

/// The event that a document gives, as world, item and listings, or why it
/// gives none. The world and the item are looked at first, in this order,
/// then the listings.
pub open spec fn event_in(doc: bson::Document) -> Result<(i32, i32, Seq<Listing>), DecodeError> {
    match header_in(doc) {
        Err(e) => Err(e),
        Ok((world_id, item_id)) => match entry(array_entries(doc), "listings"@) {
            None => Err(DecodeError::MissingListings),
            Some(items) => match listings_in(items) {
                Err(e) => Err(e),
                Ok(listings) => Ok((world_id, item_id, listings)),
            },
        },
    }
}

/// Whether `r` is what the document gives.
pub open spec fn decodes_to(doc: bson::Document, r: Result<MarketUpdateEvent, DecodeError>) -> bool {
    match r {
        Ok(event) => event_in(doc) == Ok::<(i32, i32, Seq<Listing>), DecodeError>(
            (event.world_id, event.item_id, event.listings@),
        ),
        Err(e) => event_in(doc) == Err::<(i32, i32, Seq<Listing>), DecodeError>(e),
    }
}

/// Whether `r` is what the bytes of a message give: what their document
/// gives, or `Malformed` where they encode none.
pub open spec fn message_gives(bytes: Seq<u8>, r: Result<MarketUpdateEvent, DecodeError>) -> bool {
    match decoded_document(bytes) {
        Some(doc) => decodes_to(doc, r),
        None => r == Err::<MarketUpdateEvent, DecodeError>(DecodeError::Malformed),
    }
}

/// Calls `bson::Document::from_reader` on the bytes: the document that they
/// encode, or the crate's error where they encode none. The outcome depends
/// on the bytes alone.
#[verifier::external_body]
fn read_document(data: &[u8]) -> (r: Result<bson::Document, bson::error::Error>)
    ensures
        r is Ok == decoded_document(data@) is Some,
        r matches Ok(doc) ==> decoded_document(data@) == Some(doc),
{
    bson::Document::from_reader(data)
}

/// Calls `bson::Document::get_i32`: the value under the key where it is a
/// 32-bit integer, `None` where the key is absent or holds another type.
#[verifier::external_body]
fn document_i32(doc: &bson::Document, key: &str) -> (r: Option<i32>)
    ensures
        r == entry(int32_entries(*doc), key@),
{
    doc.get_i32(key).ok()
}

/// Calls `bson::Document::get_bool`: the value under the key where it is a
/// boolean, `None` where the key is absent or holds another type.
#[verifier::external_body]
fn document_bool(doc: &bson::Document, key: &str) -> (r: Option<bool>)
    ensures
        r == entry(bool_entries(*doc), key@),
{
    doc.get_bool(key).ok()
}

/// Calls `bson::Document::get_array`: the elements under the key where it
/// holds an array, `None` where the key is absent or holds another type.
#[verifier::external_body]
fn document_array<'a>(doc: &'a bson::Document, key: &str) -> (r: Option<&'a Vec<bson::Bson>>)
    ensures
        r is Some == array_entries(*doc).contains_key(key@),
        r matches Some(items) ==> items@ == array_entries(*doc)[key@],
{
    doc.get_array(key).ok()
}

/// Calls `bson::Bson::as_document`: the document that the value is, `None`
/// where it is of another type.
#[verifier::external_body]
fn value_document<'a>(value: &'a bson::Bson) -> (r: Option<&'a bson::Document>)
    ensures
        r is Some == embedded_document(*value) is Some,
        r matches Some(doc) ==> embedded_document(*value) == Some(*doc),
{
    value.as_document()
}

/// The listing that the three fields give, if they give one.
pub fn listing_from_fields(price: Option<i32>, quantity: Option<i32>, hq: Option<bool>) -> (r: Option<Listing>)
    ensures
        r == listing_of(price, quantity, hq),
{
    match (price, quantity, hq) {
        (Some(p), Some(q), Some(h)) => {
            if p >= 0 && q >= 0 {
                Some(Listing { price_per_unit: p, quantity: q, hq: h })
            } else {
                None
            }
        },
        _ => None,
    }
}

/// The world and item that the two fields give, or why they give none.
pub fn header_from_fields(world: Option<i32>, item: Option<i32>) -> (r: Result<(i32, i32), DecodeError>)
    ensures
        r == header_of(world, item),
{
    match (world, item) {
        (None, _) => Err(DecodeError::MissingWorld),
        (Some(_), None) => Err(DecodeError::MissingItem),
        (Some(w), Some(i)) => {
            if i == WILDCARD_ITEM {
                Err(DecodeError::WildcardItem)
            } else {
                Ok((w, i))
            }
        },
    }
}

/// The listing that a document gives, if it gives one.
pub fn listing_from_document(doc: &bson::Document) -> (r: Option<Listing>)
    ensures
        r == listing_in(*doc),
{
    let price = document_i32(doc, "price_per_unit");
    let quantity = document_i32(doc, "quantity");
    let hq = document_bool(doc, "hq");
    listing_from_fields(price, quantity, hq)
}

/// The listings that the elements of an array give, in order, or the index
/// of the first element that gives none.
pub fn listings_from_array(items: &Vec<bson::Bson>) -> (r: Result<Vec<Listing>, DecodeError>)
    ensures
        match r {
            Ok(listings) => listings_in(items@) == Ok::<Seq<Listing>, DecodeError>(listings@),
            Err(e) => listings_in(items@) == Err::<Seq<Listing>, DecodeError>(e),
        },
        r matches Ok(listings) ==> forall|i: int|
            0 <= i < listings@.len() ==> (#[trigger] listings@[i]).well_formed(),
{
    let mut listings: Vec<Listing> = Vec::new();
    let mut k: usize = 0;
    while k < items.len()
        invariant
            k <= items@.len(),
            listings_in(items@.subrange(0, k as int)) == Ok::<Seq<Listing>, DecodeError>(listings@),
            forall|i: int| 0 <= i < listings@.len() ==> (#[trigger] listings@[i]).well_formed(),
        decreases items.len() - k,
    {
        proof {
            let next = items@.subrange(0, k + 1);
            assert(next.drop_last() =~= items@.subrange(0, k as int));
            assert(next.last() == items@[k as int]);
        }
        let listing = match value_document(&items[k]) {
            Some(doc) => listing_from_document(doc),
            None => None,
        };
        match listing {
            Some(l) => {
                listings.push(l);
            },
            None => {
                proof {
                    bad_listing_stays(items@, k + 1);
                }
                return Err(DecodeError::BadListing(k));
            },
        }
        k = k + 1;
    }
    proof {
        assert(items@.subrange(0, k as int) =~= items@);
    }
    Ok(listings)
}

/// Once an element has given no listing, further elements do not change the
/// outcome.
proof fn bad_listing_stays(items: Seq<bson::Bson>, upto: int)
    requires
        0 <= upto <= items.len(),
        listings_in(items.subrange(0, upto)) is Err,
    ensures
        listings_in(items) == listings_in(items.subrange(0, upto)),
    decreases items.len() - upto,
{
    if upto < items.len() {
        let next = items.subrange(0, upto + 1);
        assert(next.drop_last() =~= items.subrange(0, upto));
        bad_listing_stays(items, upto + 1);
    } else {
        assert(items.subrange(0, upto) =~= items);
    }
}

/// The event that a document gives, or why it gives none. The world and the
/// item are checked first, in this order, then the listings.
pub fn event_from_document(doc: &bson::Document) -> (r: Result<MarketUpdateEvent, DecodeError>)
    ensures
        decodes_to(*doc, r),
        r matches Ok(event) ==> event.well_formed(),
{
    let world = document_i32(doc, "world_id");
    let item = document_i32(doc, "item_id");
    let (world_id, item_id) = match header_from_fields(world, item) {
        Ok(header) => header,
        Err(e) => {
            return Err(e);
        },
    };
    let items = match document_array(doc, "listings") {
        Some(items) => items,
        None => {
            return Err(DecodeError::MissingListings);
        },
    };
    match listings_from_array(items) {
        Ok(listings) => Ok(MarketUpdateEvent { world_id, item_id, listings }),
        Err(e) => Err(e),
    }
}

/// The event that a decoded message gives: that of the document, or
/// `Malformed` where the bytes were no document.
pub fn event_from_outcome(outcome: Result<bson::Document, bson::error::Error>) -> (r: Result<
    MarketUpdateEvent,
    DecodeError,
>)
    ensures
        outcome is Err ==> r == Err::<MarketUpdateEvent, DecodeError>(DecodeError::Malformed),
        outcome matches Ok(doc) ==> decodes_to(doc, r),
        r matches Ok(event) ==> event.well_formed(),
{
    match outcome {
        Ok(doc) => event_from_document(&doc),
        Err(_) => Err(DecodeError::Malformed),
    }
}

/// The event that a message carries, or why it carries none. A message that
/// carries none leaves nothing behind: what the next message gives depends on
/// its own bytes alone.
pub fn parse_event_from_message(data: &[u8]) -> (r: Result<MarketUpdateEvent, DecodeError>)
    ensures
        message_gives(data@, r),
        r matches Ok(event) ==> event.well_formed(),
{
    event_from_outcome(read_document(data))
}

/// What a message gives is determined by its bytes alone: whatever was
/// decoded before, well formed or not, a message that carries an event gives
/// that event, and one that carries none fails for the same reason.
pub proof fn decoding_is_determined(
    bytes: Seq<u8>,
    first: Result<MarketUpdateEvent, DecodeError>,
    second: Result<MarketUpdateEvent, DecodeError>,
)
    requires
        message_gives(bytes, first),
        message_gives(bytes, second),
    ensures
        first is Ok == second is Ok,
        first is Ok ==> first->Ok_0.world_id == second->Ok_0.world_id && first->Ok_0.item_id
            == second->Ok_0.item_id && first->Ok_0.listings@ == second->Ok_0.listings@,
        first is Err ==> first->Err_0 == second->Err_0,
{
}

} // verus!
