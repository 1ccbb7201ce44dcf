use bson::{Bson, Document};
use market_alerts::decode::{
    header_from_fields, listing_from_document, listing_from_fields, listings_from_array,
    parse_event_from_message, DecodeError,
};
use market_alerts::listing::Listing;

fn listing_doc(price: i32, quantity: i32, hq: bool) -> Document {
    let mut doc = Document::new();
    doc.insert("price_per_unit", price);
    doc.insert("quantity", quantity);
    doc.insert("hq", hq);
    doc.insert("retainer", "someone");
    doc
}

fn event_doc(world_id: i32, item_id: i32, listings: Vec<Document>) -> Document {
    let mut doc = Document::new();
    doc.insert("world_id", world_id);
    doc.insert("item_id", item_id);
    doc.insert("listings", Bson::Array(listings.into_iter().map(Bson::Document).collect()));
    doc
}

fn bytes(doc: &Document) -> Vec<u8> {
    doc.to_vec().expect("a document can be written")
}

#[test]
fn well_formed_message_decodes() {
    let doc = event_doc(74, 5, vec![listing_doc(100, 1, false), listing_doc(90, 3, true)]);
    let event = parse_event_from_message(&bytes(&doc)).expect("the message is well formed");
    assert_eq!(event.world_id, 74);
    assert_eq!(event.item_id, 5);
    assert_eq!(event.listings, vec![Listing::new(100, 1, false), Listing::new(90, 3, true)]);
}

#[test]
fn empty_listings_decode() {
    let event = parse_event_from_message(&bytes(&event_doc(74, 5, Vec::new()))).expect("well formed");
    assert!(event.listings.is_empty());
}

#[test]
fn malformed_bytes_are_rejected() {
    assert_eq!(parse_event_from_message(&[]).unwrap_err(), DecodeError::Malformed);
    assert_eq!(parse_event_from_message(&[1, 2, 3]).unwrap_err(), DecodeError::Malformed);
    assert_eq!(parse_event_from_message(b"not a document at all").unwrap_err(), DecodeError::Malformed);
    let mut cut = bytes(&event_doc(74, 5, vec![listing_doc(100, 1, false)]));
    cut.truncate(cut.len() - 3);
    assert_eq!(parse_event_from_message(&cut).unwrap_err(), DecodeError::Malformed);
}

#[test]
fn malformed_message_does_not_affect_the_next() {
    let good = bytes(&event_doc(74, 5, vec![listing_doc(100, 1, false)]));
    let before = parse_event_from_message(&good).expect("well formed");
    assert!(parse_event_from_message(&[0xff, 0x00, 0x13]).is_err());
    let after = parse_event_from_message(&good).expect("well formed");
    assert_eq!(before.world_id, after.world_id);
    assert_eq!(before.item_id, after.item_id);
    assert_eq!(before.listings, after.listings);
}

#[test]
fn missing_or_mistyped_header_fields_are_rejected() {
    let mut no_world = event_doc(74, 5, Vec::new());
    no_world.remove("world_id");
    assert_eq!(parse_event_from_message(&bytes(&no_world)).unwrap_err(), DecodeError::MissingWorld);

    let mut no_item = event_doc(74, 5, Vec::new());
    no_item.remove("item_id");
    assert_eq!(parse_event_from_message(&bytes(&no_item)).unwrap_err(), DecodeError::MissingItem);

    let mut text_world = event_doc(74, 5, Vec::new());
    text_world.insert("world_id", "74");
    assert_eq!(parse_event_from_message(&bytes(&text_world)).unwrap_err(), DecodeError::MissingWorld);

    let mut wide_item = event_doc(74, 5, Vec::new());
    wide_item.insert("item_id", 5i64);
    assert_eq!(parse_event_from_message(&bytes(&wide_item)).unwrap_err(), DecodeError::MissingItem);

    let wildcard = event_doc(74, -1, Vec::new());
    assert_eq!(parse_event_from_message(&bytes(&wildcard)).unwrap_err(), DecodeError::WildcardItem);
}

#[test]
fn missing_or_bad_listings_are_rejected() {
    let mut none = event_doc(74, 5, Vec::new());
    none.remove("listings");
    assert_eq!(parse_event_from_message(&bytes(&none)).unwrap_err(), DecodeError::MissingListings);

    let mut not_array = event_doc(74, 5, Vec::new());
    not_array.insert("listings", 3);
    assert_eq!(parse_event_from_message(&bytes(&not_array)).unwrap_err(), DecodeError::MissingListings);

    let mut incomplete = listing_doc(90, 1, false);
    incomplete.remove("hq");
    let doc = event_doc(74, 5, vec![listing_doc(100, 1, false), incomplete]);
    assert_eq!(parse_event_from_message(&bytes(&doc)).unwrap_err(), DecodeError::BadListing(1));

    let negative = event_doc(74, 5, vec![listing_doc(-100, 1, false)]);
    assert_eq!(parse_event_from_message(&bytes(&negative)).unwrap_err(), DecodeError::BadListing(0));

    let mut scalar = event_doc(74, 5, Vec::new());
    scalar.insert("listings", Bson::Array(vec![Bson::Int32(1)]));
    assert_eq!(parse_event_from_message(&bytes(&scalar)).unwrap_err(), DecodeError::BadListing(0));
}

#[test]
fn listing_fields_are_checked() {
    assert_eq!(listing_from_fields(Some(5), Some(2), Some(true)), Some(Listing::new(5, 2, true)));
    assert_eq!(listing_from_fields(Some(0), Some(0), Some(false)), Some(Listing::new(0, 0, false)));
    assert_eq!(listing_from_fields(None, Some(2), Some(true)), None);
    assert_eq!(listing_from_fields(Some(5), None, Some(true)), None);
    assert_eq!(listing_from_fields(Some(5), Some(2), None), None);
    assert_eq!(listing_from_fields(Some(-5), Some(2), Some(true)), None);
    assert_eq!(listing_from_fields(Some(5), Some(-2), Some(true)), None);
}

#[test]
fn header_fields_are_checked_in_order() {
    assert_eq!(header_from_fields(Some(74), Some(5)), Ok((74, 5)));
    assert_eq!(header_from_fields(None, None), Err(DecodeError::MissingWorld));
    assert_eq!(header_from_fields(None, Some(5)), Err(DecodeError::MissingWorld));
    assert_eq!(header_from_fields(Some(74), None), Err(DecodeError::MissingItem));
    assert_eq!(header_from_fields(Some(74), Some(-1)), Err(DecodeError::WildcardItem));
}

#[test]
fn listing_document_is_read_by_key() {
    assert_eq!(listing_from_document(&listing_doc(7, 8, true)), Some(Listing::new(7, 8, true)));
    let mut swapped = Document::new();
    swapped.insert("quantity", 7);
    swapped.insert("price_per_unit", 8);
    swapped.insert("hq", false);
    assert_eq!(listing_from_document(&swapped), Some(Listing::new(8, 7, false)));
    let items = vec![Bson::Document(listing_doc(1, 2, false)), Bson::Document(listing_doc(3, 4, true))];
    assert_eq!(listings_from_array(&items), Ok(vec![Listing::new(1, 2, false), Listing::new(3, 4, true)]));
}
