//! Tests of the runtime model: ownership tracking, outcome mapping, the
//! transfer-syntax table, and deep copies of the sample schema.

use asn1_bindings::codec::begin_decode;
use asn1_bindings::codec::decode_outcome;
use asn1_bindings::codec::destruct_action;
use asn1_bindings::codec::encode_outcome;
use asn1_bindings::codec::AllocMethod;
use asn1_bindings::codec::Context;
use asn1_bindings::codec::DecoderError;
use asn1_bindings::codec::DestructAction;
use asn1_bindings::codec::EncodingRules;
use asn1_bindings::codec::OCTET_STRING;
use asn1_bindings::sample::Breed;
use asn1_bindings::sample::Dog;
use asn1_bindings::sample::Dog_records;
use asn1_bindings::sample::Food_PR;
use asn1_bindings::sample::Record;

// Deep-copy test
#[test]
fn clone() {
    // Lets use a random Dog for testing
    let mut dog = Dog::default();

    dog.name.fill("Fido");
    dog.canSwim = 0;
    dog.age = 9;
    dog.breed = Breed::labrador as i64;

    dog.favouriteFood.present = Food_PR::wet;
    dog.favouriteFood.choice.wet.brand.fill("Yummy");
    dog.favouriteFood.choice.wet.moisturePercentage = 80;
    dog.favouriteFood.choice.wet.priceKg = 12;

    let mut records = Dog_records::default();
    records.list.count = 2;
    records.list.size = 16;

    let mut record0 = Record::default();
    record0.description.fill("Found a bone");
    record0.date.fill("20220905220600.000");
    let mut record1 = Record::default();
    record1.description.fill("Went to the doctor");
    record1.date.fill("20231106210629.456");

    let mut arr: Vec<Record> = Vec::with_capacity(2);
    arr.push(record0);
    arr.push(record1);

    records.list.array = arr;
    dog.records = records;

    let clone = dog.clone();

    assert_eq!(dog.age, clone.age);
    assert_eq!(dog.breed, clone.breed);
    assert_eq!(dog.favouriteFood.present, clone.favouriteFood.present);
    assert_eq!(
        dog.favouriteFood.choice.wet.moisturePercentage,
        clone.favouriteFood.choice.wet.moisturePercentage
    );
}

#[test]
fn duplicate_is_independent_of_original() {
    let mut dog = Dog::default();
    dog.name.fill("Fido");
    dog.age = 9;
    dog.favouriteFood.present = Food_PR::wet;
    dog.favouriteFood.choice.wet.moisturePercentage = 80;
    dog.records.list.array = vec![Record::default()];
    dog.records.list.count = 1;

    let mut duplicate = dog.duplicate();
    assert_eq!(dog, duplicate);

    duplicate.age = 10;
    duplicate.name.fill("Rex");
    duplicate.favouriteFood.present = Food_PR::dry;
    duplicate.favouriteFood.choice.wet.moisturePercentage = 5;

    // Mutating the duplicate leaves the original untouched.
    assert_eq!(dog.age, 9);
    assert_eq!(dog.name.buf, b"Fido".to_vec());
    assert_eq!(dog.favouriteFood.present, Food_PR::wet);
    assert_eq!(dog.favouriteFood.choice.wet.moisturePercentage, 80);
}

#[test]
fn fill_points_at_the_given_bytes() {
    let mut os = OCTET_STRING::default();
    assert_eq!(os.buf, Vec::<u8>::new());
    assert_eq!(os.size, 0);
    os.fill("Fido");
    assert_eq!(os.buf, b"Fido".to_vec());
    assert_eq!(os.size, 4);
    os.fill("");
    assert_eq!(os.buf, Vec::<u8>::new());
    assert_eq!(os.size, 0);
}

#[test]
fn alloc_method_codes() {
    assert_eq!(AllocMethod::application.code(), 0);
    assert_eq!(AllocMethod::native.code(), 1);
    assert_eq!(AllocMethod::from_code(0), AllocMethod::application);
    assert_eq!(AllocMethod::from_code(1), AllocMethod::native);
}

#[test]
fn destruction_releases_only_native_allocations() {
    let application = Context { alloc_method: 0 };
    assert_eq!(destruct_action(&application), DestructAction::retain);
    let native = Context { alloc_method: 1 };
    assert_eq!(destruct_action(&native), DestructAction::release_underlying);
}

#[test]
fn decode_marks_native_before_any_outcome() {
    // A fresh instance is application-owned.
    let mut ctx = Context::default();
    assert_eq!(ctx.alloc_method, 0);

    // The flag flips before the native decoder runs, whatever it held.
    begin_decode(&mut ctx);
    assert_eq!(ctx.alloc_method, 1);

    // Even when the decode then fails, destruction releases.
    let outcome = decode_outcome(2, 0);
    assert_eq!(outcome, Err(DecoderError::failure));
    assert_eq!(destruct_action(&ctx), DestructAction::release_underlying);

    // A second decode keeps the flag set.
    begin_decode(&mut ctx);
    assert_eq!(ctx.alloc_method, 1);
}

#[test]
fn decoder_error_from_native_codes() {
    assert!(matches!(DecoderError::from_u32(1), DecoderError::want_more));
    assert!(matches!(DecoderError::from_u32(2), DecoderError::failure));
}

#[test]
fn decode_outcome_mapping() {
    assert_eq!(decode_outcome(0, 42), Ok(42));
    assert_eq!(decode_outcome(1, 0), Err(DecoderError::want_more));
    assert_eq!(decode_outcome(2, 7), Err(DecoderError::failure));
}

#[test]
fn encode_outcome_mapping() {
    assert_eq!(encode_outcome(128, b"Dog".to_vec()), Ok(128));
    assert_eq!(encode_outcome(0, b"Dog".to_vec()), Ok(0));
    assert_eq!(encode_outcome(-1, b"Dog".to_vec()), Err(b"Dog".to_vec()));
}

#[test]
fn transfer_syntax_identifiers() {
    assert_eq!(EncodingRules::ber.numeric(), 3);
    assert_eq!(EncodingRules::der.numeric(), 4);
    assert_eq!(EncodingRules::cer.numeric(), 5);
    assert_eq!(EncodingRules::oer.numeric(), 6);
    assert_eq!(EncodingRules::coer.numeric(), 7);
    assert_eq!(EncodingRules::uper.numeric(), 8);
    assert_eq!(EncodingRules::cuper.numeric(), 9);
    assert_eq!(EncodingRules::aper.numeric(), 10);
    assert_eq!(EncodingRules::caper.numeric(), 11);
    assert_eq!(EncodingRules::xer.numeric(), 12);
    assert_eq!(EncodingRules::cxer.numeric(), 13);
    assert_eq!(EncodingRules::jer.numeric(), 14);
    assert_eq!(EncodingRules::jerm.numeric(), 15);
}

#[test]
fn transfer_syntax_identifiers_are_distinct() {
    let all = [
        EncodingRules::ber,
        EncodingRules::der,
        EncodingRules::cer,
        EncodingRules::oer,
        EncodingRules::coer,
        EncodingRules::uper,
        EncodingRules::cuper,
        EncodingRules::aper,
        EncodingRules::caper,
        EncodingRules::xer,
        EncodingRules::cxer,
        EncodingRules::jer,
        EncodingRules::jerm,
    ];
    for (i, a) in all.iter().enumerate() {
        for (j, b) in all.iter().enumerate() {
            if i != j {
                assert_ne!(a.numeric(), b.numeric());
            }
        }
    }
}
