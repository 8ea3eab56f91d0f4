//! The response snapshot codec and the response builders.

use zero2prod::snapshot::{
    decode_response, encode_response, see_other, CodecError, HeaderPair, ResponseSnapshot,
    StoredResponse,
};

fn sample_snapshot() -> ResponseSnapshot {
    ResponseSnapshot {
        status: 303,
        headers: vec![HeaderPair { name: "Location".to_owned(), value: "/admin/newsletters".to_owned() }],
        body: vec![104, 105],
    }
}

#[test]
fn snapshot_survives_the_round_trip_through_its_stored_row() {
    let snap = sample_snapshot();
    let stored = encode_response(&snap);
    assert_eq!(stored.status_code, 303);
    let back = decode_response(&stored).unwrap();
    assert_eq!(back.status, snap.status);
    assert_eq!(back.headers.len(), 1);
    assert_eq!(back.headers[0].name, "Location");
    assert_eq!(back.headers[0].value, "/admin/newsletters");
    assert_eq!(back.body, vec![104, 105]);
}

#[test]
fn decode_rejects_a_row_with_an_impossible_status() {
    let stored = StoredResponse { status_code: 42, headers: Vec::new(), body: Vec::new() };
    assert!(matches!(decode_response(&stored), Err(CodecError::StatusOutOfRange)));
    let negative = StoredResponse { status_code: -1, headers: Vec::new(), body: Vec::new() };
    assert!(matches!(decode_response(&negative), Err(CodecError::StatusOutOfRange)));
    let too_big = StoredResponse { status_code: 600, headers: Vec::new(), body: Vec::new() };
    assert!(matches!(decode_response(&too_big), Err(CodecError::StatusOutOfRange)));
}

#[test]
fn duplicate_copies_every_part_of_the_snapshot() {
    let snap = sample_snapshot();
    let copy = snap.duplicate();
    assert_eq!(copy.status, snap.status);
    assert_eq!(copy.headers.len(), snap.headers.len());
    assert_eq!(copy.headers[0].name, snap.headers[0].name);
    assert_eq!(copy.headers[0].value, snap.headers[0].value);
    assert_eq!(copy.body, snap.body);
}

#[test]
fn see_other_builds_the_redirect() {
    let r = see_other("/login");
    assert_eq!(r.status, 303);
    assert_eq!(r.headers.len(), 1);
    assert_eq!(r.headers[0].name, "Location");
    assert_eq!(r.headers[0].value, "/login");
    assert!(r.body.is_empty());
}
