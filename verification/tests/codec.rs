use cert_registry::codec::{decode, encode, CertificationExtraMetadata};
use cert_registry::errors::CertError;
use cert_registry::identity::Identity;

fn id(name: &str) -> Identity {
    Identity::new(name.as_bytes().to_vec()).unwrap()
}

#[test]
fn encode_produces_the_wire_text() {
    let p = CertificationExtraMetadata { valid: true, original_recipient_id: id("alice") };
    let bytes = encode(&p);
    assert_eq!(
        String::from_utf8(bytes).unwrap(),
        "{\"valid\":true,\"original_recipient_id\":\"alice\"}"
    );
    let p = CertificationExtraMetadata { valid: false, original_recipient_id: id("bob.near") };
    let bytes = encode(&p);
    assert_eq!(
        String::from_utf8(bytes).unwrap(),
        "{\"valid\":false,\"original_recipient_id\":\"bob.near\"}"
    );
}

#[test]
fn round_trip_returns_the_payload() {
    for name in ["alice", "bob.near", "a-b_c.d9", "x0"] {
        for valid in [true, false] {
            let p = CertificationExtraMetadata { valid, original_recipient_id: id(name) };
            let back = decode(&encode(&p)).unwrap();
            assert_eq!(back.valid, valid);
            assert_eq!(back.original_recipient_id, id(name));
        }
    }
}

#[test]
fn the_wire_text_is_real_json() {
    let p = CertificationExtraMetadata { valid: true, original_recipient_id: id("alice") };
    let v: serde_json::Value = serde_json::from_slice(&encode(&p)).unwrap();
    assert_eq!(v["valid"], serde_json::Value::Bool(true));
    assert_eq!(v["original_recipient_id"], serde_json::Value::String("alice".to_string()));
    let p = CertificationExtraMetadata { valid: false, original_recipient_id: id("bob.near") };
    let v: serde_json::Value = serde_json::from_slice(&encode(&p)).unwrap();
    assert_eq!(v["valid"], serde_json::Value::Bool(false));
    assert_eq!(v["original_recipient_id"], serde_json::Value::String("bob.near".to_string()));
}

#[test]
fn malformed_input_is_a_codec_error() {
    let cases: [&[u8]; 7] = [
        b"",
        b"{}",
        b"{\"valid\":true}",
        b"{\"valid\":yes,\"original_recipient_id\":\"alice\"}",
        b"{\"valid\":true,\"original_recipient_id\":\"al\\\"ce\"}",
        b"{\"valid\":true,\"original_recipient_id\":\"a\"}",
        b"{\"valid\":true,\"original_recipient_id\":\"alice\"",
    ];
    for c in cases {
        assert_eq!(decode(&c.to_vec()).unwrap_err(), CertError::CodecError);
    }
}

#[test]
fn identities_are_validated() {
    assert!(Identity::new(b"alice".to_vec()).is_some());
    assert!(Identity::new(b"a".to_vec()).is_none());
    assert!(Identity::new(b"Alice".to_vec()).is_none());
    assert!(Identity::new(b"al ice".to_vec()).is_none());
    assert!(Identity::new(b"al\"ice".to_vec()).is_none());
    assert!(Identity::new([b'a'; 65].to_vec()).is_none());
    assert!(Identity::new([b'a'; 64].to_vec()).is_some());
}
