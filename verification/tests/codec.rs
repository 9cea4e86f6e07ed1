//! The wire encoding, held against the real CBOR library: the bytes the
//! library emits must be exactly what the CBOR serializer produces for the
//! same data, and must decode back to the same values.

use ciborium::value::Value;

use contractmgr::backend::Backend;
use contractmgr::cbor::{encode_contract, encode_contract_list, encode_keep, encode_keep_list};
use contractmgr::contract::Contract;
use contractmgr::registry::Keep;

fn contract_value(c: &Contract) -> Value {
    Value::Map(vec![
        (
            Value::Text("uuid".to_string()),
            Value::Bytes(c.uuid.to_be_bytes().to_vec()),
        ),
        (
            Value::Text("backend".to_string()),
            Value::Text(c.backend.as_str().to_string()),
        ),
    ])
}

fn keep_value(k: &Keep) -> Value {
    Value::Map(vec![
        (
            Value::Text("uuid".to_string()),
            Value::Bytes(k.uuid.to_be_bytes().to_vec()),
        ),
        (Value::Text("contract".to_string()), contract_value(&k.contract)),
    ])
}

fn reference_bytes(v: &Value) -> Vec<u8> {
    let mut out = Vec::new();
    ciborium::ser::into_writer(v, &mut out).unwrap();
    out
}

fn sample_contract() -> Contract {
    Contract {
        uuid: 0xe6234733_513a_4883_981a_bfa972fa706b,
        backend: Backend::Nil,
    }
}

#[test]
fn contract_bytes_match_reference() {
    for backend in [Backend::Nil, Backend::Kvm, Backend::Sev, Backend::Sgx] {
        let c = Contract { uuid: 0x0afa438e_acaa_4158_9518_ad59256def34, backend };
        assert_eq!(encode_contract(&c), reference_bytes(&contract_value(&c)));
    }
}

#[test]
fn keep_bytes_match_reference() {
    let k = Keep { uuid: 0x31a41b53_cb9e_447b_bfa2_bfb8e6e42ff9, contract: sample_contract() };
    assert_eq!(encode_keep(&k), reference_bytes(&keep_value(&k)));
}

#[test]
fn contract_list_bytes_match_reference() {
    let cs = vec![
        sample_contract(),
        Contract { uuid: 0x0afa438e_acaa_4158_9518_ad59256def34, backend: Backend::Kvm },
    ];
    let reference = reference_bytes(&Value::Array(cs.iter().map(contract_value).collect()));
    assert_eq!(encode_contract_list(&cs), reference);

    let empty: Vec<Contract> = Vec::new();
    let reference = reference_bytes(&Value::Array(Vec::new()));
    assert_eq!(encode_contract_list(&empty), reference);
}

#[test]
fn keep_list_bytes_match_reference() {
    let mut ks = Vec::new();
    for i in 0..30u128 {
        ks.push(Keep { uuid: i * 0x1_0000_0001, contract: sample_contract() });
    }
    let reference = reference_bytes(&Value::Array(ks.iter().map(keep_value).collect()));
    assert_eq!(encode_keep_list(&ks), reference);
}

#[test]
fn contract_exact_bytes() {
    let expected: Vec<u8> = vec![
        0xa2, // map of two entries
        0x64, b'u', b'u', b'i', b'd', // first key
        0x50, 0xe6, 0x23, 0x47, 0x33, 0x51, 0x3a, 0x48, 0x83, 0x98, 0x1a, 0xbf, 0xa9, 0x72, 0xfa,
        0x70, 0x6b, // 16-byte identifier
        0x67, b'b', b'a', b'c', b'k', b'e', b'n', b'd', // second key
        0x63, b'n', b'i', b'l', // backend label
    ];
    assert_eq!(encode_contract(&sample_contract()), expected);
}

#[test]
fn identifier_bytes_match_uuid_crate() {
    let id: u128 = 0xea392851_3435_42d3_a4ad_c4e5e5c6c4c6;
    let c = Contract { uuid: id, backend: Backend::Sgx };
    let encoded = encode_contract(&c);
    let as_bytes = uuid::Uuid::from_u128(id);
    assert_eq!(&encoded[7..23], as_bytes.as_bytes());
}

#[test]
fn uuid_serde_is_bytes_in_cbor() {
    let id = uuid::Uuid::from_u128(0xe6234733_513a_4883_981a_bfa972fa706b);
    let mut out = Vec::new();
    ciborium::ser::into_writer(&id, &mut out).unwrap();
    let mut expected = vec![0x50u8];
    expected.extend_from_slice(id.as_bytes());
    assert_eq!(out, expected);
}
