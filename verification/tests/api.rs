//! The HTTP surface, exercised through the router: the six routes, their
//! status codes, headers and CBOR bodies, decoded with the real CBOR library.

use std::collections::BTreeMap;

use ciborium::value::Value;

use contractmgr::backend::Backend;
use contractmgr::registry::Registry;
use contractmgr::router::{handle, handle_filtered, handle_read, handle_request, Method, Reply};
use contractmgr::contract::Availability;

fn decode(bytes: &[u8]) -> Value {
    ciborium::de::from_reader(bytes).unwrap()
}

fn field<'a>(v: &'a Value, name: &str) -> &'a Value {
    match v {
        Value::Map(entries) => {
            for (k, val) in entries {
                if let Value::Text(t) = k {
                    if t == name {
                        return val;
                    }
                }
            }
            panic!("missing field {}", name);
        }
        _ => panic!("not a map"),
    }
}

fn uuid_of(v: &Value) -> u128 {
    match field(v, "uuid") {
        Value::Bytes(b) => {
            let mut a = [0u8; 16];
            a.copy_from_slice(b);
            u128::from_be_bytes(a)
        }
        _ => panic!("uuid is not a byte string"),
    }
}

fn backend_of(v: &Value) -> String {
    match field(v, "backend") {
        Value::Text(t) => t.clone(),
        _ => panic!("backend is not text"),
    }
}

fn items(v: &Value) -> &Vec<Value> {
    match v {
        Value::Array(a) => a,
        _ => panic!("not an array"),
    }
}

fn get(reg: &mut Registry, path: &str) -> Reply {
    handle_request(reg, Method::Get, path.as_bytes())
}

fn post(reg: &mut Registry, path: &str) -> Reply {
    handle_request(reg, Method::Post, path.as_bytes())
}

fn delete(reg: &mut Registry, path: &str) -> Reply {
    handle_request(reg, Method::Delete, path.as_bytes())
}

#[test]
fn get_contracts() {
    let mut reg = Registry::new();
    let response = get(&mut reg, "/contracts");

    assert_eq!(response.status, 200);
    assert_eq!(response.content_type.as_deref(), Some("application/cbor"));

    let contracts = decode(&response.body);
    let backends: Vec<String> = items(&contracts).iter().map(backend_of).collect();
    assert_eq!(backends.len(), 4);
    assert!(backends.contains(&"nil".to_string()));
    assert!(backends.contains(&"kvm".to_string()));
    assert!(backends.contains(&"sgx".to_string()));
    assert!(backends.contains(&"sev".to_string()));
}

#[test]
fn get_contracts_uuid() {
    let mut reg = Registry::new();
    let response = get(&mut reg, "/contracts");
    let contracts = decode(&response.body);

    for contract in items(&contracts) {
        let cuuid = uuid_of(contract);
        let url = format!("/contracts/{}", uuid::Uuid::from_u128(cuuid));
        let response = get(&mut reg, &url);

        assert_eq!(response.status, 200);
        assert_eq!(response.content_type.as_deref(), Some("application/cbor"));

        let body = decode(&response.body);
        assert_eq!(uuid_of(&body), cuuid);
        assert_eq!(backend_of(&body), backend_of(contract));
    }
}

#[test]
fn post_contracts_uuid() {
    let mut reg = Registry::new();
    let response = get(&mut reg, "/contracts");
    let contracts = decode(&response.body);

    for contract in items(&contracts) {
        let cuuid = uuid_of(contract);
        let url = format!("/contracts/{}", uuid::Uuid::from_u128(cuuid));
        let response = post(&mut reg, &url);

        assert_eq!(response.status, 201);
        assert_eq!(response.content_type.as_deref(), Some("application/cbor"));
        let location = response.location.clone().unwrap();

        let keep = decode(&response.body);
        let keep_contract = field(&keep, "contract");
        assert_eq!(uuid_of(keep_contract), cuuid);
        assert_eq!(backend_of(keep_contract), backend_of(contract));
        assert_eq!(
            location,
            format!("/keeps/{}", uuid::Uuid::from_u128(uuid_of(&keep)))
        );
    }
}

#[test]
fn get_keeps() {
    let mut reg = Registry::new();
    let response = get(&mut reg, "/contracts");
    let contracts = decode(&response.body);

    let mut keeps: BTreeMap<u128, Value> = BTreeMap::new();
    for contract in items(&contracts) {
        let url = format!("/contracts/{}", uuid::Uuid::from_u128(uuid_of(contract)));
        let response = post(&mut reg, &url);
        let keep = decode(&response.body);
        keeps.insert(uuid_of(&keep), keep);
    }

    let response = get(&mut reg, "/keeps");
    assert_eq!(response.status, 200);
    assert_eq!(response.content_type.as_deref(), Some("application/cbor"));

    let unknown = decode(&response.body);
    let unknown: BTreeMap<u128, Value> = items(&unknown)
        .iter()
        .map(|k| (uuid_of(k), k.clone()))
        .collect();
    assert_eq!(keeps, unknown);
}

#[test]
fn get_keeps_uuid() {
    let mut reg = Registry::new();
    let response = get(&mut reg, "/contracts");
    let contracts = decode(&response.body);

    for contract in items(&contracts) {
        let url = format!("/contracts/{}", uuid::Uuid::from_u128(uuid_of(contract)));
        let response = post(&mut reg, &url);
        let keep = decode(&response.body);

        let url = format!("/keeps/{}", uuid::Uuid::from_u128(uuid_of(&keep)));
        let response = get(&mut reg, &url);
        assert_eq!(response.status, 200);
        assert_eq!(response.content_type.as_deref(), Some("application/cbor"));

        let unknown = decode(&response.body);
        assert_eq!(keep, unknown);
    }
}

#[test]
fn delete_keeps_uuid() {
    let mut reg = Registry::new();
    let response = get(&mut reg, "/contracts");
    let contracts = decode(&response.body);

    for contract in items(&contracts) {
        let url = format!("/contracts/{}", uuid::Uuid::from_u128(uuid_of(contract)));
        let response = post(&mut reg, &url);
        let keep = decode(&response.body);

        let url = format!("/keeps/{}", uuid::Uuid::from_u128(uuid_of(&keep)));
        let response = delete(&mut reg, &url);
        assert_eq!(response.status, 200);
    }

    let response = get(&mut reg, "/keeps");
    let unknown = decode(&response.body);
    assert_eq!(items(&unknown).len(), 0);
}

#[test]
fn api_get_contracts() {
    let avail = Availability { kvm: false, sev: false, sgx: false };
    let response = handle_filtered(&avail, Method::Get, "/contracts".as_bytes());

    assert_eq!(response.status, 200);
    assert_eq!(response.content_type.as_deref(), Some("application/cbor"));

    let contracts = decode(&response.body);
    let backends: Vec<String> = items(&contracts).iter().map(backend_of).collect();
    assert!(!backends.is_empty());
}

#[test]
fn api_get_contracts_uuid() {
    let avail = Availability { kvm: true, sev: false, sgx: false };
    let response = handle_filtered(&avail, Method::Get, "/contracts".as_bytes());
    let contracts = decode(&response.body);

    for contract in items(&contracts) {
        let url = format!("/contracts/{}", uuid::Uuid::from_u128(uuid_of(contract)));
        let response = handle_filtered(&avail, Method::Get, url.as_bytes());

        assert_eq!(response.status, 200);
        assert_eq!(response.content_type.as_deref(), Some("application/cbor"));
        assert_eq!(*contract, decode(&response.body));
    }
}

#[test]
fn filtered_serves_only_supported() {
    let avail = Availability { kvm: false, sev: true, sgx: false };
    let response = handle_filtered(&avail, Method::Get, "/contracts".as_bytes());
    let contracts = decode(&response.body);
    let backends: Vec<String> = items(&contracts).iter().map(backend_of).collect();
    assert_eq!(backends, vec!["nil".to_string(), "sev".to_string()]);

    let kvm_id = "0afa438e-acaa-4158-9518-ad59256def34";
    let response = handle_filtered(&avail, Method::Get, format!("/contracts/{}", kvm_id).as_bytes());
    assert_eq!(response.status, 404);

    let response = handle_filtered(&avail, Method::Post, format!("/contracts/{}", kvm_id).as_bytes());
    assert_eq!(response.status, 404);
}

#[test]
fn unknown_contract_rejected() {
    let mut reg = Registry::new();
    let absent = "99999999-9999-4999-9999-999999999999";

    let response = get(&mut reg, &format!("/contracts/{}", absent));
    assert_eq!(response.status, 404);
    assert_eq!(response.content_type, None);
    assert_eq!(response.body.len(), 0);

    let response = post(&mut reg, &format!("/contracts/{}", absent));
    assert_eq!(response.status, 404);

    let response = get(&mut reg, "/keeps");
    assert_eq!(items(&decode(&response.body)).len(), 0);
}

#[test]
fn unmatched_routes_not_found() {
    let mut reg = Registry::new();
    assert_eq!(get(&mut reg, "/nothing").status, 404);
    assert_eq!(get(&mut reg, "/contracts/not-a-uuid").status, 404);
    assert_eq!(get(&mut reg, "/contracts/").status, 404);
    assert_eq!(post(&mut reg, "/contracts").status, 404);
    assert_eq!(post(&mut reg, "/keeps").status, 404);
    assert_eq!(delete(&mut reg, "/contracts/e6234733-513a-4883-981a-bfa972fa706b").status, 404);
    assert_eq!(
        handle_request(&mut reg, Method::Other, "/contracts".as_bytes()).status,
        404
    );
    let response = get(&mut reg, "/keeps");
    assert_eq!(items(&decode(&response.body)).len(), 0);
}

#[test]
fn deterministic_claim_uses_given_id() {
    let mut reg = Registry::new();
    let fresh: u128 = 0x0123_4567_89ab_cdef_0123_4567_89ab_cdef;
    let path = "/contracts/e6234733-513a-4883-981a-bfa972fa706b";
    let response = handle(&mut reg, Method::Post, path.as_bytes(), fresh);

    assert_eq!(response.status, 201);
    assert_eq!(
        response.location.as_deref(),
        Some("/keeps/01234567-89ab-cdef-0123-456789abcdef")
    );
    let keep = decode(&response.body);
    assert_eq!(uuid_of(&keep), fresh);
}

#[test]
fn scenario_nil_claim() {
    let mut reg = Registry::new();

    let response = post(&mut reg, "/contracts/e6234733-513a-4883-981a-bfa972fa706b");
    assert_eq!(response.status, 201);
    let location = response.location.clone().unwrap();
    let keep = decode(&response.body);
    let kuuid = uuid_of(&keep);
    assert_eq!(location, format!("/keeps/{}", uuid::Uuid::from_u128(kuuid)));
    assert_eq!(backend_of(field(&keep, "contract")), "nil");

    let response = get(&mut reg, "/keeps");
    assert_eq!(response.status, 200);
    let listed = decode(&response.body);
    assert_eq!(items(&listed).len(), 1);
    assert_eq!(uuid_of(&items(&listed)[0]), kuuid);

    let response = delete(&mut reg, &format!("/keeps/{}", uuid::Uuid::from_u128(kuuid)));
    assert_eq!(response.status, 200);
    assert_eq!(response.body.len(), 0);

    let response = get(&mut reg, "/keeps");
    assert_eq!(items(&decode(&response.body)).len(), 0);

    let response = delete(&mut reg, &format!("/keeps/{}", uuid::Uuid::from_u128(kuuid)));
    assert_eq!(response.status, 404);
}

#[test]
fn read_path_answers_like_the_router() {
    let mut reg = Registry::new();
    let claimed = post(&mut reg, "/contracts/e6234733-513a-4883-981a-bfa972fa706b");
    let kuuid = uuid_of(&decode(&claimed.body));
    let keep_path = format!("/keeps/{}", uuid::Uuid::from_u128(kuuid));

    for path in ["/contracts", "/keeps", keep_path.as_str(), "/nothing"] {
        let read = handle_read(&reg, Method::Get, path.as_bytes()).unwrap();
        let full = get(&mut reg, path);
        assert_eq!(read.status, full.status, "{}", path);
        assert_eq!(read.content_type, full.content_type, "{}", path);
        assert_eq!(read.body, full.body, "{}", path);
    }

    assert!(handle_read(&reg, Method::Post, "/contracts".as_bytes()).is_none());
    assert!(handle_read(&reg, Method::Delete, keep_path.as_bytes()).is_none());
    assert!(handle_read(&reg, Method::Other, "/keeps".as_bytes()).is_none());
}

#[test]
fn concurrent_style_claims_distinct() {
    let mut reg = Registry::new();
    let path = "/contracts/e6234733-513a-4883-981a-bfa972fa706b";
    let n = 16;
    let mut seen: Vec<u128> = Vec::new();
    for _ in 0..n {
        let response = post(&mut reg, path);
        assert_eq!(response.status, 201);
        let kuuid = uuid_of(&decode(&response.body));
        assert!(!seen.contains(&kuuid));
        seen.push(kuuid);
    }
    let response = get(&mut reg, "/keeps");
    let listed = decode(&response.body);
    assert_eq!(items(&listed).len(), n);
    for k in items(&listed) {
        assert!(seen.contains(&uuid_of(k)));
    }
    assert_eq!(Backend::Nil.as_str(), "nil");
}
