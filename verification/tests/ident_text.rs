//! Identifier text handling, held against the real uuid crate: formatting
//! must match its hyphenated form, and parsing must agree with its parser on
//! every accepted shape.

use contractmgr::ident::{contract_line, format_hyphenated, format_simple, parse_uuid};
use contractmgr::backend::Backend;
use contractmgr::contract::Contract;

#[test]
fn format_matches_uuid_crate() {
    let ids: Vec<u128> = vec![
        0,
        1,
        0xe6234733_513a_4883_981a_bfa972fa706b,
        u128::MAX,
        0x0afa438e_acaa_4158_9518_ad59256def34,
    ];
    for id in ids {
        let expected = uuid::Uuid::from_u128(id).to_hyphenated().to_string();
        assert_eq!(format_hyphenated(id), expected);
        let expected = uuid::Uuid::from_u128(id).to_simple().to_string();
        assert_eq!(format_simple(id), expected);
    }
}

#[test]
fn format_matches_uuid_crate_random() {
    for _ in 0..64 {
        let u = uuid::Uuid::new_v4();
        assert_eq!(format_hyphenated(u.as_u128()), u.to_hyphenated().to_string());
    }
}

#[test]
fn parse_accepted_shapes() {
    let id: u128 = 0xe6234733_513a_4883_981a_bfa972fa706b;
    let hyphenated = "e6234733-513a-4883-981a-bfa972fa706b";
    let simple = "e6234733513a4883981abfa972fa706b";
    let urn = "urn:uuid:e6234733-513a-4883-981a-bfa972fa706b";
    let upper = "E6234733-513A-4883-981A-BFA972FA706B";
    for text in [hyphenated, simple, urn, upper] {
        assert_eq!(parse_uuid(text.as_bytes()), Some(id), "{}", text);
    }
}

#[test]
fn parse_rejected_shapes() {
    let rejected = [
        "",
        "e6234733",
        "e6234733-513a-4883-981a-bfa972fa706", // one digit short
        "e6234733-513a-4883-981a-bfa972fa706bb", // one long
        "e6234733x513a-4883-981a-bfa972fa706b", // hyphen replaced
        "e623473-3513a-4883-981a-bfa972fa706b", // shifted group
        "e6234733-513a-4883-981a-bfa972fa706g", // non-hex digit
        "g6234733513a4883981abfa972fa706b",    // non-hex in simple form
        "urn:uuid:e6234733513a4883981abfa972fa706b", // urn with simple body
        "nrn:uuid:e6234733-513a-4883-981a-bfa972fa706b", // bad prefix
        "not-a-uuid",
    ];
    for text in rejected {
        assert_eq!(parse_uuid(text.as_bytes()), None, "{}", text);
    }
}

#[test]
fn parse_agrees_with_uuid_crate() {
    let inputs = [
        "e6234733-513a-4883-981a-bfa972fa706b",
        "E6234733-513A-4883-981A-BFA972FA706B",
        "e6234733513a4883981abfa972fa706b",
        "urn:uuid:e6234733-513a-4883-981a-bfa972fa706b",
        "00000000-0000-0000-0000-000000000000",
        "ffffffff-ffff-ffff-ffff-ffffffffffff",
        "e6234733-513a-4883-981a-bfa972fa706",
        "e6234733+513a-4883-981a-bfa972fa706b",
        "e62347335-13a-4883-981a-bfa972fa706b",
        "",
        "hello",
    ];
    for text in inputs {
        let reference = uuid::Uuid::parse_str(text).ok().map(|u| u.as_u128());
        assert_eq!(parse_uuid(text.as_bytes()), reference, "{}", text);
    }
}

#[test]
fn parse_inverts_format() {
    for _ in 0..64 {
        let id = uuid::Uuid::new_v4().as_u128();
        assert_eq!(parse_uuid(format_hyphenated(id).as_bytes()), Some(id));
        assert_eq!(parse_uuid(format_simple(id).as_bytes()), Some(id));
    }
}

#[test]
fn contract_line_shape() {
    let c = Contract { uuid: 0xe6234733_513a_4883_981a_bfa972fa706b, backend: Backend::Nil };
    assert_eq!(
        contract_line(&c),
        "e6234733-513a-4883-981a-bfa972fa706b (nil)"
    );
}
