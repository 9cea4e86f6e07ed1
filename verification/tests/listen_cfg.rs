//! Socket-origin classification: a configuration string names an inherited
//! descriptor exactly when it is a small non-negative integer; otherwise a
//! leading `/` makes it a path and anything else — negative numbers
//! included — a host:port address.

use contractmgr::listen::{
    adopt_inherited, classify_listen, ListenTarget, ListenerKind, SocketFamily,
};

#[test]
fn descriptor_numbers_win() {
    assert_eq!(classify_listen(b"3"), ListenTarget::Inherited(3));
    assert_eq!(classify_listen(b"0"), ListenTarget::Inherited(0));
    assert_eq!(classify_listen(b"+42"), ListenTarget::Inherited(42));
    assert_eq!(classify_listen(b"2147483647"), ListenTarget::Inherited(i32::MAX));
    assert_eq!(classify_listen(b"0003"), ListenTarget::Inherited(3));
}

#[test]
fn negative_numbers_are_not_descriptors() {
    assert_eq!(classify_listen(b"-1"), ListenTarget::BindAddr);
    assert_eq!(classify_listen(b"-0"), ListenTarget::BindAddr);
    assert_eq!(classify_listen(b"-2147483648"), ListenTarget::BindAddr);
}

#[test]
fn paths_and_addresses() {
    assert_eq!(classify_listen(b"/tmp/sock"), ListenTarget::BindPath);
    assert_eq!(classify_listen(b"/3"), ListenTarget::BindPath);
    assert_eq!(classify_listen(b"127.0.0.1:8080"), ListenTarget::BindAddr);
    assert_eq!(classify_listen(b"localhost:1234"), ListenTarget::BindAddr);
    assert_eq!(classify_listen(b""), ListenTarget::BindAddr);
    assert_eq!(classify_listen(b"12a"), ListenTarget::BindAddr);
    assert_eq!(classify_listen(b"+"), ListenTarget::BindAddr);
    assert_eq!(classify_listen(b"-"), ListenTarget::BindAddr);
    assert_eq!(classify_listen(b"2147483648"), ListenTarget::BindAddr);
    assert_eq!(classify_listen(b"99999999999999999999999"), ListenTarget::BindAddr);
}

#[test]
fn classification_agrees_with_std_parser() {
    let inputs = [
        "3", "0", "+42", "-1", "2147483647", "-2147483648", "2147483648", "-2147483649",
        "0003", "12a", "", "+", "-", "+-3", "1 ", " 1", "00000000000000000000001",
        "99999999999999999999999", "4294967295", "4294967296",
    ];
    for text in inputs {
        let reference = text.parse::<i32>().ok().filter(|&fd| fd >= 0);
        let classified = match classify_listen(text.as_bytes()) {
            ListenTarget::Inherited(fd) => Some(fd),
            _ => None,
        };
        assert_eq!(classified, reference, "{:?}", text);
    }
}

#[test]
fn inherited_family_adoption() {
    assert_eq!(adopt_inherited(SocketFamily::Unix), Ok(ListenerKind::Unix));
    assert_eq!(adopt_inherited(SocketFamily::Inet), Ok(ListenerKind::Tcp));
    assert!(adopt_inherited(SocketFamily::Other).is_err());
}
