//! Socket-origin resolution, the decision half: one configuration string
//! names either an inherited file descriptor (a small non-negative integer,
//! handed over by a supervising process), a filesystem path to bind a local
//! stream socket at (first byte `/`), or a host:port to bind a network
//! socket at.
//! The caller performs the socket work; the decisions live here.

use vstd::prelude::*;

verus! {

/// Whether a byte is an ASCII decimal digit.
pub open spec fn is_dec_digit(b: u8) -> bool {
    0x30 <= b <= 0x39
}

/// Every byte of `s` is a decimal digit.
pub open spec fn all_dec_digits(s: Seq<u8>) -> bool {
    forall|j: int| 0 <= j < s.len() ==> is_dec_digit(#[trigger] s[j])
}

/// The value of a big-endian sequence of decimal digit bytes.
pub open spec fn dec_value(s: Seq<u8>) -> int
    decreases s.len(),
{
    if s.len() == 0 {
        0
    } else {
        10 * dec_value(s.drop_last()) + (s.last() as int - 0x30)
    }
}

/// The digit part of a descriptor literal: an optional leading `+` sign
/// stripped.
pub open spec fn int_digits(s: Seq<u8>) -> Seq<u8> {
    if s.len() > 0 && s[0] == 0x2b {
        s.skip(1)
    } else {
        s
    }
}

/// A descriptor literal: an optional `+` sign followed by one or more
/// decimal digits and nothing else, with a value in the non-negative
/// descriptor range. A descriptor number is never negative, so a string
/// with a leading `-` names no descriptor and falls through to the
/// host:port classification.
pub open spec fn is_fd_literal(s: Seq<u8>) -> bool {
    int_digits(s).len() > 0 && all_dec_digits(int_digits(s)) && dec_value(int_digits(s))
        <= 0x7fff_ffff
}

/// The value of a descriptor literal.
pub open spec fn fd_literal_value(s: Seq<u8>) -> int {
    dec_value(int_digits(s))
}

proof fn lemma_dec_value_nonneg(s: Seq<u8>)
    requires
        all_dec_digits(s),
    ensures
        dec_value(s) >= 0,
    decreases s.len(),
{
    if s.len() > 0 {
        assert(all_dec_digits(s.drop_last())) by {
            assert(forall|j: int|
                0 <= j < s.len() - 1 ==> s.drop_last()[j] == #[trigger] s[j]);
        }
        lemma_dec_value_nonneg(s.drop_last());
    }
}

proof fn lemma_dec_value_prefix(s: Seq<u8>, i: int)
    requires
        all_dec_digits(s),
        0 <= i <= s.len(),
    ensures
        dec_value(s.take(i)) <= dec_value(s),
    decreases s.len() - i,
{
    if i < s.len() {
        assert(s.take(i + 1).drop_last() =~= s.take(i));
        assert(s.take(i + 1).last() == s[i]);
        assert(all_dec_digits(s.take(i))) by {
            assert(forall|j: int| 0 <= j < i ==> s.take(i)[j] == #[trigger] s[j]);
        }
        lemma_dec_value_nonneg(s.take(i));
        assert(dec_value(s.take(i)) <= dec_value(s.take(i + 1)));
        lemma_dec_value_prefix(s, i + 1);
        assert(s.take(s.len() as int) =~= s);
    } else {
        assert(s.take(s.len() as int) =~= s);
    }
}

/// Parses a non-negative descriptor number from bytes: an optional `+`
/// sign, one or more digits, value in the descriptor range — and `None` for
/// every other input.
#[verifier::loop_isolation(false)]
fn parse_fd(s: &[u8]) -> (r: Option<i32>)
    ensures
        match r {
            Some(v) => is_fd_literal(s@) && v >= 0 && v as int == fd_literal_value(s@),
            None => !is_fd_literal(s@),
        },
{
    let n = s.len();
    if n == 0 {
        return None;
    }
    let signed: bool = s[0] == 0x2b;
    let start: usize = if signed {
        1
    } else {
        0
    };
    proof {
        if signed {
            assert(int_digits(s@) =~= s@.skip(1));
        } else {
            assert(int_digits(s@) =~= s@);
        }
    }
    if n == start {
        return None;
    }
    let ghost d = int_digits(s@);
    let mut acc: u64 = 0;
    let mut over: bool = false;
    let mut i: usize = start;
    proof {
        assert(d.take(0) =~= Seq::<u8>::empty());
    }
    while i < n
        invariant
            start <= i <= n,
            forall|j: int| 0 <= j < i - start ==> is_dec_digit(#[trigger] d[j]),
            !over ==> acc as int == dec_value(d.take(i - start)),
            !over ==> acc <= 0xa_0000_0008,
            over ==> dec_value(d.take(i - start)) > 0xffff_ffff,
            over ==> all_dec_digits(d.take(i - start)),
        decreases n - i,
    {
        let b = s[i];
        proof {
            assert(d[i - start] == s@[i as int]);
        }
        if !(0x30 <= b && b <= 0x39) {
            return None;
        }
        proof {
            assert(d.take(i - start + 1).drop_last() =~= d.take(i - start));
            assert(d.take(i - start + 1).last() == d[i - start]);
        }
        if over {
            proof {
                lemma_dec_value_nonneg(d.take(i - start));
                assert(dec_value(d.take(i - start + 1)) > 0xffff_ffff);
            }
        } else if acc > 0xffff_ffff {
            over = true;
        } else {
            acc = acc * 10 + ((b - 0x30) as u64);
        }
        i += 1;
    }
    proof {
        assert(d.take(n - start) =~= d);
        assert(all_dec_digits(d));
        lemma_dec_value_nonneg(d);
    }
    if over {
        proof {
            assert(dec_value(d) > 0xffff_ffff);
        }
        return None;
    }
    if acc > 0x7fff_ffff {
        return None;
    }
    Some(acc as i32)
}

/// What a configuration string asks for.
#[derive(Clone, Copy, PartialEq, Eq, Structural, Debug)]
pub enum ListenTarget {
    /// Adopt the inherited, already-bound descriptor with this number.
    Inherited(i32),
    /// Bind a new local stream socket at the string, a filesystem path.
    BindPath,
    /// Bind a new network socket at the string, a host:port specification.
    BindAddr,
}

/// Classifies a configuration string: a non-negative descriptor number
/// wins, then a leading `/` names a filesystem path, and anything else — a
/// negative number included — is a host:port specification.
pub fn classify_listen(s: &[u8]) -> (r: ListenTarget)
    ensures
        match r {
            ListenTarget::Inherited(fd) => is_fd_literal(s@) && fd >= 0 && fd as int
                == fd_literal_value(s@),
            ListenTarget::BindPath => !is_fd_literal(s@) && s@.len() > 0 && s@[0] == 0x2f,
            ListenTarget::BindAddr => !is_fd_literal(s@) && (s@.len() == 0 || s@[0] != 0x2f),
        },
{
    match parse_fd(s) {
        Some(fd) => ListenTarget::Inherited(fd),
        None => {
            if s.len() > 0 && s[0] == 0x2f {
                ListenTarget::BindPath
            } else {
                ListenTarget::BindAddr
            }
        },
    }
}

/// The address family an inherited descriptor reports.
#[derive(Clone, Copy, PartialEq, Eq, Structural, Debug)]
pub enum SocketFamily {
    Unix,
    Inet,
    Other,
}

/// The two transports the service listens on.
#[derive(Clone, Copy, PartialEq, Eq, Structural, Debug)]
pub enum ListenerKind {
    Unix,
    Tcp,
}

/// Error for an inherited descriptor of an unsupported address family.
#[derive(Clone, Copy, PartialEq, Eq, Structural, Debug)]
pub struct UnsupportedFamily;

/// Classifies an inherited descriptor by the family its live socket
/// reports: a local stream socket is adopted as a local listener, an
/// internet socket as a network listener, and every other family is
/// rejected.
pub fn adopt_inherited(family: SocketFamily) -> (r: Result<ListenerKind, UnsupportedFamily>)
    ensures
        match r {
            Ok(k) => (family == SocketFamily::Unix && k == ListenerKind::Unix) || (family
                == SocketFamily::Inet && k == ListenerKind::Tcp),
            Err(_) => family == SocketFamily::Other,
        },
{
    match family {
        SocketFamily::Unix => Ok(ListenerKind::Unix),
        SocketFamily::Inet => Ok(ListenerKind::Tcp),
        SocketFamily::Other => Err(UnsupportedFamily),
    }
}

} // verus!
