//! The text grammar of backend addresses.
//!
//! An address is written `<host>:<port>`. The host is a non-empty run of
//! letters, digits, dots, hyphens and underscores; the port is a numeral.
//! An address of that form can be reached when its port number lies between
//! 1 and 65535.

use crate::decimal::{
    is_digit, lemma_run_end, lemma_run_end_unique, run_end, spells, value_of,
};
use crate::error::ConnectionError;
use vstd::prelude::*;
use vstd::utf8::is_ascii_chars;

verus! {

/// Whether `c` may stand in a host name.
pub open spec fn is_host_char(c: char) -> bool {
    ('a' <= c && c <= 'z') || ('A' <= c && c <= 'Z') || is_digit(c) || c == '.' || c == '-' || c
        == '_'
}

/// A host name is a non-empty run of host characters.
pub open spec fn is_host(h: Seq<char>) -> bool {
    h.len() > 0 && forall|i: int| 0 <= i < h.len() ==> is_host_char(#[trigger] h[i])
}

/// A host and a port joined by a colon.
pub open spec fn joined(host: Seq<char>, port: Seq<char>) -> Seq<char> {
    host + seq![':'] + port
}

/// `s` is a host name, a colon and a numeral that denotes `port`.
pub open spec fn names_port(s: Seq<char>, port: nat) -> bool {
    exists|h: Seq<char>, p: Seq<char>| #[trigger] joined(h, p) == s && is_host(h) && spells(p, port)
}

/// `s` has the form of an address.
pub open spec fn is_address(s: Seq<char>) -> bool {
    exists|port: nat| names_port(s, port)
}

/// Whether an endpoint can have the port number `n`.
pub open spec fn is_port(n: nat) -> bool {
    1 <= n <= u16::MAX
}

/// Where the longest run of host characters at the start of `s`, taken from
/// `from` on, ends.
pub open spec fn host_end(s: Seq<char>, from: int) -> int
    decreases s.len() - from,
{
    if 0 <= from < s.len() && is_host_char(s[from]) {
        host_end(s, from + 1)
    } else {
        from
    }
}

/// The port number that the address `s` names, if `s` has the form of an
/// address: a non-empty run of host characters, a colon, and a non-empty run
/// of digits up to the end.
pub open spec fn port_in(s: Seq<char>) -> Option<nat> {
    let h = host_end(s, 0);
    if 0 < h < s.len() && s[h] == ':' && h + 1 < s.len() && run_end(s, h + 1) == s.len() {
        Some(value_of(s.subrange(h + 1, s.len() as int)))
    } else {
        None
    }
}

/// What checking the address `s` gives: its port number, `Malformed` where
/// `s` has not the form of an address, `Unreachable` where it has and no
/// endpoint can have that port number.
pub open spec fn check(s: Seq<char>) -> Result<u16, ConnectionError> {
    match port_in(s) {
        Some(n) => if is_port(n) {
            Ok(n as u16)
        } else {
            Err(ConnectionError::Unreachable)
        },
        None => Err(ConnectionError::Malformed),
    }
}

/// The run from `from` to `host_end` holds host characters only, and stops
/// at the end of `s` or in front of a character that is none.
pub proof fn lemma_host_end(s: Seq<char>, from: int)
    requires
        0 <= from <= s.len(),
    ensures
        from <= host_end(s, from) <= s.len(),
        forall|i: int| from <= i < host_end(s, from) ==> is_host_char(#[trigger] s[i]),
        host_end(s, from) < s.len() ==> !is_host_char(s[host_end(s, from)]),
    decreases s.len() - from,
{
    if from < s.len() && is_host_char(s[from]) {
        lemma_host_end(s, from + 1);
    }
}

/// A run of host characters that cannot be extended is the longest one.
pub proof fn lemma_host_end_unique(s: Seq<char>, from: int, to: int)
    requires
        0 <= from <= to <= s.len(),
        forall|i: int| from <= i < to ==> is_host_char(#[trigger] s[i]),
        to < s.len() ==> !is_host_char(s[to]),
    ensures
        host_end(s, from) == to,
    decreases to - from,
{
    if from < to {
        lemma_host_end_unique(s, from + 1, to);
    }
}

/// `port_in` finds a port number exactly where the text names it.
pub proof fn lemma_port_in(s: Seq<char>, port: nat)
    ensures
        names_port(s, port) <==> port_in(s) == Some(port),
{
    if names_port(s, port) {
        let (h, p) = choose|h: Seq<char>, p: Seq<char>| #[trigger]
            joined(h, p) == s && is_host(h) && spells(p, port);
        let n = h.len() as int;
        assert forall|i: int| 0 <= i < n implies is_host_char(#[trigger] s[i]) by {
            assert(s[i] == h[i]);
        }
        assert(s[n] == ':');
        lemma_host_end_unique(s, 0, n);
        assert(s.subrange(n + 1, s.len() as int) =~= p);
        lemma_run_end_unique(s, n + 1, s.len() as int);
    }
    if port_in(s) == Some(port) {
        let n = host_end(s, 0);
        lemma_host_end(s, 0);
        lemma_run_end(s, n + 1);
        let h = s.subrange(0, n);
        let p = s.subrange(n + 1, s.len() as int);
        assert(joined(h, p) =~= s);
    }
}

/// A text names at most one port number.
pub proof fn lemma_port_unique(s: Seq<char>, p1: nat, p2: nat)
    requires
        names_port(s, p1),
        names_port(s, p2),
    ensures
        p1 == p2,
{
    lemma_port_in(s, p1);
    lemma_port_in(s, p2);
}

/// A text is checked as its port number exactly when it has the form of an
/// address and names a port number that an endpoint can have; a text of
/// another form is `Malformed`, and one that names another number is
/// `Unreachable`.
pub proof fn lemma_check(s: Seq<char>)
    ensures
        match check(s) {
            Ok(port) => names_port(s, port as nat) && is_port(port as nat),
            Err(ConnectionError::Malformed) => !is_address(s),
            Err(ConnectionError::Unreachable) => is_address(s) && forall|n: nat|
                names_port(s, n) ==> !is_port(n),
            Err(ConnectionError::Backend(_)) => false,
        },
{
    match port_in(s) {
        Some(n) => {
            lemma_port_in(s, n);
            assert forall|m: nat| names_port(s, m) implies m == n by {
                lemma_port_in(s, m);
            }
        },
        None => {
            assert forall|m: nat| !names_port(s, m) by {
                lemma_port_in(s, m);
            }
        },
    }
}

/// A text of the form of an address holds characters of one byte only.
pub proof fn lemma_address_is_ascii(s: Seq<char>)
    requires
        port_in(s) is Some,
    ensures
        is_ascii_chars(s),
{
    let n = host_end(s, 0);
    lemma_host_end(s, 0);
    lemma_run_end(s, n + 1);
    assert forall|i: int| 0 <= i < s.len() implies '\0' <= #[trigger] s[i] <= '\u{7f}' by {
        if i > n {
            assert(s[i] == s.subrange(n + 1, s.len() as int)[i - n - 1]);
        }
    }
}

} // verus!
