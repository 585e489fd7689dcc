//! The connection handle: what is needed to reach the backend, made once
//! and never changed afterwards.
//!
//! Making a handle takes two steps, with the backend's own work between
//! them. First the address is checked, which gives an `Endpoint`. Whoever
//! runs the backend then sets it up for that endpoint. The endpoint and what
//! the backend gave for it make the handle.

use crate::address::{check, host_end, lemma_address_is_ascii, port_in};
use crate::decimal::{ascii_bytes, latin, scan_number};
use crate::error::ConnectionError;
use vstd::prelude::*;

verus! {

/// What an endpoint stands for: the address as it was given, and the port
/// number that it names.
pub struct EndpointView {
    pub address: Seq<char>,
    pub port: nat,
}

/// Checks the address held in `bytes`.
fn check_bytes(bytes: &[u8]) -> (r: Result<u16, ConnectionError>)
    ensures
        r == check(latin(bytes@)),
{
    let len = bytes.len();
    let ghost text = latin(bytes@);
    let mut h: usize = 0;
    while h < len && ((97 <= bytes[h] && bytes[h] <= 122) || (65 <= bytes[h] && bytes[h] <= 90)
        || (48 <= bytes[h] && bytes[h] <= 57) || bytes[h] == 46 || bytes[h] == 45 || bytes[h] == 95)
        invariant
            len == bytes@.len(),
            text == latin(bytes@),
            h <= len,
            host_end(text, 0) == host_end(text, h as int),
        decreases len - h,
    {
        h = h + 1;
    }
    if h == 0 || h >= len || bytes[h] != 58 || h + 1 >= len {
        return Err(ConnectionError::Malformed);
    }
    let (end, port) = scan_number(bytes, h + 1, 65535);
    if end != len {
        return Err(ConnectionError::Malformed);
    }
    match port {
        Some(n) => if n >= 1 {
            Ok(n as u16)
        } else {
            Err(ConnectionError::Unreachable)
        },
        None => Err(ConnectionError::Unreachable),
    }
}

/// Checks the address `text`: gives the port number that it names.
pub fn check_address(text: &str) -> (r: Result<u16, ConnectionError>)
    ensures
        r == check(text@),
{
    match ascii_bytes(text) {
        Some(bytes) => check_bytes(bytes),
        None => {
            proof {
                if port_in(text@) is Some {
                    lemma_address_is_ascii(text@);
                }
            }
            Err(ConnectionError::Malformed)
        },
    }
}

/// An address that was checked: where the backend is to be reached.
#[derive(Debug, PartialEq, Eq)]
pub struct Endpoint {
    address: String,
    port: u16,
}

impl View for Endpoint {
    type V = EndpointView;

    closed spec fn view(&self) -> EndpointView {
        EndpointView { address: self.address@, port: self.port as nat }
    }
}

impl Endpoint {
    /// The address names the port, and an endpoint can have it.
    #[verifier::type_invariant]
    spec fn well_formed(&self) -> bool {
        check(self.address@) == Ok::<u16, ConnectionError>(self.port)
    }

    /// The endpoint that `address` names, unless the address is malformed
    /// or cannot be reached.
    pub fn parse(address: String) -> (r: Result<Endpoint, ConnectionError>)
        ensures
            match check(address@) {
                Ok(port) => r is Ok && r.unwrap()@ == (EndpointView {
                    address: address@,
                    port: port as nat,
                }),
                Err(e) => r matches Err(x) && x == e,
            },
    {
        match check_address(address.as_str()) {
            Ok(port) => Ok(Endpoint { address, port }),
            Err(e) => Err(e),
        }
    }

    /// The address, as it was given.
    pub fn address(&self) -> (r: &str)
        ensures
            r@ == self@.address,
    {
        self.address.as_str()
    }

    /// The port number that the address names.
    pub fn port(&self) -> (r: u16)
        ensures
            r == self@.port,
            check(self@.address) == Ok::<u16, ConnectionError>(r),
    {
        proof {
            use_type_invariant(self);
        }
        self.port
    }
}

/// What is needed to reach the backend: the endpoint, and the transport
/// that the backend set up for it. The client only carries the transport;
/// what it is belongs to the backend.
#[derive(Debug)]
pub struct ConnectionHandle<B> {
    pub endpoint: Endpoint,
    pub transport: B,
}

impl<B> ConnectionHandle<B> {
    /// The handle for `endpoint` over `transport`.
    pub fn new(endpoint: Endpoint, transport: B) -> (h: ConnectionHandle<B>)
        ensures
            h == (ConnectionHandle { endpoint, transport }),
    {
        ConnectionHandle { endpoint, transport }
    }

    /// The endpoint that this handle reaches.
    pub fn endpoint(&self) -> (r: &Endpoint)
        ensures
            *r == self.endpoint,
    {
        &self.endpoint
    }

    /// The transport that the backend set up.
    pub fn transport(&self) -> (r: &B)
        ensures
            *r == self.transport,
    {
        &self.transport
    }
}

} // verus!
