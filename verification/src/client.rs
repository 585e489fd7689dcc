//! The client and the partial messages that it hands out.
//!
//! A client owns one connection handle. Each partial message pairs that
//! handle with one identifier, and turns into the query builder for its
//! kind of entity. All of them share the handle; none of them changes it.

use crate::error::{ConnectionError, ParseError};
use crate::handle::{ConnectionHandle, Endpoint};
use crate::ident::{AccountId, FileId, TransactionId};
use crate::query::{BalanceQuery, ContentsQuery, Held, ReceiptQuery};
use std::rc::Rc;
use vstd::prelude::*;

verus! {

/// The entry point: holds the connection handle and hands out partial
/// messages that share it.
#[derive(Debug)]
pub struct PyClient<B> {
    inner: Rc<ConnectionHandle<B>>,
}

impl<B> View for PyClient<B> {
    type V = ConnectionHandle<B>;

    closed spec fn view(&self) -> ConnectionHandle<B> {
        *self.inner
    }
}

impl<B> PyClient<B> {
    /// Makes a client for `endpoint` from the backend's answer to the
    /// request to set itself up for it.
    ///
    /// Where the backend gave a transport, the client holds a new handle
    /// made of the endpoint and the transport. Where the backend failed, no
    /// handle is made, and the error carries the backend's words unchanged.
    pub fn __new__(endpoint: Endpoint, answer: Result<B, String>) -> (r: Result<
        PyClient<B>,
        ConnectionError,
    >)
        ensures
            match answer {
                Ok(transport) => r is Ok && r.unwrap()@ == (ConnectionHandle {
                    endpoint,
                    transport,
                }),
                Err(words) => r matches Err(x) && x == ConnectionError::Backend(words),
            },
    {
        match answer {
            Ok(transport) => Ok(
                PyClient { inner: Rc::new(ConnectionHandle::new(endpoint, transport)) },
            ),
            Err(words) => Err(ConnectionError::Backend(words)),
        }
    }

    /// The connection handle of this client.
    pub fn handle(&self) -> (r: &Rc<ConnectionHandle<B>>)
        ensures
            **r == self@,
    {
        &self.inner
    }

    /// Reads `id` as an account identifier and pairs it with this client's
    /// handle.
    pub fn account(&self, id: String) -> (r: Result<PyPartialAccountMessage<B>, ParseError>)
        ensures
            match AccountId::read(id@) {
                Ok(account) => r is Ok && r.unwrap()@ == (Held { handle: self@, id: account }),
                Err(e) => r matches Err(x) && x == e,
            },
    {
        match AccountId::parse(id.as_str()) {
            Ok(account) => Ok(PyPartialAccountMessage { client: Rc::clone(&self.inner), account }),
            Err(e) => Err(e),
        }
    }

    /// Reads `id` as a transaction identifier and pairs it with this
    /// client's handle.
    pub fn transaction(&self, id: String) -> (r: Result<PyPartialTransactionMessage<B>, ParseError>)
        ensures
            match TransactionId::read(id@) {
                Ok(transaction) => r is Ok && r.unwrap()@ == (Held {
                    handle: self@,
                    id: transaction,
                }),
                Err(e) => r matches Err(x) && x == e,
            },
    {
        match TransactionId::parse(id.as_str()) {
            Ok(transaction) => Ok(
                PyPartialTransactionMessage { client: Rc::clone(&self.inner), transaction },
            ),
            Err(e) => Err(e),
        }
    }

    /// Reads `id` as a file identifier and pairs it with this client's
    /// handle.
    pub fn file(&self, id: String) -> (r: Result<PyPartialFileMessage<B>, ParseError>)
        ensures
            match FileId::read(id@) {
                Ok(file) => r is Ok && r.unwrap()@ == (Held { handle: self@, id: file }),
                Err(e) => r matches Err(x) && x == e,
            },
    {
        match FileId::parse(id.as_str()) {
            Ok(file) => Ok(PyPartialFileMessage { client: Rc::clone(&self.inner), file }),
            Err(e) => Err(e),
        }
    }
}

/// A connection handle paired with an account: what can be asked about the
/// account is chosen next.
#[derive(Debug)]
pub struct PyPartialAccountMessage<B> {
    client: Rc<ConnectionHandle<B>>,
    account: AccountId,
}

impl<B> View for PyPartialAccountMessage<B> {
    type V = Held<B, AccountId>;

    closed spec fn view(&self) -> Held<B, AccountId> {
        Held { handle: *self.client, id: self.account }
    }
}

impl<B> PyPartialAccountMessage<B> {
    /// The connection handle that this message shares.
    pub fn handle(&self) -> (r: &Rc<ConnectionHandle<B>>)
        ensures
            **r == self@.handle,
    {
        &self.client
    }

    /// The account that this message is about.
    pub fn account(&self) -> (r: AccountId)
        ensures
            r == self@.id,
    {
        self.account
    }

    /// The builder that asks for the balance of the account.
    pub fn balance(&self) -> (q: BalanceQuery<B>)
        ensures
            q@ == self@,
    {
        BalanceQuery::new(&self.client, self.account)
    }
}

/// A connection handle paired with a transaction: what can be asked about
/// the transaction is chosen next.
#[derive(Debug)]
pub struct PyPartialTransactionMessage<B> {
    client: Rc<ConnectionHandle<B>>,
    transaction: TransactionId,
}

impl<B> View for PyPartialTransactionMessage<B> {
    type V = Held<B, TransactionId>;

    closed spec fn view(&self) -> Held<B, TransactionId> {
        Held { handle: *self.client, id: self.transaction }
    }
}

impl<B> PyPartialTransactionMessage<B> {
    /// The connection handle that this message shares.
    pub fn handle(&self) -> (r: &Rc<ConnectionHandle<B>>)
        ensures
            **r == self@.handle,
    {
        &self.client
    }

    /// The transaction that this message is about.
    pub fn transaction(&self) -> (r: TransactionId)
        ensures
            r == self@.id,
    {
        self.transaction
    }

    /// The builder that asks for the receipt of the transaction.
    pub fn receipt(&self) -> (q: ReceiptQuery<B>)
        ensures
            q@ == self@,
    {
        ReceiptQuery::new(&self.client, self.transaction)
    }
}

/// A connection handle paired with a file: what can be asked about the file
/// is chosen next.
#[derive(Debug)]
pub struct PyPartialFileMessage<B> {
    client: Rc<ConnectionHandle<B>>,
    file: FileId,
}

impl<B> View for PyPartialFileMessage<B> {
    type V = Held<B, FileId>;

    closed spec fn view(&self) -> Held<B, FileId> {
        Held { handle: *self.client, id: self.file }
    }
}

impl<B> PyPartialFileMessage<B> {
    /// The connection handle that this message shares.
    pub fn handle(&self) -> (r: &Rc<ConnectionHandle<B>>)
        ensures
            **r == self@.handle,
    {
        &self.client
    }

    /// The file that this message is about.
    pub fn file(&self) -> (r: FileId)
        ensures
            r == self@.id,
    {
        self.file
    }

    /// The builder that asks for the contents of the file.
    pub fn contents(&self) -> (q: ContentsQuery<B>)
        ensures
            q@ == self@,
    {
        ContentsQuery::new(&self.client, self.file)
    }
}

/// Whatever one client hands out holds the client's own connection handle:
/// any two partial messages of one client, of the same kind or not, hold
/// the same handle.
pub proof fn lemma_messages_share_handle<B, I, J>(
    client: PyClient<B>,
    first: Held<B, I>,
    second: Held<B, J>,
)
    requires
        first.handle == client@,
        second.handle == client@,
    ensures
        first.handle == second.handle,
{
}

/// Every builder made from one partial message holds what the message held,
/// and holds it by itself: any two of them agree in handle and identifier,
/// and neither refers to the message.
pub proof fn lemma_builders_hold_their_own<B, I>(
    message: Held<B, I>,
    first: Held<B, I>,
    second: Held<B, I>,
)
    requires
        first == message,
        second == message,
    ensures
        first == second,
        first.handle == message.handle && first.id == message.id,
{
}

} // verus!
