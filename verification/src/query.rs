//! The query builders: one kind for each question that the backend answers.
//!
//! A builder holds the shared connection handle and the identifier that its
//! question is about, and nothing else. It asks nothing itself: whoever
//! runs the query reads the two from it.

use crate::handle::ConnectionHandle;
use crate::ident::{AccountId, FileId, TransactionId};
use std::rc::Rc;
use vstd::prelude::*;

verus! {

/// What a partial message or a query builder holds: the connection handle
/// that it shares, and the identifier of the entity that it is about.
pub struct Held<B, Id> {
    pub handle: ConnectionHandle<B>,
    pub id: Id,
}

/// Asks for the balance of an account.
#[derive(Debug)]
pub struct BalanceQuery<B> {
    handle: Rc<ConnectionHandle<B>>,
    account: AccountId,
}

impl<B> View for BalanceQuery<B> {
    type V = Held<B, AccountId>;

    closed spec fn view(&self) -> Held<B, AccountId> {
        Held { handle: *self.handle, id: self.account }
    }
}

impl<B> BalanceQuery<B> {
    /// The builder that asks, over `handle`, for the balance of `account`.
    pub fn new(handle: &Rc<ConnectionHandle<B>>, account: AccountId) -> (q: BalanceQuery<B>)
        ensures
            q@ == (Held { handle: **handle, id: account }),
    {
        BalanceQuery { handle: Rc::clone(handle), account }
    }

    /// The connection handle that this builder shares.
    pub fn handle(&self) -> (r: &Rc<ConnectionHandle<B>>)
        ensures
            **r == self@.handle,
    {
        &self.handle
    }

    /// The account whose balance is asked for.
    pub fn account(&self) -> (r: AccountId)
        ensures
            r == self@.id,
    {
        self.account
    }
}

/// Asks for the receipt of a transaction.
#[derive(Debug)]
pub struct ReceiptQuery<B> {
    handle: Rc<ConnectionHandle<B>>,
    transaction: TransactionId,
}

impl<B> View for ReceiptQuery<B> {
    type V = Held<B, TransactionId>;

    closed spec fn view(&self) -> Held<B, TransactionId> {
        Held { handle: *self.handle, id: self.transaction }
    }
}

impl<B> ReceiptQuery<B> {
    /// The builder that asks, over `handle`, for the receipt of
    /// `transaction`.
    pub fn new(handle: &Rc<ConnectionHandle<B>>, transaction: TransactionId) -> (q: ReceiptQuery<B>)
        ensures
            q@ == (Held { handle: **handle, id: transaction }),
    {
        ReceiptQuery { handle: Rc::clone(handle), transaction }
    }

    /// The connection handle that this builder shares.
    pub fn handle(&self) -> (r: &Rc<ConnectionHandle<B>>)
        ensures
            **r == self@.handle,
    {
        &self.handle
    }

    /// The transaction whose receipt is asked for.
    pub fn transaction(&self) -> (r: TransactionId)
        ensures
            r == self@.id,
    {
        self.transaction
    }
}

/// Asks for the contents of a file.
#[derive(Debug)]
pub struct ContentsQuery<B> {
    handle: Rc<ConnectionHandle<B>>,
    file: FileId,
}

impl<B> View for ContentsQuery<B> {
    type V = Held<B, FileId>;

    closed spec fn view(&self) -> Held<B, FileId> {
        Held { handle: *self.handle, id: self.file }
    }
}

impl<B> ContentsQuery<B> {
    /// The builder that asks, over `handle`, for the contents of `file`.
    pub fn new(handle: &Rc<ConnectionHandle<B>>, file: FileId) -> (q: ContentsQuery<B>)
        ensures
            q@ == (Held { handle: **handle, id: file }),
    {
        ContentsQuery { handle: Rc::clone(handle), file }
    }

    /// The connection handle that this builder shares.
    pub fn handle(&self) -> (r: &Rc<ConnectionHandle<B>>)
        ensures
            **r == self@.handle,
    {
        &self.handle
    }

    /// The file whose contents are asked for.
    pub fn file(&self) -> (r: FileId)
        ensures
            r == self@.id,
    {
        self.file
    }
}

} // verus!
