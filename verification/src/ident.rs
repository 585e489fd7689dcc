//! Typed identifiers of accounts, files and transactions, read from text
//! and written back to it.

use crate::decimal::{
    ascii_bytes, is_numeral, latin, push_decimal, scan_number, strip_zeros, value_of,
};
use crate::error::{IdentifierKind, ParseError};
use crate::grammar::{
    dotted, entity_at, entity_in, entity_text, lemma_entity_in, lemma_entity_is_ascii,
    lemma_entity_normal_form, lemma_entity_text_spells, lemma_transaction_in,
    lemma_transaction_is_ascii, lemma_transaction_normal_form, lemma_transaction_text_spells,
    spells_entity, spells_transaction, stamped, transaction_in, transaction_text, EntityNum,
    TransactionNum, NANOS_PER_SECOND,
};
use vstd::prelude::*;
use vstd::string::*;

verus! {

/// Reads the entity written in `bytes` from position `from` on. Gives where
/// its text ends and its three numbers.
fn scan_entity(bytes: &[u8], from: usize) -> (r: Option<(usize, u64, u64, u64)>)
    requires
        from <= bytes@.len(),
    ensures
        match r {
            Some((to, shard, realm, num)) => from < to <= bytes@.len() && entity_at(
                latin(bytes@),
                from as int,
            ) == Some(
                (
                    to as int,
                    EntityNum { shard: shard as nat, realm: realm as nat, num: num as nat },
                ),
            ),
            None => match entity_at(latin(bytes@), from as int) {
                Some((_, e)) => !e.fits(),
                None => true,
            },
        },
{
    let len = bytes.len();
    let (p, shard) = scan_number(bytes, from, u64::MAX);
    if p == from || p >= len || bytes[p] != 46 {
        return None;
    }
    let (q, realm) = scan_number(bytes, p + 1, u64::MAX);
    if q == p + 1 || q >= len || bytes[q] != 46 {
        return None;
    }
    let (r, num) = scan_number(bytes, q + 1, u64::MAX);
    if r == q + 1 {
        return None;
    }
    match (shard, realm, num) {
        (Some(shard), Some(realm), Some(num)) => Some((r, shard, realm, num)),
        _ => None,
    }
}

/// The three numbers of the entity that the whole of `s` spells, when each
/// of them fits in 64 bits.
pub open spec fn entity_read(s: Seq<char>) -> Option<(u64, u64, u64)> {
    match entity_in(s) {
        Some(e) => if e.fits() {
            Some((e.shard as u64, e.realm as u64, e.num as u64))
        } else {
            None
        },
        None => None,
    }
}

/// Reads the entity that the whole of `text` spells.
fn read_entity(text: &str) -> (r: Option<(u64, u64, u64)>)
    ensures
        r == entity_read(text@),
{
    match ascii_bytes(text) {
        Some(bytes) => match scan_entity(bytes, 0) {
            Some((to, shard, realm, num)) => if to == bytes.len() {
                Some((shard, realm, num))
            } else {
                None
            },
            None => None,
        },
        None => {
            proof {
                if entity_in(text@) is Some {
                    let e = entity_in(text@).unwrap();
                    lemma_entity_in(text@, e);
                    lemma_entity_is_ascii(text@, e);
                }
            }
            None
        },
    }
}

/// Appends the canonical text of the entity with the given numbers to `out`.
fn push_entity(out: &mut String, shard: u64, realm: u64, num: u64)
    ensures
        final(out)@ == old(out)@ + entity_text(
            EntityNum { shard: shard as nat, realm: realm as nat, num: num as nat },
        ),
{
    proof {
        reveal_strlit(".");
    }
    push_decimal(out, shard);
    out.append(".");
    push_decimal(out, realm);
    out.append(".");
    push_decimal(out, num);
    assert(final(out)@ =~= old(out)@ + entity_text(
        EntityNum { shard: shard as nat, realm: realm as nat, num: num as nat },
    ));
}

/// What `entity_read` gives is what the text spells, and it gives nothing
/// only where the text spells no entity whose numbers fit.
proof fn lemma_entity_read(s: Seq<char>)
    ensures
        match entity_read(s) {
            Some((shard, realm, num)) => spells_entity(
                s,
                EntityNum { shard: shard as nat, realm: realm as nat, num: num as nat },
            ),
            None => forall|e: EntityNum| spells_entity(s, e) ==> !e.fits(),
        },
{
    match entity_read(s) {
        Some((shard, realm, num)) => {
            lemma_entity_in(
                s,
                EntityNum { shard: shard as nat, realm: realm as nat, num: num as nat },
            );
        },
        None => {
            assert forall|e: EntityNum| spells_entity(s, e) implies !e.fits() by {
                lemma_entity_in(s, e);
            }
        },
    }
}

/// The identifier of an account: a shard, a realm within the shard, and the
/// account's number within the realm.
#[derive(Debug, Clone, Copy, PartialEq, Eq, Hash, Structural)]
pub struct AccountId {
    pub shard: u64,
    pub realm: u64,
    pub num: u64,
}

impl View for AccountId {
    type V = EntityNum;

    open spec fn view(&self) -> EntityNum {
        EntityNum { shard: self.shard as nat, realm: self.realm as nat, num: self.num as nat }
    }
}

impl AccountId {
    /// What reading `text` as an account gives: the account that the text
    /// spells, or `InvalidFormat` where it spells none whose numbers fit.
    pub open spec fn read(text: Seq<char>) -> Result<AccountId, ParseError> {
        match entity_read(text) {
            Some((shard, realm, num)) => Ok(AccountId { shard, realm, num }),
            None => Err(ParseError::InvalidFormat(IdentifierKind::Account)),
        }
    }

    /// The account with the given numbers.
    pub fn new(shard: u64, realm: u64, num: u64) -> (id: AccountId)
        ensures
            id == (AccountId { shard, realm, num }),
    {
        AccountId { shard, realm, num }
    }

    /// Reads an account identifier from `<shard>.<realm>.<num>`.
    ///
    /// The text is accepted when it is three numerals joined by dots and each
    /// number fits in 64 bits; any other text is an `InvalidFormat`.
    pub fn parse(text: &str) -> (r: Result<AccountId, ParseError>)
        ensures
            r == Self::read(text@),
    {
        match read_entity(text) {
            Some((shard, realm, num)) => Ok(AccountId { shard, realm, num }),
            None => Err(ParseError::InvalidFormat(IdentifierKind::Account)),
        }
    }

    /// The canonical text of this identifier.
    pub fn to_text(&self) -> (r: String)
        ensures
            r@ == entity_text(self@),
    {
        let mut out = String::new();
        push_entity(&mut out, self.shard, self.realm, self.num);
        assert(out@ =~= entity_text(self@));
        out
    }

    /// A text is read as an account exactly when it spells one whose numbers
    /// fit, and then as that account; every other text is an `InvalidFormat`.
    pub proof fn lemma_read(text: Seq<char>)
        ensures
            match Self::read(text) {
                Ok(id) => spells_entity(text, id@),
                Err(err) => err == ParseError::InvalidFormat(IdentifierKind::Account)
                    && forall|e: EntityNum| spells_entity(text, e) ==> !e.fits(),
            },
    {
        lemma_entity_read(text);
    }

    /// Reading the canonical text of an account gives the account back.
    pub proof fn lemma_round_trip(id: AccountId)
        ensures
            Self::read(entity_text(id@)) == Ok::<AccountId, ParseError>(id),
    {
        lemma_entity_text_spells(id@);
        lemma_entity_in(entity_text(id@), id@);
    }

    /// Three numerals joined by dots, each denoting a number that fits, are
    /// read as an account, and writing that account gives the same numerals
    /// without their leading zeros.
    pub proof fn lemma_normal_form(a: Seq<char>, b: Seq<char>, c: Seq<char>)
        requires
            is_numeral(a) && value_of(a) <= u64::MAX,
            is_numeral(b) && value_of(b) <= u64::MAX,
            is_numeral(c) && value_of(c) <= u64::MAX,
        ensures
            Self::read(dotted(a, b, c)) is Ok,
            entity_text(Self::read(dotted(a, b, c)).unwrap()@) == dotted(
                strip_zeros(a),
                strip_zeros(b),
                strip_zeros(c),
            ),
    {
        let e = EntityNum { shard: value_of(a), realm: value_of(b), num: value_of(c) };
        lemma_entity_normal_form(a, b, c, e);
        lemma_entity_in(dotted(a, b, c), e);
    }
}

/// The identifier of a file: a shard, a realm within the shard, and the
/// file's number within the realm.
#[derive(Debug, Clone, Copy, PartialEq, Eq, Hash, Structural)]
pub struct FileId {
    pub shard: u64,
    pub realm: u64,
    pub num: u64,
}

impl View for FileId {
    type V = EntityNum;

    open spec fn view(&self) -> EntityNum {
        EntityNum { shard: self.shard as nat, realm: self.realm as nat, num: self.num as nat }
    }
}

impl FileId {
    /// What reading `text` as a file gives: the file that the text spells, or
    /// `InvalidFormat` where it spells none whose numbers fit.
    pub open spec fn read(text: Seq<char>) -> Result<FileId, ParseError> {
        match entity_read(text) {
            Some((shard, realm, num)) => Ok(FileId { shard, realm, num }),
            None => Err(ParseError::InvalidFormat(IdentifierKind::File)),
        }
    }

    /// The file with the given numbers.
    pub fn new(shard: u64, realm: u64, num: u64) -> (id: FileId)
        ensures
            id == (FileId { shard, realm, num }),
    {
        FileId { shard, realm, num }
    }

    /// Reads a file identifier from `<shard>.<realm>.<num>`.
    ///
    /// The text is accepted when it is three numerals joined by dots and each
    /// number fits in 64 bits; any other text is an `InvalidFormat`.
    pub fn parse(text: &str) -> (r: Result<FileId, ParseError>)
        ensures
            r == Self::read(text@),
    {
        match read_entity(text) {
            Some((shard, realm, num)) => Ok(FileId { shard, realm, num }),
            None => Err(ParseError::InvalidFormat(IdentifierKind::File)),
        }
    }

    /// The canonical text of this identifier.
    pub fn to_text(&self) -> (r: String)
        ensures
            r@ == entity_text(self@),
    {
        let mut out = String::new();
        push_entity(&mut out, self.shard, self.realm, self.num);
        assert(out@ =~= entity_text(self@));
        out
    }

    /// A text is read as a file exactly when it spells one whose numbers fit,
    /// and then as that file; every other text is an `InvalidFormat`.
    pub proof fn lemma_read(text: Seq<char>)
        ensures
            match Self::read(text) {
                Ok(id) => spells_entity(text, id@),
                Err(err) => err == ParseError::InvalidFormat(IdentifierKind::File)
                    && forall|e: EntityNum| spells_entity(text, e) ==> !e.fits(),
            },
    {
        lemma_entity_read(text);
    }

    /// Reading the canonical text of a file gives the file back.
    pub proof fn lemma_round_trip(id: FileId)
        ensures
            Self::read(entity_text(id@)) == Ok::<FileId, ParseError>(id),
    {
        lemma_entity_text_spells(id@);
        lemma_entity_in(entity_text(id@), id@);
    }

    /// Three numerals joined by dots, each denoting a number that fits, are
    /// read as a file, and writing that file gives the same numerals without
    /// their leading zeros.
    pub proof fn lemma_normal_form(a: Seq<char>, b: Seq<char>, c: Seq<char>)
        requires
            is_numeral(a) && value_of(a) <= u64::MAX,
            is_numeral(b) && value_of(b) <= u64::MAX,
            is_numeral(c) && value_of(c) <= u64::MAX,
        ensures
            Self::read(dotted(a, b, c)) is Ok,
            entity_text(Self::read(dotted(a, b, c)).unwrap()@) == dotted(
                strip_zeros(a),
                strip_zeros(b),
                strip_zeros(c),
            ),
    {
        let e = EntityNum { shard: value_of(a), realm: value_of(b), num: value_of(c) };
        lemma_entity_normal_form(a, b, c, e);
        lemma_entity_in(dotted(a, b, c), e);
    }
}

/// Reads the transaction that the whole of `bytes` spells: the payer's three
/// numbers, the seconds and the nanoseconds.
fn scan_transaction(bytes: &[u8]) -> (r: Option<(u64, u64, u64, u64, u32)>)
    ensures
        match r {
            Some((shard, realm, num, seconds, nanos)) => nanos < NANOS_PER_SECOND
                && transaction_in(latin(bytes@)) == Some(
                TransactionNum {
                    payer: EntityNum { shard: shard as nat, realm: realm as nat, num: num as nat },
                    seconds: seconds as nat,
                    nanos: nanos as nat,
                },
            ),
            None => match transaction_in(latin(bytes@)) {
                Some(t) => !t.fits(),
                None => true,
            },
        },
{
    let len = bytes.len();
    let payer = scan_entity(bytes, 0);
    let at: usize = match payer {
        Some((to, _, _, _)) => to,
        None => {
            return None;
        },
    };
    if at >= len || bytes[at] != 64 {
        return None;
    }
    let (u, seconds) = scan_number(bytes, at + 1, u64::MAX);
    if u == at + 1 || u >= len || bytes[u] != 46 {
        return None;
    }
    let (v, nanos) = scan_number(bytes, u + 1, 999_999_999);
    if v == u + 1 || v != len {
        return None;
    }
    match (payer, seconds, nanos) {
        (Some((_, shard, realm, num)), Some(seconds), Some(nanos)) => Some(
            (shard, realm, num, seconds, nanos as u32),
        ),
        _ => None,
    }
}

/// The identifier of a transaction: the account that pays for it, and the
/// moment from which it is valid, in seconds and nanoseconds since the
/// start of 1970.
#[derive(Debug, Clone, Copy, PartialEq, Eq, Hash, Structural)]
pub struct TransactionId {
    payer: AccountId,
    seconds: u64,
    nanos: u32,
}

impl View for TransactionId {
    type V = TransactionNum;

    closed spec fn view(&self) -> TransactionNum {
        TransactionNum {
            payer: self.payer@,
            seconds: self.seconds as nat,
            nanos: self.nanos as nat,
        }
    }
}

impl TransactionId {
    /// The nanoseconds stay below one second.
    #[verifier::type_invariant]
    spec fn well_formed(self) -> bool {
        self.nanos < NANOS_PER_SECOND
    }

    /// What reading `text` as a transaction gives: the transaction that the
    /// text spells, or `InvalidFormat` where it spells none whose numbers fit.
    pub closed spec fn read(text: Seq<char>) -> Result<TransactionId, ParseError> {
        match transaction_in(text) {
            Some(t) => if t.fits() {
                Ok(
                    TransactionId {
                        payer: AccountId {
                            shard: t.payer.shard as u64,
                            realm: t.payer.realm as u64,
                            num: t.payer.num as u64,
                        },
                        seconds: t.seconds as u64,
                        nanos: t.nanos as u32,
                    },
                )
            } else {
                Err(ParseError::InvalidFormat(IdentifierKind::Transaction))
            },
            None => Err(ParseError::InvalidFormat(IdentifierKind::Transaction)),
        }
    }

    /// The transaction with the given payer and moment, unless `nanos` is a
    /// second or more.
    pub fn new(payer: AccountId, seconds: u64, nanos: u32) -> (r: Option<TransactionId>)
        ensures
            r is Some <==> nanos < NANOS_PER_SECOND,
            r is Some ==> r.unwrap()@ == (TransactionNum {
                payer: payer@,
                seconds: seconds as nat,
                nanos: nanos as nat,
            }),
    {
        if nanos < NANOS_PER_SECOND {
            Some(TransactionId { payer, seconds, nanos })
        } else {
            None
        }
    }

    /// The account that pays for the transaction.
    pub fn payer(&self) -> (r: AccountId)
        ensures
            r@ == self@.payer,
    {
        self.payer
    }

    /// The seconds of the moment from which the transaction is valid.
    pub fn seconds(&self) -> (r: u64)
        ensures
            r == self@.seconds,
    {
        self.seconds
    }

    /// The nanoseconds of the moment from which the transaction is valid.
    pub fn nanos(&self) -> (r: u32)
        ensures
            r == self@.nanos,
            self@.fits(),
    {
        proof {
            use_type_invariant(self);
        }
        self.nanos
    }

    /// Reads a transaction identifier from
    /// `<shard>.<realm>.<num>@<seconds>.<nanos>`.
    ///
    /// The text is accepted when it is an account's text, `@`, and two
    /// numerals joined by a dot, the account's numbers and the seconds fit
    /// in 64 bits, and the nanoseconds are less than a second; any other
    /// text is an `InvalidFormat`.
    pub fn parse(text: &str) -> (r: Result<TransactionId, ParseError>)
        ensures
            r == Self::read(text@),
    {
        let found = match ascii_bytes(text) {
            Some(bytes) => scan_transaction(bytes),
            None => {
                proof {
                    if transaction_in(text@) is Some {
                        let t = transaction_in(text@).unwrap();
                        lemma_transaction_in(text@, t);
                        lemma_transaction_is_ascii(text@, t);
                    }
                }
                None
            },
        };
        match found {
            Some((shard, realm, num, seconds, nanos)) => Ok(
                TransactionId { payer: AccountId { shard, realm, num }, seconds, nanos },
            ),
            None => Err(ParseError::InvalidFormat(IdentifierKind::Transaction)),
        }
    }

    /// The canonical text of this identifier.
    pub fn to_text(&self) -> (r: String)
        ensures
            r@ == transaction_text(self@),
    {
        proof {
            reveal_strlit("@");
            reveal_strlit(".");
        }
        let mut out = String::new();
        push_entity(&mut out, self.payer.shard, self.payer.realm, self.payer.num);
        out.append("@");
        push_decimal(&mut out, self.seconds);
        out.append(".");
        push_decimal(&mut out, self.nanos as u64);
        assert(out@ =~= transaction_text(self@));
        out
    }

    /// Two transaction identifiers with the same numbers are the same.
    pub proof fn lemma_view_injective(a: TransactionId, b: TransactionId)
        requires
            a@ == b@,
        ensures
            a == b,
    {
    }

    /// A text is read as a transaction exactly when it spells one whose
    /// numbers fit, and then as that transaction; every other text is an
    /// `InvalidFormat`.
    pub proof fn lemma_read(text: Seq<char>)
        ensures
            match Self::read(text) {
                Ok(id) => spells_transaction(text, id@) && id@.fits(),
                Err(err) => err == ParseError::InvalidFormat(IdentifierKind::Transaction)
                    && forall|t: TransactionNum| spells_transaction(text, t) ==> !t.fits(),
            },
    {
        match Self::read(text) {
            Ok(id) => {
                lemma_transaction_in(text, id@);
            },
            Err(_) => {
                assert forall|t: TransactionNum| spells_transaction(text, t) implies !t.fits() by {
                    lemma_transaction_in(text, t);
                }
            },
        }
    }

    /// Reading the canonical text of a transaction gives the transaction
    /// back.
    pub proof fn lemma_round_trip(id: TransactionId)
        requires
            id@.fits(),
        ensures
            Self::read(transaction_text(id@)) == Ok::<TransactionId, ParseError>(id),
    {
        lemma_transaction_text_spells(id@);
        lemma_transaction_in(transaction_text(id@), id@);
    }

    /// An account's three numerals, `@`, and the numerals of a moment, each
    /// denoting a number that fits, are read as a transaction, and writing
    /// that transaction gives the same numerals without their leading zeros.
    pub proof fn lemma_normal_form(
        a: Seq<char>,
        b: Seq<char>,
        c: Seq<char>,
        y: Seq<char>,
        z: Seq<char>,
    )
        requires
            is_numeral(a) && value_of(a) <= u64::MAX,
            is_numeral(b) && value_of(b) <= u64::MAX,
            is_numeral(c) && value_of(c) <= u64::MAX,
            is_numeral(y) && value_of(y) <= u64::MAX,
            is_numeral(z) && value_of(z) < NANOS_PER_SECOND,
        ensures
            Self::read(stamped(dotted(a, b, c), y, z)) is Ok,
            transaction_text(Self::read(stamped(dotted(a, b, c), y, z)).unwrap()@) == stamped(
                dotted(strip_zeros(a), strip_zeros(b), strip_zeros(c)),
                strip_zeros(y),
                strip_zeros(z),
            ),
    {
        let t = TransactionNum {
            payer: EntityNum { shard: value_of(a), realm: value_of(b), num: value_of(c) },
            seconds: value_of(y),
            nanos: value_of(z),
        };
        lemma_transaction_normal_form(a, b, c, y, z, t);
        lemma_transaction_in(stamped(dotted(a, b, c), y, z), t);
    }
}

} // verus!
