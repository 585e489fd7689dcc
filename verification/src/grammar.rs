//! The text grammar of identifiers.
//!
//! An entity is written `<shard>.<realm>.<num>`, three numerals joined by
//! dots. A transaction is written `<payer>@<seconds>.<nanos>`: the entity
//! that pays, then the moment from which the transaction is valid. Numerals
//! may carry leading zeros; the canonical text has none.

use crate::decimal::{
    decimal, is_canonical, is_digit, lemma_decimal_of_value, lemma_decimal_spells, lemma_run_end,
    lemma_run_end_unique, lemma_strip_zeros, run_end, spells, strip_zeros, value_of,
};
use vstd::prelude::*;
use vstd::utf8::is_ascii_chars;

verus! {

/// The three numbers that name an entity of the ledger.
pub struct EntityNum {
    pub shard: nat,
    pub realm: nat,
    pub num: nat,
}

impl EntityNum {
    /// Each of the three numbers fits in 64 bits.
    pub open spec fn fits(self) -> bool {
        self.shard <= u64::MAX && self.realm <= u64::MAX && self.num <= u64::MAX
    }
}

/// Three texts joined by dots.
pub open spec fn dotted(a: Seq<char>, b: Seq<char>, c: Seq<char>) -> Seq<char> {
    a + seq!['.'] + b + seq!['.'] + c
}

/// `s` is three numerals joined by dots, and they denote the numbers of `e`.
pub open spec fn spells_entity(s: Seq<char>, e: EntityNum) -> bool {
    exists|a: Seq<char>, b: Seq<char>, c: Seq<char>|
        #[trigger] dotted(a, b, c) == s && spells(a, e.shard) && spells(b, e.realm) && spells(
            c,
            e.num,
        )
}

/// The canonical text of an entity.
pub open spec fn entity_text(e: EntityNum) -> Seq<char> {
    dotted(decimal(e.shard), decimal(e.realm), decimal(e.num))
}

/// The entity written in `s` from position `from` on, with the position at
/// which its text ends: three runs of digits, none of them empty, with a dot
/// after the first and after the second.
pub open spec fn entity_at(s: Seq<char>, from: int) -> Option<(int, EntityNum)> {
    let p = run_end(s, from);
    let q = run_end(s, p + 1);
    let r = run_end(s, q + 1);
    if from < p < s.len() && s[p] == '.' && p + 1 < q < s.len() && s[q] == '.' && q + 1 < r {
        Some(
            (
                r,
                EntityNum {
                    shard: value_of(s.subrange(from, p)),
                    realm: value_of(s.subrange(p + 1, q)),
                    num: value_of(s.subrange(q + 1, r)),
                },
            ),
        )
    } else {
        None
    }
}

/// Where three numerals joined by dots stand in the joined text.
pub proof fn lemma_dotted_parts(a: Seq<char>, b: Seq<char>, c: Seq<char>)
    ensures
        ({
            let t = dotted(a, b, c);
            let p = a.len() as int;
            let q = p + 1 + b.len();
            &&& t.len() == q + 1 + c.len()
            &&& t.subrange(0, p) == a
            &&& t[p] == '.'
            &&& t.subrange(p + 1, q) == b
            &&& t[q] == '.'
            &&& t.subrange(q + 1, t.len() as int) == c
        }),
{
    let t = dotted(a, b, c);
    let p = a.len() as int;
    let q = p + 1 + b.len();
    assert(t.subrange(0, p) =~= a);
    assert(t.subrange(p + 1, q) =~= b);
    assert(t.subrange(q + 1, t.len() as int) =~= c);
}

/// An entity that is written between `from` and `to`, where `to` is the end
/// of `s` or stands in front of a character that is no digit, is the one that
/// `entity_at` finds.
pub proof fn lemma_entity_found(s: Seq<char>, from: int, to: int, e: EntityNum)
    requires
        0 <= from <= to <= s.len(),
        to < s.len() ==> !is_digit(s[to]),
        spells_entity(s.subrange(from, to), e),
    ensures
        entity_at(s, from) == Some((to, e)),
{
    let t = s.subrange(from, to);
    let (a, b, c) = choose|a: Seq<char>, b: Seq<char>, c: Seq<char>|
        #[trigger] dotted(a, b, c) == t && spells(a, e.shard) && spells(b, e.realm) && spells(
            c,
            e.num,
        );
    lemma_dotted_parts(a, b, c);
    let m = a.len() as int;
    let n = m + 1 + b.len();
    let p = from + m;
    let q = from + n;
    assert(s.subrange(from, p) =~= t.subrange(0, m));
    assert(s[p] == t[m]);
    lemma_run_end_unique(s, from, p);
    assert(s.subrange(p + 1, q) =~= t.subrange(m + 1, n));
    assert(s[q] == t[n]);
    lemma_run_end_unique(s, p + 1, q);
    assert(s.subrange(q + 1, to) =~= t.subrange(n + 1, t.len() as int));
    lemma_run_end_unique(s, q + 1, to);
}

/// What `entity_at` finds is written there, and its text ends at the end of
/// `s` or in front of a character that is no digit.
pub proof fn lemma_entity_at(s: Seq<char>, from: int)
    requires
        0 <= from <= s.len(),
        entity_at(s, from) is Some,
    ensures
        ({
            let (to, e) = entity_at(s, from).unwrap();
            &&& from <= to <= s.len()
            &&& to < s.len() ==> !is_digit(s[to])
            &&& spells_entity(s.subrange(from, to), e)
        }),
{
    let (to, e) = entity_at(s, from).unwrap();
    let p = run_end(s, from);
    let q = run_end(s, p + 1);
    lemma_run_end(s, from);
    lemma_run_end(s, p + 1);
    lemma_run_end(s, q + 1);
    let a = s.subrange(from, p);
    let b = s.subrange(p + 1, q);
    let c = s.subrange(q + 1, to);
    assert(dotted(a, b, c) =~= s.subrange(from, to));
}

/// A text spells at most one entity.
pub proof fn lemma_entity_unique(s: Seq<char>, e1: EntityNum, e2: EntityNum)
    requires
        spells_entity(s, e1),
        spells_entity(s, e2),
    ensures
        e1 == e2,
{
    assert(s.subrange(0, s.len() as int) =~= s);
    lemma_entity_found(s, 0, s.len() as int, e1);
    lemma_entity_found(s, 0, s.len() as int, e2);
}

/// The canonical text of an entity spells that entity.
pub proof fn lemma_entity_text_spells(e: EntityNum)
    ensures
        spells_entity(entity_text(e), e),
{
    lemma_decimal_spells(e.shard);
    lemma_decimal_spells(e.realm);
    lemma_decimal_spells(e.num);
    assert(dotted(decimal(e.shard), decimal(e.realm), decimal(e.num)) == entity_text(e));
}

/// Writing back the entity that three numerals spell gives the same three
/// numerals without their leading zeros, joined by dots as before.
pub proof fn lemma_entity_normal_form(a: Seq<char>, b: Seq<char>, c: Seq<char>, e: EntityNum)
    requires
        spells(a, e.shard),
        spells(b, e.realm),
        spells(c, e.num),
    ensures
        spells_entity(dotted(a, b, c), e),
        entity_text(e) == dotted(strip_zeros(a), strip_zeros(b), strip_zeros(c)),
        is_canonical(a) && is_canonical(b) && is_canonical(c) ==> entity_text(e) == dotted(a, b, c),
{
    lemma_decimal_of_value(a);
    lemma_decimal_of_value(b);
    lemma_decimal_of_value(c);
    lemma_strip_zeros(a);
    lemma_strip_zeros(b);
    lemma_strip_zeros(c);
}

/// The entity that the whole of `s` spells, if it spells one.
pub open spec fn entity_in(s: Seq<char>) -> Option<EntityNum> {
    match entity_at(s, 0) {
        Some((to, e)) => if to == s.len() {
            Some(e)
        } else {
            None
        },
        None => None,
    }
}

/// `entity_in` finds an entity exactly where the text spells it.
pub proof fn lemma_entity_in(s: Seq<char>, e: EntityNum)
    ensures
        spells_entity(s, e) <==> entity_in(s) == Some(e),
{
    assert(s.subrange(0, s.len() as int) =~= s);
    if spells_entity(s, e) {
        lemma_entity_found(s, 0, s.len() as int, e);
    }
    if entity_in(s) == Some(e) {
        lemma_entity_at(s, 0);
    }
}

/// The numbers that name a transaction: the entity that pays for it, and the
/// moment from which it is valid, in seconds and nanoseconds.
pub struct TransactionNum {
    pub payer: EntityNum,
    pub seconds: nat,
    pub nanos: nat,
}

/// How many nanoseconds make a second.
pub const NANOS_PER_SECOND: u32 = 1_000_000_000;

impl TransactionNum {
    /// The payer and the seconds fit in 64 bits, and the nanoseconds stay
    /// below one second.
    pub open spec fn fits(self) -> bool {
        self.payer.fits() && self.seconds <= u64::MAX && self.nanos < NANOS_PER_SECOND
    }
}

/// A payer's text, `@`, and two texts joined by a dot.
pub open spec fn stamped(payer: Seq<char>, seconds: Seq<char>, nanos: Seq<char>) -> Seq<char> {
    payer + seq!['@'] + seconds + seq!['.'] + nanos
}

/// `s` is the text of an entity, `@`, and two numerals joined by a dot, and
/// they denote the numbers of `t`.
pub open spec fn spells_transaction(s: Seq<char>, t: TransactionNum) -> bool {
    exists|x: Seq<char>, y: Seq<char>, z: Seq<char>|
        #[trigger] stamped(x, y, z) == s && spells_entity(x, t.payer) && spells(y, t.seconds)
            && spells(z, t.nanos)
}

/// The canonical text of a transaction.
pub open spec fn transaction_text(t: TransactionNum) -> Seq<char> {
    stamped(entity_text(t.payer), decimal(t.seconds), decimal(t.nanos))
}

/// The transaction that the whole of `s` spells, if it spells one: an entity,
/// `@`, and two runs of digits, neither of them empty, with a dot between.
pub open spec fn transaction_in(s: Seq<char>) -> Option<TransactionNum> {
    match entity_at(s, 0) {
        Some((r, payer)) => {
            let u = run_end(s, r + 1);
            let v = run_end(s, u + 1);
            if r < s.len() && s[r] == '@' && r + 1 < u < s.len() && s[u] == '.' && u + 1 < v
                && v == s.len() {
                Some(
                    TransactionNum {
                        payer,
                        seconds: value_of(s.subrange(r + 1, u)),
                        nanos: value_of(s.subrange(u + 1, v)),
                    },
                )
            } else {
                None
            }
        },
        None => None,
    }
}

/// Where the three parts stand in the text of a transaction.
pub proof fn lemma_stamped_parts(x: Seq<char>, y: Seq<char>, z: Seq<char>)
    ensures
        ({
            let t = stamped(x, y, z);
            let r = x.len() as int;
            let u = r + 1 + y.len();
            &&& t.len() == u + 1 + z.len()
            &&& t.subrange(0, r) == x
            &&& t[r] == '@'
            &&& t.subrange(r + 1, u) == y
            &&& t[u] == '.'
            &&& t.subrange(u + 1, t.len() as int) == z
        }),
{
    let t = stamped(x, y, z);
    let r = x.len() as int;
    let u = r + 1 + y.len();
    assert(t.subrange(0, r) =~= x);
    assert(t.subrange(r + 1, u) =~= y);
    assert(t.subrange(u + 1, t.len() as int) =~= z);
}

/// `transaction_in` finds a transaction exactly where the text spells it.
pub proof fn lemma_transaction_in(s: Seq<char>, t: TransactionNum)
    ensures
        spells_transaction(s, t) <==> transaction_in(s) == Some(t),
{
    if spells_transaction(s, t) {
        let (x, y, z) = choose|x: Seq<char>, y: Seq<char>, z: Seq<char>|
            #[trigger] stamped(x, y, z) == s && spells_entity(x, t.payer) && spells(y, t.seconds)
                && spells(z, t.nanos);
        lemma_stamped_parts(x, y, z);
        let r = x.len() as int;
        let u = r + 1 + y.len();
        lemma_entity_found(s, 0, r, t.payer);
        lemma_run_end_unique(s, r + 1, u);
        lemma_run_end_unique(s, u + 1, s.len() as int);
    }
    if transaction_in(s) == Some(t) {
        lemma_entity_at(s, 0);
        let r = entity_at(s, 0).unwrap().0;
        let u = run_end(s, r + 1);
        lemma_run_end(s, r + 1);
        lemma_run_end(s, u + 1);
        let x = s.subrange(0, r);
        let y = s.subrange(r + 1, u);
        let z = s.subrange(u + 1, s.len() as int);
        assert(stamped(x, y, z) =~= s);
    }
}

/// A text spells at most one transaction.
pub proof fn lemma_transaction_unique(s: Seq<char>, t1: TransactionNum, t2: TransactionNum)
    requires
        spells_transaction(s, t1),
        spells_transaction(s, t2),
    ensures
        t1 == t2,
{
    lemma_transaction_in(s, t1);
    lemma_transaction_in(s, t2);
}

/// The canonical text of a transaction spells that transaction.
pub proof fn lemma_transaction_text_spells(t: TransactionNum)
    ensures
        spells_transaction(transaction_text(t), t),
{
    lemma_entity_text_spells(t.payer);
    lemma_decimal_spells(t.seconds);
    lemma_decimal_spells(t.nanos);
    assert(stamped(entity_text(t.payer), decimal(t.seconds), decimal(t.nanos))
        == transaction_text(t));
}

/// Writing back the transaction that five numerals spell gives the same five
/// numerals without their leading zeros, joined as before.
pub proof fn lemma_transaction_normal_form(
    a: Seq<char>,
    b: Seq<char>,
    c: Seq<char>,
    y: Seq<char>,
    z: Seq<char>,
    t: TransactionNum,
)
    requires
        spells(a, t.payer.shard),
        spells(b, t.payer.realm),
        spells(c, t.payer.num),
        spells(y, t.seconds),
        spells(z, t.nanos),
    ensures
        spells_transaction(stamped(dotted(a, b, c), y, z), t),
        transaction_text(t) == stamped(
            dotted(strip_zeros(a), strip_zeros(b), strip_zeros(c)),
            strip_zeros(y),
            strip_zeros(z),
        ),
        is_canonical(a) && is_canonical(b) && is_canonical(c) && is_canonical(y) && is_canonical(z)
            ==> transaction_text(t) == stamped(dotted(a, b, c), y, z),
{
    lemma_entity_normal_form(a, b, c, t.payer);
    lemma_decimal_of_value(y);
    lemma_decimal_of_value(z);
    lemma_strip_zeros(y);
    lemma_strip_zeros(z);
}

/// A text that spells an entity holds digits and dots only.
pub proof fn lemma_entity_is_ascii(s: Seq<char>, e: EntityNum)
    requires
        spells_entity(s, e),
    ensures
        is_ascii_chars(s),
{
    let (a, b, c) = choose|a: Seq<char>, b: Seq<char>, c: Seq<char>|
        #[trigger] dotted(a, b, c) == s && spells(a, e.shard) && spells(b, e.realm) && spells(
            c,
            e.num,
        );
    lemma_dotted_parts(a, b, c);
    let p = a.len() as int;
    let q = p + 1 + b.len();
    assert forall|i: int| 0 <= i < s.len() implies '\0' <= #[trigger] s[i] <= '\u{7f}' by {
        if i < p {
            assert(s[i] == s.subrange(0, p)[i]);
        } else if p < i < q {
            assert(s[i] == s.subrange(p + 1, q)[i - p - 1]);
        } else if q < i {
            assert(s[i] == s.subrange(q + 1, s.len() as int)[i - q - 1]);
        }
    }
}

/// A text that spells a transaction holds digits, dots and one `@` only.
pub proof fn lemma_transaction_is_ascii(s: Seq<char>, t: TransactionNum)
    requires
        spells_transaction(s, t),
    ensures
        is_ascii_chars(s),
{
    let (x, y, z) = choose|x: Seq<char>, y: Seq<char>, z: Seq<char>|
        #[trigger] stamped(x, y, z) == s && spells_entity(x, t.payer) && spells(y, t.seconds)
            && spells(z, t.nanos);
    lemma_stamped_parts(x, y, z);
    lemma_entity_is_ascii(x, t.payer);
    let r = x.len() as int;
    let u = r + 1 + y.len();
    assert forall|i: int| 0 <= i < s.len() implies '\0' <= #[trigger] s[i] <= '\u{7f}' by {
        if i < r {
            assert(s[i] == s.subrange(0, r)[i]);
        } else if r < i < u {
            assert(s[i] == s.subrange(r + 1, u)[i - r - 1]);
        } else if u < i {
            assert(s[i] == s.subrange(u + 1, s.len() as int)[i - u - 1]);
        }
    }
}

} // verus!
