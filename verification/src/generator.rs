//! Generators of fresh node identifiers.
use vstd::prelude::*;
use crate::id::{ValidId, ValidIdV};
use crate::text::push_char;

verus! {

/// The decimal digit character for `d < 10`.
pub open spec fn digit_char(d: nat) -> char {
    if d == 0 { '0' }
    else if d == 1 { '1' }
    else if d == 2 { '2' }
    else if d == 3 { '3' }
    else if d == 4 { '4' }
    else if d == 5 { '5' }
    else if d == 6 { '6' }
    else if d == 7 { '7' }
    else if d == 8 { '8' }
    else { '9' }
}

/// Decimal representation of `n`, without leading zeros.
pub open spec fn decimal(n: nat) -> Seq<char>
    decreases n,
{
    if n < 10 {
        seq![digit_char(n)]
    } else {
        decimal(n / 10).push(digit_char(n % 10))
    }
}

proof fn lemma_decimal_nonempty(n: nat)
    ensures
        decimal(n).len() >= 1,
        n >= 10 ==> decimal(n).len() >= 2,
    decreases n,
{
    if n >= 10 {
        lemma_decimal_nonempty(n / 10);
    }
}

/// Distinct numbers have distinct decimal representations.
pub proof fn lemma_decimal_injective(n: nat, m: nat)
    requires
        decimal(n) == decimal(m),
    ensures
        n == m,
    decreases n,
{
    lemma_decimal_nonempty(n);
    lemma_decimal_nonempty(m);
    let dn = decimal(n);
    let dm = decimal(m);
    assert(dn.last() == dm.last());
    if n >= 10 && m >= 10 {
        assert(dn.drop_last() =~= decimal(n / 10));
        assert(dm.drop_last() =~= decimal(m / 10));
        lemma_decimal_injective(n / 10, m / 10);
    }
}

fn digit(d: usize) -> (c: char)
    requires
        d < 10,
    ensures
        c == digit_char(d as nat),
{
    if d == 0 { '0' }
    else if d == 1 { '1' }
    else if d == 2 { '2' }
    else if d == 3 { '3' }
    else if d == 4 { '4' }
    else if d == 5 { '5' }
    else if d == 6 { '6' }
    else if d == 7 { '7' }
    else if d == 8 { '8' }
    else { '9' }
}

/// Appends the decimal representation of `n` to `s`.
pub fn push_decimal(s: &mut String, n: usize)
    ensures
        final(s)@ == old(s)@ + decimal(n as nat),
{
    let mut digits: Vec<char> = Vec::new();
    let mut m = n;
    while m >= 10
        invariant
            decimal(n as nat) == decimal(m as nat) + digits@.reverse(),
        decreases m,
    {
        let ghost old_digits = digits@;
        digits.push(digit(m % 10));
        proof {
            assert(digits@.reverse() =~= seq![digit_char((m % 10) as nat)] + old_digits.reverse());
            assert(decimal(m as nat) == decimal((m / 10) as nat).push(digit_char((m % 10) as nat)));
            assert(decimal((m / 10) as nat).push(digit_char((m % 10) as nat)) + old_digits.reverse()
                =~= decimal((m / 10) as nat) + (seq![digit_char((m % 10) as nat)] + old_digits.reverse()));
        }
        m = m / 10;
    }
    let ghost old_digits = digits@;
    digits.push(digit(m));
    proof {
        assert(digits@.reverse() =~= seq![digit_char(m as nat)] + old_digits.reverse());
        assert(decimal(n as nat) =~= digits@.reverse());
    }
    let ghost start = s@;
    let mut i: usize = digits.len();
    while i > 0
        invariant
            i <= digits@.len(),
            s@ == start + digits@.reverse().subrange(0, (digits@.len() - i) as int),
        decreases i,
    {
        let ghost before = s@;
        push_char(s, digits[i - 1]);
        proof {
            let r = digits@.reverse();
            let k = (digits@.len() - i) as int;
            assert(r[k] == digits@[i - 1]);
            assert(r.subrange(0, k + 1) =~= r.subrange(0, k).push(r[k]));
        }
        i = i - 1;
    }
    proof {
        assert(digits@.reverse().subrange(0, digits@.len() as int) =~= digits@.reverse());
    }
}

/// The identifier generated by a numbered generator with the given prefix
/// and count: `_:` followed by the prefix and the count in decimal.
pub open spec fn blank_id_text(prefix: Seq<char>, count: nat) -> Seq<char> {
    "_:"@ + prefix + decimal(count)
}

/// Generates numbered blank node identifiers, with an optional prefix.
pub struct Blank<M> {
    metadata: M,
    prefix: String,
    count: usize,
}

impl<M> Blank<M> {
    pub closed spec fn spec_metadata(&self) -> M {
        self.metadata
    }

    pub closed spec fn spec_prefix(&self) -> Seq<char> {
        self.prefix@
    }

    pub closed spec fn spec_count(&self) -> nat {
        self.count as nat
    }

    /// Creates a new numbered generator with no prefix.
    pub fn new(metadata: M) -> (r: Self)
        ensures
            r.spec_metadata() == metadata,
            r.spec_prefix() == Seq::<char>::empty(),
            r.spec_count() == 0,
    {
        Self::new_full(metadata, String::new(), 0)
    }

    /// Creates a new numbered generator with no prefix, starting with the
    /// given `offset` number.
    pub fn new_with_offset(metadata: M, offset: usize) -> (r: Self)
        ensures
            r.spec_metadata() == metadata,
            r.spec_prefix() == Seq::<char>::empty(),
            r.spec_count() == offset,
    {
        Self::new_full(metadata, String::new(), offset)
    }

    /// Creates a new numbered generator with the given prefix.
    pub fn new_with_prefix(metadata: M, prefix: String) -> (r: Self)
        ensures
            r.spec_metadata() == metadata,
            r.spec_prefix() == prefix@,
            r.spec_count() == 0,
    {
        Self::new_full(metadata, prefix, 0)
    }

    /// Creates a new numbered generator with the given prefix, starting with
    /// the given `offset` number.
    pub fn new_full(metadata: M, prefix: String, offset: usize) -> (r: Self)
        ensures
            r.spec_metadata() == metadata,
            r.spec_prefix() == prefix@,
            r.spec_count() == offset,
    {
        Self { metadata, prefix, count: offset }
    }

    /// The metadata attached to generated identifiers.
    pub fn metadata(&self) -> (r: &M)
        ensures
            *r == self.spec_metadata(),
    {
        &self.metadata
    }

    /// The prefix of this generator.
    pub fn prefix(&self) -> (r: &str)
        ensures
            r@ == self.spec_prefix(),
    {
        self.prefix.as_str()
    }

    /// The number of already generated identifiers (plus the offset).
    pub fn count(&self) -> (r: usize)
        ensures
            r == self.spec_count(),
    {
        self.count
    }

    /// Generates the next blank node identifier.
    pub fn next_blank_id(&mut self) -> (r: String)
        requires
            old(self).spec_count() < usize::MAX,
        ensures
            r@ == blank_id_text(old(self).spec_prefix(), old(self).spec_count()),
            final(self).spec_count() == old(self).spec_count() + 1,
            final(self).spec_prefix() == old(self).spec_prefix(),
            final(self).spec_metadata() == old(self).spec_metadata(),
    {
        let mut id = String::new();
        push_char(&mut id, '_');
        push_char(&mut id, ':');
        id.append(self.prefix.as_str());
        push_decimal(&mut id, self.count);
        proof {
            reveal_strlit("_:");
            assert(id@ =~= blank_id_text(self.prefix@, self.count as nat));
        }
        self.count = self.count + 1;
        id
    }

    /// Generates the next node identifier, a blank node identifier, with the
    /// generator's metadata.
    pub fn next(&mut self) -> (r: (ValidId, M))
        where
            M: Copy,
        requires
            old(self).spec_count() < usize::MAX,
        ensures
            r.0@ == ValidIdV::Blank(blank_id_text(old(self).spec_prefix(), old(self).spec_count())),
            r.1 == old(self).spec_metadata(),
            final(self).spec_count() == old(self).spec_count() + 1,
            final(self).spec_prefix() == old(self).spec_prefix(),
    {
        let id = self.next_blank_id();
        (ValidId::Blank(id), self.metadata)
    }
}

/// Identifiers made by a numbered generator for different counts are
/// different: a generator never hands out the same identifier twice.
pub proof fn lemma_blank_ids_distinct(prefix: Seq<char>, n: nat, m: nat)
    requires
        n != m,
    ensures
        blank_id_text(prefix, n) != blank_id_text(prefix, m),
{
    let head = "_:"@ + prefix;
    if blank_id_text(prefix, n) == blank_id_text(prefix, m) {
        assert((head + decimal(n)).subrange(head.len() as int, (head + decimal(n)).len() as int) =~= decimal(n));
        assert((head + decimal(m)).subrange(head.len() as int, (head + decimal(m)).len() as int) =~= decimal(m));
        lemma_decimal_injective(n, m);
    }
}


/// One call of `next_blank_id` (or `next`) takes the generator from `a` to
/// `b`: the count goes up by one and the prefix stays.
pub open spec fn blank_step<M>(a: Blank<M>, b: Blank<M>) -> bool {
    b.spec_count() == a.spec_count() + 1 && b.spec_prefix() == a.spec_prefix()
}

/// After `n` calls, a generator started with count `k` has count `k + n`,
/// and the identifiers that the calls handed out are pairwise different:
/// `gs` lists the generator before each call and after the last one.
pub proof fn lemma_blank_count_after_calls<M>(gs: Seq<Blank<M>>)
    requires
        gs.len() > 0,
        forall|i: int| 0 <= i < gs.len() - 1 ==> blank_step(#[trigger] gs[i], gs[i + 1]),
    ensures
        forall|i: int| 0 <= i < gs.len() ==> (#[trigger] gs[i]).spec_count() == gs[0].spec_count() + i
            && gs[i].spec_prefix() == gs[0].spec_prefix(),
        forall|i: int, j: int| 0 <= i < j < gs.len() - 1 ==>
            blank_id_text(gs[i].spec_prefix(), gs[i].spec_count()) != blank_id_text(gs[j].spec_prefix(), gs[j].spec_count()),
    decreases gs.len(),
{
    if gs.len() > 1 {
        let p = gs.drop_last();
        assert forall|i: int| 0 <= i < p.len() - 1 implies blank_step(#[trigger] p[i], p[i + 1]) by {
            assert(blank_step(gs[i], gs[i + 1]));
        }
        lemma_blank_count_after_calls(p);
        assert forall|i: int| 0 <= i < gs.len() implies (#[trigger] gs[i]).spec_count() == gs[0].spec_count() + i
            && gs[i].spec_prefix() == gs[0].spec_prefix() by {
            if i < gs.len() - 1 {
                assert(p[i] == gs[i]);
            } else {
                assert(p[i - 1] == gs[i - 1]);
                assert(blank_step(gs[i - 1], gs[i]));
            }
        }
        assert forall|i: int, j: int| 0 <= i < j < gs.len() - 1 implies
            blank_id_text(gs[i].spec_prefix(), gs[i].spec_count()) != blank_id_text(gs[j].spec_prefix(), gs[j].spec_count()) by {
            assert(gs[i].spec_count() == gs[0].spec_count() + i);
            assert(gs[j].spec_count() == gs[0].spec_count() + j);
            assert(gs[i].spec_prefix() == gs[0].spec_prefix());
            assert(gs[j].spec_prefix() == gs[0].spec_prefix());
            lemma_blank_ids_distinct(gs[0].spec_prefix(), gs[i].spec_count(), gs[j].spec_count());
        }
    }
}

/// The version 3 UUID (MD5 hash) of a name in a namespace, as
/// `uuid::Uuid::new_v3` computes it.
pub uninterp spec fn uuid_v3_of(namespace: Seq<u8>, name: Seq<char>) -> Seq<u8>;

/// The version 5 UUID (SHA-1 hash) of a name in a namespace, as
/// `uuid::Uuid::new_v5` computes it.
pub uninterp spec fn uuid_v5_of(namespace: Seq<u8>, name: Seq<char>) -> Seq<u8>;

/// The lowercase hexadecimal digit for `n < 16`.
pub open spec fn hex_digit(n: u8) -> char {
    if n < 10 {
        (('0' as u8) + n) as char
    } else {
        (('a' as u8) + n - 10) as char
    }
}

/// The bytes of a UUID in the hyphenated lowercase hexadecimal form:
/// `8-4-4-4-12` digits.
pub open spec fn uuid_hyphenated(b: Seq<u8>) -> Seq<char>
    decreases b.len(),
{
    if b.len() == 0 {
        Seq::empty()
    } else {
        let sep: Seq<char> = if b.len() == 5 || b.len() == 7 || b.len() == 9 || b.len() == 11 {
            seq!['-']
        } else {
            Seq::empty()
        };
        uuid_hyphenated(b.drop_last()) + sep + seq![hex_digit(b.last() / 16), hex_digit(b.last() % 16)]
    }
}

/// The URN of a UUID: `urn:uuid:` followed by its hyphenated form.
pub open spec fn urn_text(b: Seq<u8>) -> Seq<char> {
    "urn:uuid:"@ + uuid_hyphenated(b)
}

/// The version 3 UUID of `name` in `namespace` (`uuid::Uuid::new_v3`).
///
/// Trusted: the result is `uuid_v3_of(namespace, name)`, the name's UTF-8
/// bytes being hashed.
#[verifier::external_body]
fn uuid_v3(namespace: &[u8; 16], name: &str) -> (r: [u8; 16])
    ensures
        r@ == uuid_v3_of(namespace@, name@),
{
    *uuid::Uuid::new_v3(&uuid::Uuid::from_bytes(*namespace), name.as_bytes()).as_bytes()
}

/// The version 5 UUID of `name` in `namespace` (`uuid::Uuid::new_v5`).
///
/// Trusted: the result is `uuid_v5_of(namespace, name)`, the name's UTF-8
/// bytes being hashed.
#[verifier::external_body]
fn uuid_v5(namespace: &[u8; 16], name: &str) -> (r: [u8; 16])
    ensures
        r@ == uuid_v5_of(namespace@, name@),
{
    *uuid::Uuid::new_v5(&uuid::Uuid::from_bytes(*namespace), name.as_bytes()).as_bytes()
}

/// A random version 4 UUID (`uuid::Uuid::new_v4`).
///
/// Nothing is stated of the bytes: they come from the system's random
/// number generator.
#[verifier::external_body]
fn uuid_v4() -> (r: [u8; 16]) {
    *uuid::Uuid::new_v4().as_bytes()
}

/// The URN of a UUID, in lowercase (`uuid::adapter::Urn::encode_lower`).
///
/// Trusted: the text is `urn:uuid:` followed by the sixteen bytes in
/// lowercase hexadecimal, hyphenated after the 4th, 6th, 8th and 10th byte,
/// as the crate documents.
#[verifier::external_body]
fn uuid_urn(bytes: &[u8; 16]) -> (r: String)
    ensures
        r@ == urn_text(bytes@),
{
    let mut buffer = [0u8; 45];
    uuid::Uuid::from_bytes(*bytes).to_urn().encode_lower(&mut buffer).to_string()
}

/// Generator of UUID node identifiers (URNs), by UUID version.
pub enum Uuid<M> {
    /// Version 3: a namespace UUID and a name.
    V3(M, [u8; 16], String),
    /// Version 4: random.
    V4(M),
    /// Version 5: a namespace UUID and a name.
    V5(M, [u8; 16], String),
}

impl<M: Copy> Uuid<M> {
    /// The next UUID, with the generator's metadata.
    pub fn next_uuid(&self) -> (r: ([u8; 16], M))
        ensures
            match self {
                Uuid::V3(m, ns, name) => r.0@ == uuid_v3_of(ns@, name@) && r.1 == *m,
                Uuid::V4(m) => r.1 == *m,
                Uuid::V5(m, ns, name) => r.0@ == uuid_v5_of(ns@, name@) && r.1 == *m,
            },
    {
        match self {
            Uuid::V3(m, ns, name) => (uuid_v3(ns, name.as_str()), *m),
            Uuid::V4(m) => (uuid_v4(), *m),
            Uuid::V5(m, ns, name) => (uuid_v5(ns, name.as_str()), *m),
        }
    }

    /// Generates the next node identifier: the URN of the next UUID, with
    /// the generator's metadata.
    pub fn next(&mut self) -> (r: (ValidId, M))
        ensures
            *final(self) == *old(self),
            match *old(self) {
                Uuid::V3(m, ns, name) => r.0@ == ValidIdV::Iri(urn_text(uuid_v3_of(ns@, name@))) && r.1 == m,
                Uuid::V4(m) => r.1 == m && exists|b: Seq<u8>| b.len() == 16 && r.0@ == ValidIdV::Iri(urn_text(b)),
                Uuid::V5(m, ns, name) => r.0@ == ValidIdV::Iri(urn_text(uuid_v5_of(ns@, name@))) && r.1 == m,
            },
    {
        let (bytes, m) = self.next_uuid();
        let urn = uuid_urn(&bytes);
        proof {
            assert(bytes@.len() == 16);
        }
        (ValidId::Iri(urn), m)
    }
}
} // verus!
