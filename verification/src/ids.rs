//! Identifiers of cards, columns, boards and organizations.
use vstd::prelude::*;

use crate::text;

verus! {

/// A universally unique identifier.
#[derive(Clone, Copy, Debug, PartialEq, Eq, Hash, Structural)]
pub struct Uuid {
    pub bits: u128,
}

/// The lower-case hexadecimal digit for a value below sixteen.
pub open spec fn hex_char(d: nat) -> char {
    if d < 10 {
        (48 + d) as char
    } else {
        (87 + d) as char
    }
}

/// The value of a hexadecimal digit of either case.
pub open spec fn hex_value(c: char) -> Option<nat> {
    if '0' <= c && c <= '9' {
        Some((c as u32 - 48) as nat)
    } else if 'a' <= c && c <= 'f' {
        Some((c as u32 - 87) as nat)
    } else if 'A' <= c && c <= 'F' {
        Some((c as u32 - 55) as nat)
    } else {
        None
    }
}

/// The last `count` hexadecimal digits of a number.
pub open spec fn hex_digits(n: nat, count: nat) -> Seq<char>
    decreases count,
{
    if count == 0 {
        Seq::empty()
    } else {
        hex_digits(n / 16, (count - 1) as nat).push(hex_char(n % 16))
    }
}

/// The number that a sequence of hexadecimal digits denotes.
pub open spec fn hex_number(s: Seq<char>) -> Option<nat>
    decreases s.len(),
{
    if s.len() == 0 {
        Some(0)
    } else {
        match (hex_number(s.drop_last()), hex_value(s.last())) {
            (Some(n), Some(d)) => Some(n * 16 + d),
            _ => None,
        }
    }
}

/// The hyphenated lower-case form: groups of 8, 4, 4, 4 and 12 digits.
pub open spec fn hyphenated(bits: u128) -> Seq<char> {
    let h = hex_digits(bits as nat, 32);
    h.subrange(0, 8) + seq!['-'] + h.subrange(8, 12) + seq!['-'] + h.subrange(12, 16) + seq!['-']
        + h.subrange(16, 20) + seq!['-'] + h.subrange(20, 32)
}

/// The digits of a hyphenated identifier.
pub open spec fn without_hyphens(s: Seq<char>) -> Option<Seq<char>> {
    if s.len() == 36 && s[8] == '-' && s[13] == '-' && s[18] == '-' && s[23] == '-' {
        Some(
            s.subrange(0, 8) + s.subrange(9, 13) + s.subrange(14, 18) + s.subrange(19, 23)
                + s.subrange(24, 36),
        )
    } else {
        None
    }
}

/// The digits of an identifier in any of the accepted forms: 32 digits, the
/// hyphenated form, the hyphenated form in braces or after `urn:uuid:`.
pub open spec fn uuid_digits(s: Seq<char>) -> Option<Seq<char>> {
    if s.len() == 32 {
        Some(s)
    } else if s.len() == 38 && s[0] == '{' && s[37] == '}' {
        without_hyphens(s.subrange(1, 37))
    } else if s.len() == 45 && text::lower(s.take(9)) == "urn:uuid:"@ {
        without_hyphens(s.skip(9))
    } else {
        without_hyphens(s)
    }
}

/// The identifier that a text denotes.
pub open spec fn parsed_uuid(s: Seq<char>) -> Option<u128> {
    match uuid_digits(s) {
        Some(digits) => match hex_number(digits) {
            Some(n) => Some(n as u128),
            None => None,
        },
        None => None,
    }
}

/// The hyphenated `Display` of `uuid::Uuid`.
///
/// Claimed: the lower-case digits in groups of 8, 4, 4, 4 and 12.
#[verifier::external_body]
pub(crate) fn uuid_text(bits: u128) -> (r: String)
    ensures
        r@ == hyphenated(bits),
{
    uuid::Uuid::from_u128(bits).to_string()
}

/// `uuid::Uuid::parse_str`.
///
/// Claimed: it accepts 32 hexadecimal digits of either case, bare, hyphenated,
/// hyphenated in braces, or hyphenated after `urn:uuid:` in any case, and
/// returns the number that they denote; it rejects everything else.
#[verifier::external_body]
pub(crate) fn uuid_from_text(s: &str) -> (r: Option<u128>)
    ensures
        r == parsed_uuid(s@),
{
    uuid::Uuid::parse_str(s).ok().map(|u| u.as_u128())
}

/// `uuid::Uuid::new_v4`: a random identifier.
///
/// Claimed, of every outcome: its version is 4 and its variant that of RFC 9562.
#[verifier::external_body]
pub(crate) fn random_uuid() -> (r: u128)
    ensures
        (r / 0x1000_0000_0000_0000_0000) % 16 == 4,
        (r / 0x4000_0000_0000_0000) % 4 == 2,
{
    uuid::Uuid::new_v4().as_u128()
}

impl Uuid {
    /// Whether an identifier is of the kind that is drawn at random: its version is
    /// 4 and its variant that of RFC 9562.
    pub open spec fn is_v4(self) -> bool {
        (self.bits / 0x1000_0000_0000_0000_0000) % 16 == 4 && (self.bits / 0x4000_0000_0000_0000)
            % 4 == 2
    }

    /// The identifier with the given bits.
    pub fn from_u128(bits: u128) -> (r: Uuid)
        ensures
            r.bits == bits,
    {
        Uuid { bits }
    }

    /// A fresh random identifier of version 4.
    pub fn new_v4() -> (r: Uuid)
        ensures
            r.is_v4(),
    {
        Uuid { bits: random_uuid() }
    }

    /// The hyphenated form of an identifier.
    pub open spec fn key(self) -> Seq<char> {
        hyphenated(self.bits)
    }

    /// Renders the identifier in its hyphenated form.
    pub fn to_string(&self) -> (r: String)
        ensures
            r@ == self.key(),
    {
        uuid_text(self.bits)
    }

    /// Reads an identifier.
    pub fn parse_str(s: &str) -> (r: Option<Uuid>)
        ensures
            match r {
                Some(u) => parsed_uuid(s@) == Some(u.bits),
                None => parsed_uuid(s@) is None,
            },
    {
        match uuid_from_text(s) {
            Some(bits) => Some(Uuid { bits }),
            None => None,
        }
    }
}

/// Whether an identifier is the given one or, where none is given, one that is
/// drawn at random.
pub open spec fn given_or_drawn(given: Option<Uuid>, id: Uuid) -> bool {
    match given {
        Some(g) => id == g,
        None => id.is_v4(),
    }
}

/// Whether all identifiers are of the kind that is drawn at random.
pub open spec fn all_drawn(ids: Seq<Uuid>) -> bool {
    forall|k: int| 0 <= k < ids.len() ==> (#[trigger] ids[k]).is_v4()
}

/// `16` to the power of `k`.
spec fn pow16(k: nat) -> nat
    decreases k,
{
    if k == 0 {
        1
    } else {
        16 * pow16((k - 1) as nat)
    }
}

proof fn lemma_pow16_32()
    ensures
        pow16(32) == 0x1_0000_0000_0000_0000_0000_0000_0000_0000,
{
    reveal_with_fuel(pow16, 33);
}

proof fn lemma_hex_digits_len(n: nat, count: nat)
    ensures
        hex_digits(n, count).len() == count,
    decreases count,
{
    if count > 0 {
        lemma_hex_digits_len(n / 16, (count - 1) as nat);
    }
}

proof fn lemma_hex_round_trip(n: nat, count: nat)
    requires
        n < pow16(count),
    ensures
        hex_number(hex_digits(n, count)) == Some(n),
    decreases count,
{
    if count > 0 {
        let s = hex_digits(n, count);
        lemma_hex_round_trip(n / 16, (count - 1) as nat);
        assert(s.drop_last() == hex_digits(n / 16, (count - 1) as nat));
        assert(hex_value(hex_char(n % 16)) == Some(n % 16));
    }
}

/// Rendering an identifier and reading it back gives the identifier.
pub proof fn law_uuid_round_trip(u: Uuid)
    ensures
        parsed_uuid(u.key()) == Some(u.bits),
{
    let h = hex_digits(u.bits as nat, 32);
    lemma_hex_digits_len(u.bits as nat, 32);
    lemma_pow16_32();
    lemma_hex_round_trip(u.bits as nat, 32);
    let s = u.key();
    assert(s.len() == 36);
    assert(without_hyphens(s) == Some(h)) by {
        assert(s.subrange(0, 8) + s.subrange(9, 13) + s.subrange(14, 18) + s.subrange(19, 23)
            + s.subrange(24, 36) == h);
    }
}

/// Two identifiers with the same rendering are the same, so a map keyed by
/// renderings keeps identifiers apart.
pub proof fn law_uuid_key_injective(a: Uuid, b: Uuid)
    ensures
        a.key() == b.key() <==> a == b,
{
    law_uuid_round_trip(a);
    law_uuid_round_trip(b);
}

/// An identifier that is given is taken as it is; where none is given, one of
/// version 4 and the variant of RFC 9562 is.
pub proof fn law_given_identifier_is_taken(given: Option<Uuid>, id: Uuid)
    ensures
        given matches Some(g) ==> (given_or_drawn(given, id) <==> id == g),
        given is None ==> (given_or_drawn(given, id) <==> (id.bits / 0x1000_0000_0000_0000_0000)
            % 16 == 4 && (id.bits / 0x4000_0000_0000_0000) % 4 == 2),
        all_drawn(seq![id]) <==> given_or_drawn(None, id),
{
    assert(seq![id][0] == id);
}

} // verus!
