//! Identifiers of the connections that wait at the relay.
use crate::random;
use vstd::prelude::*;

verus! {

/// A universally unique identifier, by the value of its 128 bits.
#[derive(Debug, Clone, Copy, PartialEq, Eq, Hash, Structural)]
pub struct Uuid {
    pub value: u128,
}

/// The lowercase hexadecimal digit for a value below 16.
pub open spec fn hex_digit(d: nat) -> char {
    if d < 10 {
        (('0' as u32 + d) as u32) as char
    } else {
        (('a' as u32 + d - 10) as u32) as char
    }
}

/// The last `count` hexadecimal digits of a number.
pub open spec fn hex_digits(n: nat, count: nat) -> Seq<char>
    decreases count,
{
    if count == 0 {
        Seq::empty()
    } else {
        hex_digits(n / 16, (count - 1) as nat).push(hex_digit(n % 16))
    }
}

/// An identifier as text: 32 hexadecimal digits with hyphens behind the eighth,
/// the twelfth, the sixteenth and the twentieth.
pub open spec fn hyphenated(value: u128) -> Seq<char> {
    let digits = hex_digits(value as nat, 32);
    digits.subrange(0, 8) + seq!['-'] + digits.subrange(8, 12) + seq!['-'] + digits.subrange(12, 16)
        + seq!['-'] + digits.subrange(16, 20) + seq!['-'] + digits.subrange(20, 32)
}

/// Whether the bits say that an identifier is random: version 4, and the variant
/// of RFC 4122.
pub open spec fn is_v4(value: u128) -> bool {
    &&& (value / 0x1000_0000_0000_0000_0000) % 16 == 4
    &&& (value / 0x4000_0000_0000_0000) % 4 == 2
}

/// `uuid::Uuid::new_v4`: random bits, but for those that tell the version and
/// the variant. It takes them from the operating system, and panics if that has
/// none to give.
#[verifier::external_body]
fn random_value() -> (r: u128)
    ensures
        is_v4(r),
{
    uuid::Uuid::new_v4().as_u128()
}

/// `uuid::Uuid` as text: lowercase hexadecimal digits in groups of 8, 4, 4, 4
/// and 12 with hyphens between them.
#[verifier::external_body]
fn value_text(value: u128) -> (r: String)
    ensures
        r@ == hyphenated(value),
{
    uuid::Uuid::from_u128(value).to_string()
}

impl Uuid {
    /// Draws an identifier. Which one is left to chance.
    pub fn new_v4() -> (r: Uuid)
        ensures
            is_v4(r.value),
    {
        Uuid { value: random_value() }
    }

    /// The identifier as text.
    pub fn to_text(&self) -> (r: String)
        ensures
            r@ == hyphenated(self.value),
    {
        value_text(self.value)
    }
}

proof fn lemma_hex_digits(n: nat, count: nat)
    ensures
        hex_digits(n, count).len() == count,
        forall|i: int|
            0 <= i < count ==> random::is_label_char(#[trigger] hex_digits(n, count)[i]),
    decreases count,
{
    if count > 0 {
        lemma_hex_digits(n / 16, (count - 1) as nat);
    }
}

/// An identifier as text can stand as a label of a host.
pub proof fn law_uuid_text_is_label(value: u128)
    ensures
        random::is_label(hyphenated(value)),
        hyphenated(value).len() == 36,
{
    lemma_hex_digits(value as nat, 32);
}

spec fn pow16(n: nat) -> nat
    decreases n,
{
    if n == 0 {
        1
    } else {
        16 * pow16((n - 1) as nat)
    }
}

proof fn lemma_hex_digits_injective(a: nat, b: nat, count: nat)
    requires
        a < pow16(count),
        b < pow16(count),
        hex_digits(a, count) == hex_digits(b, count),
    ensures
        a == b,
    decreases count,
{
    if count > 0 {
        let less = (count - 1) as nat;
        let (p, q) = (hex_digits(a, count), hex_digits(b, count));
        assert(p.drop_last() =~= hex_digits(a / 16, less));
        assert(q.drop_last() =~= hex_digits(b / 16, less));
        assert(p.last() == hex_digit(a % 16));
        assert(q.last() == hex_digit(b % 16));
        lemma_hex_digits_injective(a / 16, b / 16, less);
    }
}

/// Identifiers with the same text are the same.
pub proof fn law_uuid_text_is_injective(a: u128, b: u128)
    requires
        hyphenated(a) == hyphenated(b),
    ensures
        a == b,
{
    let (p, q) = (hex_digits(a as nat, 32), hex_digits(b as nat, 32));
    lemma_hex_digits(a as nat, 32);
    lemma_hex_digits(b as nat, 32);
    let (s, t) = (hyphenated(a), hyphenated(b));
    assert forall|i: int| 0 <= i < 32 implies p[i] == q[i] by {
        let at = if i < 8 {
            i
        } else if i < 12 {
            i + 1
        } else if i < 16 {
            i + 2
        } else if i < 20 {
            i + 3
        } else {
            i + 4
        };
        assert(s[at] == p[i]);
        assert(t[at] == q[i]);
    }
    assert(p =~= q);
    reveal_with_fuel(pow16, 33);
    lemma_hex_digits_injective(a as nat, b as nat, 32);
}

} // verus!
