//! Random names for the hosts that the relay hands out.
use rand::seq::SliceRandom;
use vstd::prelude::*;
use vstd::string::*;

verus! {

/// The characters of a random name.
pub const CHARSET: &'static str = "abcdefghijklmnopqrstuvwxyz0123456789-";

/// Why there is no random name.
#[derive(Debug, Clone, Copy, PartialEq, Eq, Structural)]
pub enum RandomStringError {
    /// A name of no characters was asked for.
    ZeroLength,
    /// No character could be drawn.
    NoCharacter,
}

impl RandomStringError {
    /// The error in words.
    pub fn message(&self) -> (r: String)
        ensures
            r@ == match *self {
                RandomStringError::ZeroLength => "length must be greater than 0"@,
                RandomStringError::NoCharacter => "failed to generate random character"@,
            },
    {
        match self {
            RandomStringError::ZeroLength => "length must be greater than 0".to_owned(),
            RandomStringError::NoCharacter => "failed to generate random character".to_owned(),
        }
    }
}

/// Whether a character is a lowercase letter, a digit or a hyphen.
pub open spec fn is_label_char(c: char) -> bool {
    ('a' <= c && c <= 'z') || ('0' <= c && c <= '9') || c == '-'
}

/// Whether a text can be a label of a host: not empty, and made of lowercase
/// letters, digits and hyphens.
pub open spec fn is_label(text: Seq<char>) -> bool {
    &&& text.len() > 0
    &&& forall|i: int| 0 <= i < text.len() ==> is_label_char(#[trigger] text[i])
}

/// `SliceRandom::choose` with the generator of the thread: a byte of the slice,
/// whichever it is, unless the slice is empty. The generator takes its seed from
/// the operating system, and panics if that has none to give.
#[verifier::external_body]
fn choose_byte(bytes: &[u8]) -> (r: Option<u8>)
    ensures
        r is None <==> bytes@.len() == 0,
        r matches Some(b) ==> bytes@.contains(b),
{
    bytes.choose(&mut rand::thread_rng()).copied()
}

/// The characters that drawn bytes stand for.
pub open spec fn picked_text(picks: Seq<Option<u8>>) -> Seq<char> {
    picks.map_values(|pick: Option<u8>| pick->0 as char)
}

/// Makes a text of drawn bytes: all of them in order, or none if one is missing.
pub fn string_of_picks(picks: &Vec<Option<u8>>) -> (r: Result<String, RandomStringError>)
    ensures
        match r {
            Ok(text) => text@ == picked_text(picks@) && forall|i: int|
                0 <= i < picks@.len() ==> #[trigger] picks@[i] is Some,
            Err(e) => e == RandomStringError::NoCharacter && exists|i: int|
                0 <= i < picks@.len() && #[trigger] picks@[i] is None,
        },
{
    let mut text: String = String::new();
    let mut i: usize = 0;
    while i < picks.len()
        invariant
            0 <= i <= picks@.len(),
            text@ == picked_text(picks@.take(i as int)),
            forall|j: int| 0 <= j < i ==> #[trigger] picks@[j] is Some,
        decreases picks@.len() - i,
    {
        match picks[i] {
            Some(b) => {
                text.push(b as char);
                assert(picked_text(picks@.take(i + 1)) =~= picked_text(picks@.take(i as int)).push(
                    b as char,
                ));
            },
            None => {
                return Err(RandomStringError::NoCharacter);
            },
        }
        i += 1;
    }
    assert(picks@.take(picks@.len() as int) =~= picks@);
    Ok(text)
}

/// Draws a name of `length` characters. Which characters they are is left to
/// chance; that they are lowercase letters, digits and hyphens is not.
pub fn random_string(length: u8) -> (r: Result<String, RandomStringError>)
    ensures
        length == 0 ==> r == Err::<String, RandomStringError>(RandomStringError::ZeroLength),
        length > 0 ==> (r matches Ok(text) && text@.len() == length && is_label(text@)),
{
    if length == 0 {
        return Err(RandomStringError::ZeroLength);
    }
    let charset: Vec<u8> = CHARSET.as_bytes_vec();
    let mut picks: Vec<Option<u8>> = Vec::new();
    let mut i: u8 = 0;
    while i < length
        invariant
            0 <= i <= length,
            charset@ == CHARSET.spec_bytes(),
            picks@.len() == i,
            forall|j: int|
                0 <= j < i ==> (#[trigger] picks@[j] matches Some(b) && is_label_char(b as char)),
        decreases length - i,
    {
        proof {
            lemma_charset();
        }
        picks.push(choose_byte(charset.as_slice()));
        i += 1;
    }
    string_of_picks(&picks)
}

/// The bytes of the charset stand for the characters of a label.
proof fn lemma_charset()
    ensures
        CHARSET.spec_bytes().len() > 0,
        forall|b: u8| CHARSET.spec_bytes().contains(b) ==> is_label_char(b as char),
{
    reveal_strlit("abcdefghijklmnopqrstuvwxyz0123456789-");
    assert(CHARSET@.len() == 37);
    assert(is_ascii(CHARSET));
    is_ascii_spec_bytes(CHARSET);
    assert forall|b: u8| CHARSET.spec_bytes().contains(b) implies is_label_char(b as char) by {
        let i = choose|i: int| 0 <= i < 37 && CHARSET.spec_bytes()[i] == b;
        assert(b == CHARSET@[i] as u8);
        assert(is_label_char(CHARSET@[i]));
        assert(b as char == CHARSET@[i]);
    }
}

/// The text of drawn bytes has one character for each of them, in the order in which
/// they were drawn.
pub proof fn law_text_is_what_was_drawn(picks: Seq<Option<u8>>, i: int, b: u8)
    requires
        0 <= i < picks.len(),
        picks[i] == Some(b),
    ensures
        picked_text(picks).len() == picks.len(),
        picked_text(picks)[i] == b as char,
{
}

/// Any lowercase letter, any digit and the hyphen can be drawn, and nothing else.
pub proof fn law_any_label_character_can_be_drawn(c: char)
    ensures
        CHARSET@.contains(c) <==> ('a' <= c && c <= 'z') || ('0' <= c && c <= '9') || c == '-',
        is_label_char(c) <==> CHARSET@.contains(c),
{
    reveal_strlit("abcdefghijklmnopqrstuvwxyz0123456789-");
    if 'a' <= c && c <= 'z' {
        assert(CHARSET@[c as int - 'a' as int] == c);
    } else if '0' <= c && c <= '9' {
        assert(CHARSET@[26 + (c as int - '0' as int)] == c);
    } else if c == '-' {
        assert(CHARSET@[36] == c);
    }
    if CHARSET@.contains(c) {
        let i = choose|i: int| 0 <= i < CHARSET@.len() && CHARSET@[i] == c;
        assert(is_label_char(CHARSET@[i]));
    }
}

} // verus!
