//! Tags that can be stored: a tag paired with the identifier of the process instance that
//! issued it, and its fixed-width byte form.
use vstd::prelude::*;

use crate::tag::VersionTag;

verus! {

/// The eight big-endian bytes of `x`.
pub open spec fn be_word(x: u64) -> Seq<u8> {
    seq![
        (x >> 56u64) as u8,
        (x >> 48u64) as u8,
        (x >> 40u64) as u8,
        (x >> 32u64) as u8,
        (x >> 24u64) as u8,
        (x >> 16u64) as u8,
        (x >> 8u64) as u8,
        x as u8,
    ]
}

/// The number whose big-endian bytes are the first eight of `b`.
pub open spec fn word_of(b: Seq<u8>) -> u64 {
    (b[0] as u64) << 56u64 | (b[1] as u64) << 48u64 | (b[2] as u64) << 40u64 | (b[3] as u64)
        << 32u64 | (b[4] as u64) << 24u64 | (b[5] as u64) << 16u64 | (b[6] as u64) << 8u64
        | (b[7] as u64)
}

/// The byte form of a shared tag: the 128-bit number `instance * 2^64 + ordinal`, big-endian.
pub open spec fn encode_words(instance: u64, ordinal: u64) -> Seq<u8> {
    be_word(instance) + be_word(ordinal)
}

/// The instance identifier and ordinal that a 16-byte form stands for.
pub open spec fn decode_words(b: Seq<u8>) -> (u64, u64) {
    (word_of(b.subrange(0, 8)), word_of(b.subrange(8, 16)))
}

/// Reading back the bytes of a word gives the word.
pub proof fn lemma_word_round_trip(x: u64)
    ensures
        word_of(be_word(x)) == x,
{
    let b = be_word(x);
    assert(b[0] == (x >> 56u64) as u8);
    assert(b[7] == x as u8);
    assert(((((x >> 56u64) as u8) as u64) << 56u64 | (((x >> 48u64) as u8) as u64) << 48u64 | ((
    (x >> 40u64) as u8) as u64) << 40u64 | (((x >> 32u64) as u8) as u64) << 32u64 | (((x
        >> 24u64) as u8) as u64) << 24u64 | (((x >> 16u64) as u8) as u64) << 16u64 | (((x
        >> 8u64) as u8) as u64) << 8u64 | ((x as u8) as u64)) == x) by (bit_vector);
}

/// Writing out a word read from eight bytes gives those bytes back.
pub proof fn lemma_bytes_round_trip(b: Seq<u8>)
    requires
        b.len() == 8,
    ensures
        be_word(word_of(b)) == b,
{
    let (b0, b1, b2, b3, b4, b5, b6, b7) = (b[0], b[1], b[2], b[3], b[4], b[5], b[6], b[7]);
    let w = word_of(b);
    assert(w == (b0 as u64) << 56u64 | (b1 as u64) << 48u64 | (b2 as u64) << 40u64 | (b3 as u64)
        << 32u64 | (b4 as u64) << 24u64 | (b5 as u64) << 16u64 | (b6 as u64) << 8u64
        | (b7 as u64));
    assert(((w >> 56u64) as u8) == b0 && ((w >> 48u64) as u8) == b1 && ((w >> 40u64) as u8) == b2
        && ((w >> 32u64) as u8) == b3 && ((w >> 24u64) as u8) == b4 && ((w >> 16u64) as u8) == b5
        && ((w >> 8u64) as u8) == b6 && (w as u8) == b7) by (bit_vector)
        requires
            w == (b0 as u64) << 56u64 | (b1 as u64) << 48u64 | (b2 as u64) << 40u64 | (b3 as u64)
                << 32u64 | (b4 as u64) << 24u64 | (b5 as u64) << 16u64 | (b6 as u64) << 8u64
                | (b7 as u64),
    ;
    assert(be_word(w) =~= b);
}

/// The byte form of the pair (`instance`, `tag`): `instance * 2^64 + tag` as 16 big-endian bytes.
pub fn shared(instance: u64, tag: u64) -> (r: [u8; 16])
    ensures
        r@ == encode_words(instance, tag),
{
    let r = [
        (instance >> 56u64) as u8,
        (instance >> 48u64) as u8,
        (instance >> 40u64) as u8,
        (instance >> 32u64) as u8,
        (instance >> 24u64) as u8,
        (instance >> 16u64) as u8,
        (instance >> 8u64) as u8,
        instance as u8,
        (tag >> 56u64) as u8,
        (tag >> 48u64) as u8,
        (tag >> 40u64) as u8,
        (tag >> 32u64) as u8,
        (tag >> 24u64) as u8,
        (tag >> 16u64) as u8,
        (tag >> 8u64) as u8,
        tag as u8,
    ];
    assert(r@ =~= encode_words(instance, tag));
    r
}

/// Why a byte form was refused.
#[derive(Clone, Copy, Debug, PartialEq, Eq, Structural)]
pub enum DecodeError {
    /// The form does not hold exactly 16 bytes; the field is the length found.
    WrongLength(usize),
}

/// A tag fit to be stored: the identifier of the issuing process instance and the
/// ordinal. Two shared tags are equal only when both parts are.
#[derive(Clone, Copy, Debug, PartialEq, Eq, Structural, PartialOrd, Ord, Hash)]
pub struct SharedTag {
    instance: u64,
    ordinal: u64,
}

impl View for SharedTag {
    /// The instance identifier and the ordinal.
    type V = (u64, u64);

    closed spec fn view(&self) -> (u64, u64) {
        (self.instance, self.ordinal)
    }
}

/// Relies on rand::random::<u64>: a value drawn from the thread-local generator.
/// Nothing is known of the value.
#[verifier::external_body]
fn draw_instance() -> (r: u64) {
    rand::random::<u64>()
}

/// The instance identifier that a process settles on: `current` when already set (nonzero),
/// else `drawn` when it is nonzero, else 1, so that the unset value 0 is never handed out.
pub fn instance_from(current: u64, drawn: u64) -> (r: u64)
    ensures
        current != 0 ==> r == current,
        current == 0 && drawn != 0 ==> r == drawn,
        current == 0 && drawn == 0 ==> r == 1,
        r != 0,
{
    if current != 0 {
        current
    } else if drawn != 0 {
        drawn
    } else {
        1
    }
}

impl SharedTag {
    /// The shared form of `tag` under the process instance `instance`.
    pub fn new(instance: u64, tag: VersionTag) -> (r: SharedTag)
        ensures
            r@ == (instance, tag@),
    {
        SharedTag { instance, ordinal: tag.ordinal() }
    }

    /// The instance identifier, given what the process holds so far (`current`, 0 when it
    /// holds none): that value when set, else a random draw for the caller to install.
    /// The result is never the unset value 0.
    pub fn global(current: u64) -> (r: u64)
        ensures
            current != 0 ==> r == current,
            r != 0,
    {
        if current == 0 {
            instance_from(current, draw_instance())
        } else {
            current
        }
    }

    /// Shared tags are equal exactly when both their parts are.
    pub proof fn lemma_view_injective(a: SharedTag, b: SharedTag)
        ensures
            (a == b) == (a@ == b@),
    {
    }

    /// The identifier of the process instance that issued the tag.
    pub fn instance(&self) -> (r: u64)
        ensures
            r == self@.0,
    {
        self.instance
    }

    /// The ordinal of the tag.
    pub fn ordinal(&self) -> (r: u64)
        ensures
            r == self@.1,
    {
        self.ordinal
    }

    /// Equal to a present tag with the same parts; never equal to an absent one.
    pub fn eq_option(&self, other: &Option<SharedTag>) -> (r: bool)
        ensures
            r == (other.is_some() && other.unwrap()@ == self@),
    {
        match other {
            Some(t) => t.instance == self.instance && t.ordinal == self.ordinal,
            None => false,
        }
    }

    /// The 16-byte form of the tag.
    pub fn to_bytes(&self) -> (r: [u8; 16])
        ensures
            r@ == encode_words(self@.0, self@.1),
    {
        shared(self.instance, self.ordinal)
    }

    /// Reads a tag back from its byte form; any length but 16 is refused.
    pub fn from_bytes(b: &[u8]) -> (r: Result<SharedTag, DecodeError>)
        ensures
            r.is_ok() == (b@.len() == 16),
            r matches Ok(t) ==> t@ == decode_words(b@),
            r matches Err(e) ==> e == DecodeError::WrongLength(b@.len() as usize),
    {
        if b.len() != 16 {
            return Err(DecodeError::WrongLength(b.len()));
        }
        let instance = word_at(b, 0);
        let ordinal = word_at(b, 8);
        Ok(SharedTag { instance, ordinal })
    }
}

impl PartialEq<Option<SharedTag>> for SharedTag {
    fn eq(&self, other: &Option<SharedTag>) -> (r: bool) {
        self.eq_option(other)
    }
}

impl vstd::std_specs::cmp::PartialEqSpecImpl<Option<SharedTag>> for SharedTag {
    open spec fn obeys_eq_spec() -> bool {
        true
    }

    open spec fn eq_spec(&self, other: &Option<SharedTag>) -> bool {
        other.is_some() && other.unwrap()@ == self@
    }
}

/// The big-endian word in the eight bytes of `b` from `start`.
fn word_at(b: &[u8], start: usize) -> (r: u64)
    requires
        start + 8 <= b@.len(),
    ensures
        r == word_of(b@.subrange(start as int, start + 8)),
{
    (b[start] as u64) << 56u64 | (b[start + 1] as u64) << 48u64 | (b[start + 2] as u64) << 40u64
        | (b[start + 3] as u64) << 32u64 | (b[start + 4] as u64) << 24u64 | (b[start + 5] as u64)
        << 16u64 | (b[start + 6] as u64) << 8u64 | (b[start + 7] as u64)
}

/// Decoding the byte form of a tag gives the tag back.
pub proof fn lemma_round_trip(t: SharedTag)
    ensures
        decode_words(encode_words(t@.0, t@.1)) == t@,
{
    let e = encode_words(t@.0, t@.1);
    lemma_word_round_trip(t@.0);
    lemma_word_round_trip(t@.1);
    assert(e.subrange(0, 8) =~= be_word(t@.0));
    assert(e.subrange(8, 16) =~= be_word(t@.1));
}

/// Every 16-byte form is the form of the tag it decodes to: nothing is lost or altered.
pub proof fn lemma_decode_exact(b: Seq<u8>)
    requires
        b.len() == 16,
    ensures
        encode_words(decode_words(b).0, decode_words(b).1) == b,
{
    lemma_bytes_round_trip(b.subrange(0, 8));
    lemma_bytes_round_trip(b.subrange(8, 16));
    assert(encode_words(decode_words(b).0, decode_words(b).1) =~= b);
}

/// Tags of different process instances differ in byte form, whatever their ordinals.
pub proof fn lemma_instances_distinct(a: SharedTag, b: SharedTag)
    requires
        a@.0 != b@.0,
    ensures
        a != b,
        encode_words(a@.0, a@.1) != encode_words(b@.0, b@.1),
{
    lemma_round_trip(a);
    lemma_round_trip(b);
}

} // verus!
