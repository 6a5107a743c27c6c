//! Fresh identifiers, fresh secrets and the time of day.

use vstd::prelude::*;
use crate::models::{Timestamp, Uuid};

verus! {

/// The length of the secret of an account.
pub const SECRET_LENGTH: usize = 32;

/// The bits of an identifier that a child shares with its parent.
pub const PARENT_BITS: u128 = 0xffff_ffff_ffff_ffff_0000_0000_0000_0000u128;

/// The bits of an identifier that tell the children of one parent apart.
pub const CHILD_BITS: u128 = 0x0000_0000_0000_0000_ffff_ffff_ffff_ffffu128;

/// Whether `c` is an ASCII letter or digit.
pub open spec fn is_alphanumeric(c: char) -> bool {
    ||| '0' <= c <= '9'
    ||| 'A' <= c <= 'Z'
    ||| 'a' <= c <= 'z'
}

/// Whether `id` carries the marks of a random identifier: version 4 of the
/// variant that RFC 4122 lays down.
pub open spec fn is_random_uuid(id: u128) -> bool {
    id & 0x0000_0000_0000_f000_c000_0000_0000_0000u128
        == 0x0000_0000_0000_4000_8000_0000_0000_0000u128
}

/// Whether `child` lies in the block of identifiers that belongs to
/// `parent`: the two agree on their upper 64 bits.
pub open spec fn is_child_of(child: u128, parent: u128) -> bool {
    child >> 64 == parent >> 64
}

/// Calls `uuid::Uuid::new_v4` and takes the number of the identifier with
/// `as_u128`. The identifier is random but for the six bits that hold the
/// version, 4, and the variant; nothing else is known of it. The call fails
/// only where the operating system's source of randomness fails.
#[verifier::external_body]
fn random_uuid() -> (id: Uuid)
    ensures
        is_random_uuid(id@),
{
    Uuid(uuid::Uuid::new_v4().as_u128())
}

/// A fresh identifier for something that belongs to nothing else: a random
/// one.
pub fn parent_uuid() -> (id: Uuid)
    ensures
        is_random_uuid(id@),
{
    random_uuid()
}

/// Draws one byte from `rand::distributions::Alphanumeric` with the
/// operating system's generator, `rand::rngs::OsRng`. The distribution hands
/// out ASCII letters and digits only. The call fails only where the
/// operating system's source of randomness fails.
#[verifier::external_body]
fn random_alphanumeric() -> (b: u8)
    ensures
        is_alphanumeric(b as char),
{
    rand::Rng::sample(&mut rand::rngs::OsRng, rand::distributions::Alphanumeric)
}

/// Calls `chrono::Utc::now` and takes the seconds and nanoseconds of the
/// moment with `timestamp` and `timestamp_subsec_nanos`. Nothing is known of
/// the moment.
#[verifier::external_body]
pub(crate) fn now() -> (t: Timestamp) {
    let t = chrono::Utc::now();
    Timestamp { secs: t.timestamp(), nanos: t.timestamp_subsec_nanos() }
}

/// `String::push` appends one character to the text.
pub assume_specification[ String::push ](s: &mut String, c: char)
    ensures
        final(s)@ == old(s)@.push(c),
;

/// The identifier in the block of `parent` that ends as `fresh` does.
pub fn child_uuid_from(parent: Uuid, fresh: Uuid) -> (child: Uuid)
    ensures
        child@ == (parent@ & PARENT_BITS) | (fresh@ & CHILD_BITS),
        is_child_of(child@, parent@),
        child@ & CHILD_BITS == fresh@ & CHILD_BITS,
{
    let p: u128 = parent.0;
    let f: u128 = fresh.0;
    let c: u128 = (p & PARENT_BITS) | (f & CHILD_BITS);
    assert(c >> 64 == p >> 64 && c & 0x0000_0000_0000_0000_ffff_ffff_ffff_ffffu128 == f
        & 0x0000_0000_0000_0000_ffff_ffff_ffff_ffffu128) by (bit_vector)
        requires
            c == (p & 0xffff_ffff_ffff_ffff_0000_0000_0000_0000u128) | (f
                & 0x0000_0000_0000_0000_ffff_ffff_ffff_ffffu128),
    ;
    Uuid(c)
}

/// A fresh identifier for something that belongs to `parent`. It lies in
/// the block of `parent`, so the children of one parent sort together.
pub fn child_uuid(parent: Uuid) -> (child: Uuid)
    ensures
        is_child_of(child@, parent@),
        exists|fresh: u128|
            #[trigger] is_random_uuid(fresh) && child@ == (parent@ & PARENT_BITS) | (fresh
                & CHILD_BITS),
{
    let fresh = parent_uuid();
    child_uuid_from(parent, fresh)
}

/// The identifiers between two children of one parent lie in the block of
/// that parent too.
pub proof fn law_children_sort_together(parent: u128, first: u128, middle: u128, last: u128)
    requires
        is_child_of(first, parent),
        is_child_of(last, parent),
        first <= middle <= last,
    ensures
        is_child_of(middle, parent),
{
    assert(middle >> 64 == first >> 64) by (bit_vector)
        requires
            first >> 64 == last >> 64,
            first <= middle,
            middle <= last,
    ;
}

/// A fresh secret: `SECRET_LENGTH` letters and digits, each drawn from the
/// operating system's generator.
pub fn generate_random_secret() -> (secret: String)
    ensures
        secret@.len() == SECRET_LENGTH,
        forall|i: int| 0 <= i < secret@.len() ==> is_alphanumeric(#[trigger] secret@[i]),
{
    let mut secret = String::new();
    let mut n: usize = 0;
    while n < SECRET_LENGTH
        invariant
            n <= SECRET_LENGTH,
            secret@.len() == n,
            forall|i: int| 0 <= i < secret@.len() ==> is_alphanumeric(#[trigger] secret@[i]),
        decreases SECRET_LENGTH - n,
    {
        let b = random_alphanumeric();
        let c = b as char;
        secret.push(c);
        n += 1;
    }
    secret
}

} // verus!
