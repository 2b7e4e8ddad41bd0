//! Operation identifiers and the mapper names derived from them.

use uuid::Uuid;
use vstd::prelude::*;
use crate::text::{hex_digits, lemma_hex_digits_injective, lemma_u128_fits_32_hex_digits};

verus! {

/// The canonical hyphenated form of a 128-bit identifier: groups of 8, 4, 4, 4
/// and 12 lowercase hexadecimal digits joined by `-`.
pub open spec fn hyphenated(id: nat) -> Seq<char> {
    let h = hex_digits(id, 32);
    h.subrange(0, 8) + seq!['-'] + h.subrange(8, 12) + seq!['-'] + h.subrange(12, 16) + seq!['-']
        + h.subrange(16, 20) + seq!['-'] + h.subrange(20, 32)
}

/// The prefix shared by every mapper name of this tool.
pub open spec fn mapper_prefix() -> Seq<char> {
    "cryptowipe_"@
}

/// The mapper name of the session with identifier `id`.
pub open spec fn mapper_name_of(id: nat) -> Seq<char> {
    mapper_prefix() + hex_digits(id, 32)
}

/// The path under which the opened container of mapper `name` appears.
pub open spec fn mapper_path_of(name: Seq<char>) -> Seq<char> {
    "/dev/mapper/"@ + name
}

/// Relies on uuid::Uuid::new_v4 (read back with Uuid::as_u128): a fresh random identifier
/// whose version field is 4 and whose variant bits are `10`.
#[verifier::external_body]
fn new_v4_bits() -> (r: u128)
    ensures
        (r >> 76u128) & 0xfu128 == 4,
        (r >> 62u128) & 0x3u128 == 2,
{
    Uuid::new_v4().as_u128()
}

/// Relies on the display of uuid::Uuid::simple (with Uuid::from_u128): the 32 lowercase
/// hexadecimal digits of the value, most significant first.
#[verifier::external_body]
fn simple_text(id: u128) -> (r: String)
    ensures
        r@ == hex_digits(id as nat, 32),
{
    Uuid::from_u128(id).simple().to_string()
}

/// Relies on the display of uuid::Uuid::hyphenated (with Uuid::from_u128): the 8-4-4-4-12
/// grouping of the 32 lowercase hexadecimal digits.
#[verifier::external_body]
fn hyphenated_text(id: u128) -> (r: String)
    ensures
        r@ == hyphenated(id as nat),
{
    Uuid::from_u128(id).hyphenated().to_string()
}

/// The identifier of one wipe session.
#[derive(Clone, Copy, Debug, PartialEq, Eq, Structural)]
pub struct OperationId {
    pub value: u128,
}

impl OperationId {
    /// A fresh random identifier: a version 4 UUID, with the variant of RFC 4122.
    pub fn generate() -> (r: OperationId)
        ensures
            (r.value >> 76u128) & 0xfu128 == 4,
            (r.value >> 62u128) & 0x3u128 == 2,
    {
        OperationId { value: new_v4_bits() }
    }

    /// The identifier in its canonical hyphenated form, as it appears in certificates.
    pub fn text(&self) -> (r: String)
        ensures
            r@ == hyphenated(self.value as nat),
    {
        hyphenated_text(self.value)
    }

    /// The name of the device mapper entry this session opens.
    pub fn mapper_name(&self) -> (r: String)
        ensures
            r@ == mapper_name_of(self.value as nat),
    {
        let digits = simple_text(self.value);
        String::from_str("cryptowipe_").concat(digits.as_str())
    }
}

/// The path of the mapped device for mapper `name`.
pub fn mapper_path(name: &str) -> (r: String)
    ensures
        r@ == mapper_path_of(name@),
{
    String::from_str("/dev/mapper/").concat(name)
}

/// Distinct sessions never share a mapper name: the name determines the identifier.
pub proof fn lemma_mapper_name_injective(a: u128, b: u128)
    requires
        mapper_name_of(a as nat) == mapper_name_of(b as nat),
    ensures
        a == b,
{
    let n = mapper_prefix().len() as int;
    assert(mapper_name_of(a as nat).skip(n) =~= hex_digits(a as nat, 32));
    assert(mapper_name_of(b as nat).skip(n) =~= hex_digits(b as nat, 32));
    lemma_u128_fits_32_hex_digits(a);
    lemma_u128_fits_32_hex_digits(b);
    lemma_hex_digits_injective(a as nat, b as nat, 32);
}

} // verus!
