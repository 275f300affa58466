//! Identities of specifications, executions, lanes, scopes and attempts.

use vstd::arithmetic::power::pow;
use vstd::prelude::*;

verus! {

/// The universally unique identifier type of the `uuid` crate.
#[verifier::external_type_specification]
#[verifier::external_body]
pub struct ExUuid(uuid::Uuid);

/// The identifier that `uuid::Uuid::from_u128` makes of a 128-bit value.
pub uninterp spec fn uuid_from_u128(value: u128) -> uuid::Uuid;

/// Calls `uuid::Uuid::from_u128`, which lays the value out in big-endian order.
/// The contract only names the identifier as a function of the value.
#[verifier::external_body]
pub(crate) fn to_uuid(value: u128) -> (id: uuid::Uuid)
    ensures
        id == uuid_from_u128(value),
{
    uuid::Uuid::from_u128(value)
}

/// Whether `value` carries version 4 and the RFC 9562 variant in their bit fields.
pub open spec fn is_random_uuid(value: u128) -> bool {
    value & 0xF000_C000_0000_0000_0000u128 == 0x4000_8000_0000_0000_0000u128
}

/// Calls `uuid::Uuid::new_v4` and takes the identifier as a 128-bit value. The
/// contract claims the version and variant bits, which every outcome carries; the
/// other bits are random.
#[verifier::external_body]
pub(crate) fn random_uuid() -> (value: u128)
    ensures
        is_random_uuid(value),
{
    uuid::Uuid::new_v4().as_u128()
}

/// The lower-case hexadecimal digit of a number below sixteen.
pub open spec fn hex_digit(n: int) -> char {
    if n < 10 {
        ('0' as int + n) as char
    } else {
        ('a' as int + n - 10) as char
    }
}

/// The text of an identifier: thirty-two hexadecimal digits, the most significant one
/// first, in groups of eight, four, four, four and twelve with hyphens between them.
pub open spec fn uuid_digits(value: u128) -> Seq<char> {
    Seq::new(
        36,
        |i: int|
            if i == 8 || i == 13 || i == 18 || i == 23 {
                '-'
            } else {
                let hyphens: int = if i > 23 {
                    4
                } else if i > 18 {
                    3
                } else if i > 13 {
                    2
                } else if i > 8 {
                    1
                } else {
                    0
                };
                hex_digit((value as int / pow(16, (31 - (i - hyphens)) as nat)) % 16)
            },
    )
}

/// Formats `uuid::Uuid::from_u128` of a value, whose `Display` is the hyphenated form in
/// lower case. The contract claims every character of it.
#[verifier::external_body]
pub(crate) fn uuid_text(value: u128) -> (text: String)
    ensures
        text@ == uuid_digits(value),
{
    uuid::Uuid::from_u128(value).to_string()
}

/// Identity of a task specification.
#[derive(Clone, Copy, Debug, Hash, Eq, PartialEq, Ord, PartialOrd, Structural)]
pub struct TaskSpecId(pub u128);

impl TaskSpecId {
    /// A fresh random identity.
    pub fn new() -> (id: Self)
        ensures
            is_random_uuid(id.0),
    {
        TaskSpecId(random_uuid())
    }

    /// The identity as hyphenated hexadecimal text.
    pub fn text(&self) -> (text: String)
        ensures
            text@ == uuid_digits(self.0),
    {
        uuid_text(self.0)
    }

    /// The underlying UUID.
    pub fn as_uuid(self) -> (id: uuid::Uuid)
        ensures
            id == uuid_from_u128(self.0),
    {
        to_uuid(self.0)
    }
}

impl Default for TaskSpecId {
    fn default() -> (id: Self)
        ensures
            is_random_uuid(id.0),
    {
        TaskSpecId::new()
    }
}

/// Identity of one execution.
#[derive(Clone, Copy, Debug, Hash, Eq, PartialEq, Ord, PartialOrd, Structural)]
pub struct ExecutionId(pub u128);

impl ExecutionId {
    /// A fresh random identity.
    pub fn new() -> (id: Self)
        ensures
            is_random_uuid(id.0),
    {
        ExecutionId(random_uuid())
    }

    /// The identity as hyphenated hexadecimal text.
    pub fn text(&self) -> (text: String)
        ensures
            text@ == uuid_digits(self.0),
    {
        uuid_text(self.0)
    }

    /// The underlying UUID.
    pub fn as_uuid(self) -> (id: uuid::Uuid)
        ensures
            id == uuid_from_u128(self.0),
    {
        to_uuid(self.0)
    }
}

impl Default for ExecutionId {
    fn default() -> (id: Self)
        ensures
            is_random_uuid(id.0),
    {
        ExecutionId::new()
    }
}

/// Identity of one lane generation.
#[derive(Clone, Copy, Debug, Hash, Eq, PartialEq, Ord, PartialOrd, Structural)]
pub struct LaneId(pub u128);

impl LaneId {
    /// A fresh random identity.
    pub fn new() -> (id: Self)
        ensures
            is_random_uuid(id.0),
    {
        LaneId(random_uuid())
    }

    /// The identity as hyphenated hexadecimal text.
    pub fn text(&self) -> (text: String)
        ensures
            text@ == uuid_digits(self.0),
    {
        uuid_text(self.0)
    }

    /// The underlying UUID.
    pub fn as_uuid(self) -> (id: uuid::Uuid)
        ensures
            id == uuid_from_u128(self.0),
    {
        to_uuid(self.0)
    }
}

impl Default for LaneId {
    fn default() -> (id: Self)
        ensures
            is_random_uuid(id.0),
    {
        LaneId::new()
    }
}

/// Identity of a scope.
#[derive(Clone, Copy, Debug, Hash, Eq, PartialEq, Ord, PartialOrd, Structural)]
pub struct ScopeId(pub u128);

impl ScopeId {
    /// A fresh random identity.
    pub fn new() -> (id: Self)
        ensures
            is_random_uuid(id.0),
    {
        ScopeId(random_uuid())
    }

    /// The identity as hyphenated hexadecimal text.
    pub fn text(&self) -> (text: String)
        ensures
            text@ == uuid_digits(self.0),
    {
        uuid_text(self.0)
    }

    /// The underlying UUID.
    pub fn as_uuid(self) -> (id: uuid::Uuid)
        ensures
            id == uuid_from_u128(self.0),
    {
        to_uuid(self.0)
    }
}

impl Default for ScopeId {
    fn default() -> (id: Self)
        ensures
            is_random_uuid(id.0),
    {
        ScopeId::new()
    }
}

/// Identity of one attempt within an execution; attempts count from one.
#[derive(Clone, Copy, Debug, Hash, Eq, PartialEq, Structural)]
pub struct AttemptId {
    pub execution_id: ExecutionId,
    pub number: u32,
}

/// The text of an identifier has hyphens at four places and its digits elsewhere: the one
/// for the n-th group of four bits from the top stands at n, shifted by the hyphens before
/// it, and is lower-case hexadecimal.
pub proof fn lemma_identifier_text(value: u128, n: int)
    requires
        0 <= n < 32,
    ensures
        uuid_digits(value).len() == 36,
        uuid_digits(value)[8] == '-',
        uuid_digits(value)[13] == '-',
        uuid_digits(value)[18] == '-',
        uuid_digits(value)[23] == '-',
        ({
            let place = if n < 8 {
                n
            } else if n < 12 {
                n + 1
            } else if n < 16 {
                n + 2
            } else if n < 20 {
                n + 3
            } else {
                n + 4
            };
            let digit = (value as int / pow(16, (31 - n) as nat)) % 16;
            uuid_digits(value)[place] == "0123456789abcdef"@[digit]
        }),
{
    reveal_strlit("0123456789abcdef");
    let digit = (value as int / pow(16, (31 - n) as nat)) % 16;
    assert(0 <= digit < 16);
    assert(hex_digit(digit) == "0123456789abcdef"@[digit]);
}

/// A random identifier carries its version and its variant in the bits for them.
pub proof fn lemma_random_identifiers_say_so(value: u128)
    ensures
        is_random_uuid(value) <==> (value >> 76u128) & 0xF == 4 && (value >> 62u128) & 3 == 2,
{
    assert((value & 0xF000_C000_0000_0000_0000u128 == 0x4000_8000_0000_0000_0000u128) <==> ((value
        >> 76u128) & 0xF == 4 && (value >> 62u128) & 3 == 2)) by (bit_vector);
}

} // verus!
