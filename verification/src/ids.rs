//! Strongly-typed identifiers for agents and tasks.

use vstd::prelude::*;

verus! {

/// The lower-case hexadecimal digit of a number below sixteen.
pub open spec fn hex_digit(d: nat) -> char {
    if d < 10 {
        (('0' as u32) + d) as char
    } else {
        (('a' as u32) + (d - 10)) as char
    }
}

/// Sixteen to the power `e`.
pub open spec fn pow16(e: nat) -> nat
    decreases e,
{
    if e == 0 {
        1
    } else {
        16 * pow16((e - 1) as nat)
    }
}

/// Digit `k` of the 32 hexadecimal digits of `value`, the highest first.
pub open spec fn hex_digit_at(value: u128, k: int) -> char {
    hex_digit((value as nat / pow16((31 - k) as nat)) % 16)
}

/// How many of the hyphens of the text form stand before place `i`.
pub open spec fn hyphens_before(i: int) -> int {
    (if i > 8 {
        1int
    } else {
        0
    }) + (if i > 13 {
        1int
    } else {
        0
    }) + (if i > 18 {
        1int
    } else {
        0
    }) + (if i > 23 {
        1int
    } else {
        0
    })
}

/// The text form of an identifier: 32 hexadecimal digits in groups of
/// 8, 4, 4, 4 and 12 with hyphens between the groups.
pub open spec fn id_text(value: u128) -> Seq<char> {
    Seq::new(
        36,
        |i: int|
            if i == 8 || i == 13 || i == 18 || i == 23 {
                '-'
            } else {
                hex_digit_at(value, i - hyphens_before(i))
            },
    )
}

/// Whether `value` carries the marks of a random (version 4) identifier.
pub open spec fn is_random_id(value: u128) -> bool {
    (value >> 76) & 0xf == 4 && (value >> 62) & 3 == 2
}

/// What `uuid::Uuid::parse_str` reads from a text, as a number.
pub uninterp spec fn parsed_id(text: Seq<char>) -> Option<u128>;

/// Calls `uuid::Uuid::new_v4`. Of the 128 bits, the four version bits and the
/// two variant bits are fixed; the others are random.
#[verifier::external_body]
fn random_id() -> (r: u128)
    ensures
        is_random_id(r),
{
    uuid::Uuid::new_v4().as_u128()
}

/// Calls `uuid::Uuid::to_string`, which writes the hyphenated lower-case form.
/// The crate's parser reads that form back to the same value.
#[verifier::external_body]
fn write_id(value: u128) -> (r: String)
    ensures
        r@ == id_text(value),
        parsed_id(r@) == Some(value),
{
    uuid::Uuid::from_u128(value).to_string()
}

/// Calls `uuid::Uuid::parse_str`. The result, named `parsed_id`, depends on the
/// text alone.
#[verifier::external_body]
fn read_id(text: &str) -> (r: Option<u128>)
    ensures
        r == parsed_id(text@),
{
    uuid::Uuid::parse_str(text).ok().map(|id| id.as_u128())
}

/// Unique identifier for an agent within a swarm.
#[derive(Debug, Clone, Copy, PartialEq, Eq, Structural, Hash)]
pub struct AgentId {
    /// The 128 bits of the identifier.
    pub value: u128,
}

impl AgentId {
    /// Generates a new random agent identifier.
    pub fn new() -> (r: Self)
        ensures
            is_random_id(r.value),
    {
        AgentId { value: random_id() }
    }

    /// The identifier as text, for logs and interfaces.
    pub fn to_string(&self) -> (r: String)
        ensures
            r@ == id_text(self.value),
            parsed_id(r@) == Some(self.value),
    {
        write_id(self.value)
    }

    /// Reads an identifier from its text form.
    pub fn parse(text: &str) -> (r: Option<Self>)
        ensures
            match r {
                Some(id) => parsed_id(text@) == Some(id.value),
                None => parsed_id(text@) is None,
            },
    {
        match read_id(text) {
            Some(value) => Some(AgentId { value }),
            None => None,
        }
    }
}

/// Unique identifier for a task submitted to an agent.
///
/// Used to correlate requests with replies.
#[derive(Debug, Clone, Copy, PartialEq, Eq, Structural, Hash)]
pub struct TaskId {
    /// The 128 bits of the identifier.
    pub value: u128,
}

impl TaskId {
    /// Generates a new random task identifier.
    pub fn new() -> (r: Self)
        ensures
            is_random_id(r.value),
    {
        TaskId { value: random_id() }
    }

    /// The identifier as text, for logs and interfaces.
    pub fn to_string(&self) -> (r: String)
        ensures
            r@ == id_text(self.value),
            parsed_id(r@) == Some(self.value),
    {
        write_id(self.value)
    }

    /// Reads an identifier from its text form.
    pub fn parse(text: &str) -> (r: Option<Self>)
        ensures
            match r {
                Some(id) => parsed_id(text@) == Some(id.value),
                None => parsed_id(text@) is None,
            },
    {
        match read_id(text) {
            Some(value) => Some(TaskId { value }),
            None => None,
        }
    }
}

} // verus!
