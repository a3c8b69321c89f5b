use vstd::prelude::*;

verus! {

/// Identifier of a repository record: the 128-bit value of a UUID.
#[derive(Clone, Copy, Debug, PartialEq, Eq, Hash, Structural)]
pub struct RepoId {
    pub value: u128,
}

/// A point in time, in microseconds since the Unix epoch (UTC).
pub type Timestamp = i64;

/// The lower-case hyphenated text of the UUID with the given 128-bit value.
pub uninterp spec fn uuid_text(value: u128) -> Seq<char>;

/// Relies on uuid::Uuid::new_v4: a random version-4 UUID, read as its 128-bit value.
#[verifier::external_body]
fn random_uuid_value() -> (r: u128) {
    uuid::Uuid::new_v4().as_u128()
}

/// Relies on uuid's `Display` for `Uuid`, which writes the hyphenated form
/// (`Hyphenated::LENGTH`, 36 characters).
#[verifier::external_body]
fn uuid_value_text(value: u128) -> (r: String)
    ensures
        r@ == uuid_text(value),
        r@.len() == 36,
{
    uuid::Uuid::from_u128(value).to_string()
}

/// Relies on chrono::Utc::now and DateTime::timestamp_micros: the current time.
#[verifier::external_body]
pub(crate) fn current_timestamp() -> (r: Timestamp) {
    chrono::Utc::now().timestamp_micros()
}

impl RepoId {
    /// A fresh random identifier.
    pub fn generate() -> (r: RepoId) {
        RepoId { value: random_uuid_value() }
    }

    pub fn from_u128(value: u128) -> (r: RepoId)
        ensures
            r.value == value,
    {
        RepoId { value }
    }

    pub fn as_u128(&self) -> (r: u128)
        ensures
            r == self.value,
    {
        self.value
    }

    /// The identifier written as a hyphenated UUID.
    pub fn to_text(&self) -> (r: String)
        ensures
            r@ == uuid_text(self.value),
            r@.len() == 36,
    {
        uuid_value_text(self.value)
    }
}

} // verus!
