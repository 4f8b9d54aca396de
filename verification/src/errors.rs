use vstd::prelude::*;

verus! {

/// Failure conditions surfaced by the persistence core.
///
/// Every operation either succeeds or returns one of these; nothing is
/// retried and no failure is swallowed.
#[derive(Clone, Copy, PartialEq, Eq, Structural, Debug)]
pub enum DaoError {
    /// The store handle could not be established at startup.
    ConnectionFailure,
    /// A stored column does not hold the canonical text of the scalar it
    /// should carry: data corruption or schema drift.
    EncodingFailure,
    /// A caller-supplied record violates a shape invariant, such as a
    /// withdrawal-slot list whose length is not three.
    ValidationError,
    /// Zero rows matched where exactly one was expected.
    NotFound,
    /// A constraint violation: a duplicate key, a reference to a missing
    /// project, or an exhausted identifier space.
    IntegrityError,
}

} // verus!
