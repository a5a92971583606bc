//! Generic containers that represent the change state of a single node of a
//! difference tree: the tagged result of comparing one node, maps and
//! sequences of such results, and the reference-or-value wrapper used by
//! nodes that may be written as a `$ref` to a shared component.
use vstd::prelude::*;

verus! {

/// The five change states a node of a difference tree can be in.
#[derive(Clone, Copy, Debug, PartialEq, Eq, Structural)]
pub enum DiffState {
    Absent,
    Same,
    Added,
    Removed,
    Updated,
}

/// Tagged change state of one tree node.  `T` is either a scalar value or a
/// nested diff struct whose own fields are themselves `DiffResult`s.
///
/// Every variant but `Absent` carries a payload: the shared value for
/// `Same`, the new value for `Added` and `Updated`, the old value for
/// `Removed`.
#[derive(Debug)]
pub enum DiffResult<T> {
    Absent,
    Same(T),
    Added(T),
    Removed(T),
    Updated(T),
}

impl<T> DiffResult<T> {
    /// The tag of this node, with the payload stripped.
    pub open spec fn state(&self) -> DiffState {
        match self {
            DiffResult::Absent => DiffState::Absent,
            DiffResult::Same(_) => DiffState::Same,
            DiffResult::Added(_) => DiffState::Added,
            DiffResult::Removed(_) => DiffState::Removed,
            DiffResult::Updated(_) => DiffState::Updated,
        }
    }

    /// The payload of this node; meaningful for every variant but `Absent`.
    pub open spec fn payload(&self) -> T
        recommends
            !(self is Absent),
    {
        match self {
            DiffResult::Absent => vstd::pervasive::arbitrary(),
            DiffResult::Same(t) => *t,
            DiffResult::Added(t) => *t,
            DiffResult::Removed(t) => *t,
            DiffResult::Updated(t) => *t,
        }
    }

    /// Returns the payload for every variant except `Absent`, regardless of
    /// which case it is; callers that need the specific case use the
    /// predicate accessors.
    pub fn get(&self) -> (r: Option<&T>)
        ensures
            match self {
                DiffResult::Absent => r is None,
                _ => r matches Some(p) && *p == self.payload(),
            },
    {
        match self {
            DiffResult::Absent => None,
            DiffResult::Same(t) => Some(t),
            DiffResult::Added(t) => Some(t),
            DiffResult::Removed(t) => Some(t),
            DiffResult::Updated(t) => Some(t),
        }
    }

    pub fn is_same(&self) -> (r: bool)
        ensures
            r == (self is Same),
    {
        matches!(self, DiffResult::Same(_))
    }

    pub fn is_added(&self) -> (r: bool)
        ensures
            r == (self is Added),
    {
        matches!(self, DiffResult::Added(_))
    }

    pub fn is_removed(&self) -> (r: bool)
        ensures
            r == (self is Removed),
    {
        matches!(self, DiffResult::Removed(_))
    }

    pub fn is_updated(&self) -> (r: bool)
        ensures
            r == (self is Updated),
    {
        matches!(self, DiffResult::Updated(_))
    }

    /// A node that does not exist in either version.
    pub fn is_none(&self) -> (r: bool)
        ensures
            r == (self is Absent),
    {
        matches!(self, DiffResult::Absent)
    }

    /// A node that exists in at least one of the two versions.
    pub fn is_present(&self) -> (r: bool)
        ensures
            r == !(self is Absent),
    {
        !matches!(self, DiffResult::Absent)
    }

    /// Neither side changed here: the node is absent or compared equal.
    pub fn is_flat_same(&self) -> (r: bool)
        ensures
            r == (self is Absent || self is Same),
    {
        matches!(self, DiffResult::Absent | DiffResult::Same(_))
    }

    /// Added or updated: the node carries fresh content in the new version.
    pub fn is_upserted(&self) -> (r: bool)
        ensures
            r == (self is Added || self is Updated),
    {
        matches!(self, DiffResult::Added(_) | DiffResult::Updated(_))
    }
}

/// Any payload is smaller than the node that carries it.
pub proof fn lemma_payload_decreases<T>(d: DiffResult<T>)
    requires
        !(d is Absent),
    ensures
        decreases_to!(d => d.payload()),
{
    match d {
        DiffResult::Absent => {},
        DiffResult::Same(t) => {
            assert(decreases_to!(d => d->Same_0));
        },
        DiffResult::Added(t) => {
            assert(decreases_to!(d => d->Added_0));
        },
        DiffResult::Removed(t) => {
            assert(decreases_to!(d => d->Removed_0));
        },
        DiffResult::Updated(t) => {
            assert(decreases_to!(d => d->Updated_0));
        },
    }
}

/// Difference of an ordered key-to-value collection: a sequence of
/// `(key, DiffResult)` pairs.  A key present only in the old document yields
/// `Removed`, only in the new document `Added`, in both `Same` or `Updated`.
pub type MapDiff<T> = Vec<(String, DiffResult<T>)>;

/// Difference of a positional or value-identity sequence: one `DiffResult`
/// per element identity.
pub type VecDiff<T> = Vec<DiffResult<T>>;

/// A value of two possible shapes, kept as written in the source document.
#[derive(Debug)]
pub enum Either<L, R> {
    Left(L),
    Right(R),
}

/// A node that, in the source document, is either a named reference or an
/// inline value.
#[derive(Debug)]
pub enum MayBeRefCore<T, R> {
    Ref(R),
    Value(T),
}

/// A value that names a shared component by a reference string.
pub trait ReferenceDescriptor: Sized {
    /// The reference string this value names.
    spec fn spec_reference(&self) -> Seq<char>;

    /// Whether a reference string is actually present; reading a reference
    /// from a value where it is absent is a programming error, so `reference`
    /// excludes that case rather than substituting a default.
    spec fn reference_present(&self) -> bool;

    fn reference(&self) -> (r: &str)
        requires
            self.reference_present(),
        ensures
            r@ == self.spec_reference(),
    ;
}

} // verus!
