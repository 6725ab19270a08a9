//! Small containers shared by the syntax trees.

use vstd::prelude::*;

verus! {

/// A sequence that holds at least one element: its first element, and the
/// elements after it.
#[derive(Debug, PartialEq, Eq)]
pub struct NonEmptyVec<T> {
    pub first: T,
    pub rest: Vec<T>,
}

impl<T> View for NonEmptyVec<T> {
    type V = Seq<T>;

    open spec fn view(&self) -> Seq<T> {
        seq![self.first] + self.rest@
    }
}

impl<T> NonEmptyVec<T> {
    /// A sequence of exactly one element.
    pub fn new(neccesary: T) -> (result: NonEmptyVec<T>)
        ensures
            result@ == seq![neccesary],
    {
        let result = NonEmptyVec { first: neccesary, rest: Vec::new() };
        assert(result@ =~= seq![neccesary]);
        result
    }

    /// The elements as a vector, which is not empty.
    pub fn unwrap(self) -> (result: Vec<T>)
        ensures
            result@ == self@,
            result@.len() > 0,
    {
        let mut result = self.rest;
        result.insert(0, self.first);
        assert(result@ =~= self@);
        result
    }

    /// The number of elements, which is never zero.
    pub fn len(&self) -> (result: usize)
        requires
            self@.len() <= usize::MAX,
        ensures
            result == self@.len(),
            result > 0,
    {
        self.rest.len() + 1
    }

    /// The sequence has its first element at its start, so it is not empty.
    pub proof fn lemma_has_first(self)
        ensures
            self@.len() > 0,
            self@[0] == self.first,
    {
    }

    /// The element at `index`.
    pub fn get(&self, index: usize) -> (result: &T)
        requires
            index < self@.len(),
        ensures
            *result == self@[index as int],
    {
        if index == 0 {
            &self.first
        } else {
            &self.rest[index - 1]
        }
    }
}

/// `None` for an empty vector, otherwise the same elements with the guarantee
/// that there is at least one.
pub fn vec_to_optional_non_empty_vec<T>(from: Vec<T>) -> (result: Option<NonEmptyVec<T>>)
    ensures
        from@.len() == 0 ==> result is None,
        from@.len() > 0 ==> (result matches Some(vec) && vec@ == from@),
{
    if from.len() == 0 {
        None
    } else {
        let mut rest = from;
        let first = rest.remove(0);
        let result = NonEmptyVec { first, rest };
        assert(result@ =~= from@);
        Some(result)
    }
}

/// The elements of the sequence, or no elements for `None`.
pub fn optional_non_empty_vec_to_vec<T>(from: Option<NonEmptyVec<T>>) -> (result: Vec<T>)
    ensures
        result@ == match from {
            Some(vec) => vec@,
            None => Seq::<T>::empty(),
        },
{
    match from {
        Some(vec) => vec.unwrap(),
        None => Vec::new(),
    }
}

/// One value, another, or both.
#[derive(Debug, PartialEq, Eq)]
pub enum EitherOrBoth<L, R> {
    Both(L, R),
    Left(L),
    Right(R),
}

/// One value or another.
#[derive(Debug, PartialEq, Eq)]
pub enum Either<L, R> {
    Left(L),
    Right(R),
}

} // verus!
