//! Incremental propagation of a mutation on one value to a parallel value.
//!
//! Where a plain map mutator would rebuild the projected value wholesale on
//! each mutation, a type implementing [`IncrementalMapping`] observes the
//! unmutate token of the mutation and applies the minimal edit.

use vstd::prelude::*;

verus! {

/// A type that keeps a value `To` in step with a value `F`, patching `To`
/// incrementally from the unmutate token of each mutation of `F`.
///
/// `in_sync` says that the mapping, the source value and the projected
/// value agree; `undone` names the source value that undoing the recorded
/// mutation restores; `token_applies` bounds the tokens a state accepts;
/// and `room_for` carries the machine limits under which an edit fits.
pub trait IncrementalMapping<F: DeepView, To: DeepView, Tok: DeepView>: Sized {
    /// The mapping keeps `to` in step with `from`.
    spec fn in_sync(self, from: F::V, to: To::V) -> bool;

    /// The token can be applied to the (already mutated) value `from`.
    spec fn token_applies(self, from: F::V, t: Tok::V) -> bool;

    /// The source value restored by undoing the recorded mutation.
    spec fn undone(self, from: F::V, t: Tok::V) -> F::V;

    /// The machine limits admit projecting `from` over `to`.
    spec fn room_for(self, from: F::V, to: To::V) -> bool;

    /// `from_value` was already mutated; the token records how to undo it.
    /// Patches `to_value` to mirror `from_value`.
    fn mutate_value_from_token(&mut self, from_value: &F, to_value: &mut To, token: &Tok)
        requires
            old(self).token_applies(from_value.deep_view(), token.deep_view()),
            old(self).in_sync(
                old(self).undone(from_value.deep_view(), token.deep_view()),
                old(to_value).deep_view(),
            ),
            old(self).room_for(from_value.deep_view(), old(to_value).deep_view()),
        ensures
            final(self).in_sync(from_value.deep_view(), final(to_value).deep_view()),
    ;

    /// `from_value` has not been unmutated yet; the token records how to
    /// undo it. Restores `to_value` to mirror the pre-mutation value.
    fn unmutate_value_from_token(&mut self, from_value: &F, to_value: &mut To, token: &Tok)
        requires
            old(self).token_applies(from_value.deep_view(), token.deep_view()),
            old(self).in_sync(from_value.deep_view(), old(to_value).deep_view()),
            old(self).room_for(
                old(self).undone(from_value.deep_view(), token.deep_view()),
                old(to_value).deep_view(),
            ),
        ensures
            final(self).in_sync(
                old(self).undone(from_value.deep_view(), token.deep_view()),
                final(to_value).deep_view(),
            ),
    ;
}

} // verus!
