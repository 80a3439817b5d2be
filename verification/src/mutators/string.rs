//! A mutator for the chain-name strings, derived from the basic
//! enumeration mutator through a two-way converter.

use vstd::prelude::*;

use crate::mutators::enums::BasicEnumMutator;
use crate::mutators::extended::ExtendedMutator;
use crate::traits::{Mutator, MutatorValueConverter, MutatorWrapper};

verus! {

/// The names of the known chains.
#[derive(Clone, Copy, Debug, PartialEq, Eq, Structural)]
pub enum ChainName {
    Mainnet,
}

impl DeepView for ChainName {
    type V = ChainName;

    open spec fn deep_view(&self) -> ChainName {
        *self
    }
}

/// Converts between chain names and their string form.
pub struct ChainNameToStringConverter {}

impl ChainNameToStringConverter {
    /// Builds the converter.
    pub fn new() -> (r: ChainNameToStringConverter) {
        ChainNameToStringConverter {}
    }
}

impl MutatorValueConverter for ChainNameToStringConverter {
    type InnerValue = ChainName;

    type Value = String;

    open spec fn from_inner_spec(&self, inner: ChainName) -> Seq<char> {
        "TEZOS_MAINNET"@
    }

    open spec fn to_inner_spec(&self, value: Seq<char>) -> ChainName {
        ChainName::Mainnet
    }

    open spec fn converter_accepts(&self, value: Seq<char>) -> bool {
        value == "TEZOS_MAINNET"@
    }

    proof fn lemma_round_trip(&self, value: Seq<char>) {
    }

    proof fn lemma_inner_round_trip(&self, inner: ChainName) {
    }

    fn from_inner_value_ref(&self, inner_value: &ChainName) -> (r: String) {
        "TEZOS_MAINNET".to_owned()
    }

    fn to_inner_value_ref(&self, value: &String) -> (r: ChainName) {
        ChainName::Mainnet
    }

    fn try_to_inner(&self, value: &String) -> (r: Option<ChainName>) {
        let expected: String = "TEZOS_MAINNET".to_owned();
        if value.eq(&expected) {
            Some(ChainName::Mainnet)
        } else {
            None
        }
    }
}

/// The chain-name string mutator: the basic enumeration mutator shown
/// through the string converter.
pub type ChainNameStringMutatorInner = ExtendedMutator<BasicEnumMutator, ChainNameToStringConverter>;

/// A mutator for chain-name strings.
pub struct ChainNameStringMutator {
    pub inner: ChainNameStringMutatorInner,
}

impl ChainNameStringMutator {
    /// Builds the mutator.
    pub fn new() -> (r: ChainNameStringMutator)
        ensures
            r.inner.m_wf(),
    {
        ChainNameStringMutator {
            inner: ExtendedMutator::new(BasicEnumMutator::new(), ChainNameToStringConverter::new()),
        }
    }

    /// The wrapped mutator.
    pub fn wrapped_mutator(&self) -> (r: &ChainNameStringMutatorInner)
        ensures
            r == &self.inner,
    {
        &self.inner
    }
}

impl MutatorWrapper for ChainNameStringMutator {
    type Wrapped = ChainNameStringMutatorInner;

    fn wrapped_mutator(&self) -> (r: &ChainNameStringMutatorInner)
        ensures
            r == &self.inner,
    {
        &self.inner
    }
}

} // verus!
