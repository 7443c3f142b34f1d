//! How the instances of a watched contract are found.

use crate::helpers::texts;
use vstd::prelude::*;

verus! {

/// The views of an optional list of strings.
pub open spec fn optional_texts(list: Option<Vec<String>>) -> Option<Seq<Seq<char>>> {
    match list {
        Some(items) => Some(texts(items@)),
        None => None,
    }
}

/// A factory whose event announces each new instance of a contract.
#[derive(Debug, Clone, PartialEq, Eq)]
pub struct FactoryDetails {
    /// The factory contract's address.
    pub address: String,
    /// The factory event that announces a new instance.
    pub event_name: String,
    /// The input of that event which holds the new instance's address.
    pub parameter_name: String,
    /// Where the factory's interface is found.
    pub abi: String,
}

/// The mathematical content of a [`FactoryDetails`].
pub struct FactoryDetailsView {
    pub address: Seq<char>,
    pub event_name: Seq<char>,
    pub parameter_name: Seq<char>,
    pub abi: Seq<char>,
}

impl View for FactoryDetails {
    type V = FactoryDetailsView;

    open spec fn view(&self) -> FactoryDetailsView {
        FactoryDetailsView {
            address: self.address@,
            event_name: self.event_name@,
            parameter_name: self.parameter_name@,
            abi: self.abi@,
        }
    }
}

/// An event filter: the event's name and the values that up to three indexed
/// inputs must match.
#[derive(Debug, Clone, PartialEq, Eq)]
pub struct FilterDetails {
    pub event_name: String,
    pub indexed_1: Option<Vec<String>>,
    pub indexed_2: Option<Vec<String>>,
    pub indexed_3: Option<Vec<String>>,
}

/// The mathematical content of a [`FilterDetails`].
pub struct FilterDetailsView {
    pub event_name: Seq<char>,
    pub indexed_1: Option<Seq<Seq<char>>>,
    pub indexed_2: Option<Seq<Seq<char>>>,
    pub indexed_3: Option<Seq<Seq<char>>>,
}

impl View for FilterDetails {
    type V = FilterDetailsView;

    open spec fn view(&self) -> FilterDetailsView {
        FilterDetailsView {
            event_name: self.event_name@,
            indexed_1: optional_texts(self.indexed_1),
            indexed_2: optional_texts(self.indexed_2),
            indexed_3: optional_texts(self.indexed_3),
        }
    }
}

/// The one way in which a network binding finds its contract.
#[derive(Debug, Clone, PartialEq, Eq)]
pub enum IndexingContractSetup {
    /// A fixed contract address.
    Address(String),
    /// Every contract whose events pass a filter.
    Filter(FilterDetails),
    /// Every contract that a factory announces.
    Factory(FactoryDetails),
}

/// The mathematical content of an [`IndexingContractSetup`].
pub enum IndexingContractSetupView {
    Address(Seq<char>),
    Filter(FilterDetailsView),
    Factory(FactoryDetailsView),
}

impl View for IndexingContractSetup {
    type V = IndexingContractSetupView;

    open spec fn view(&self) -> IndexingContractSetupView {
        match self {
            IndexingContractSetup::Address(address) => IndexingContractSetupView::Address(
                address@,
            ),
            IndexingContractSetup::Filter(filter) => IndexingContractSetupView::Filter(filter@),
            IndexingContractSetup::Factory(factory) => IndexingContractSetupView::Factory(
                factory@,
            ),
        }
    }
}

impl IndexingContractSetupView {
    /// The discovery mode of the setup.
    pub open spec fn mode(self) -> DiscoveryMode {
        match self {
            IndexingContractSetupView::Address(_) => DiscoveryMode::Address,
            IndexingContractSetupView::Filter(_) => DiscoveryMode::Filter,
            IndexingContractSetupView::Factory(_) => DiscoveryMode::Factory,
        }
    }

    /// The address that the setup names: the contract's own, or the
    /// factory's. A filter names none.
    pub open spec fn address(self) -> Option<Seq<char>> {
        match self {
            IndexingContractSetupView::Address(address) => Some(address),
            IndexingContractSetupView::Factory(factory) => Some(factory.address),
            IndexingContractSetupView::Filter(_) => None,
        }
    }
}

/// The three discovery modes, without their details.
#[derive(Debug, Clone, Copy, PartialEq, Eq, Structural)]
pub enum DiscoveryMode {
    Address,
    Filter,
    Factory,
}

impl IndexingContractSetup {
    /// The discovery mode of the setup.
    pub fn mode(&self) -> (m: DiscoveryMode)
        ensures
            m == self@.mode(),
    {
        match self {
            IndexingContractSetup::Address(_) => DiscoveryMode::Address,
            IndexingContractSetup::Filter(_) => DiscoveryMode::Filter,
            IndexingContractSetup::Factory(_) => DiscoveryMode::Factory,
        }
    }

    /// Whether the contract is found by a filter.
    pub fn is_filter(&self) -> (r: bool)
        ensures
            r == (self@.mode() == DiscoveryMode::Filter),
    {
        match self {
            IndexingContractSetup::Filter(_) => true,
            _ => false,
        }
    }
}

} // verus!
