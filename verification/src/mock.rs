use vstd::prelude::*;

verus! {

/// The message the child registry accepts for minting one item. Tests use it
/// to restate, on the registry's own surface, what a mint instruction carries.
#[derive(Clone, Debug, PartialEq, Eq)]
pub enum Cw721MockExecuteMsg {
    /// Mint a new NFT; only the registry's configured minter may call this.
    Mint {
        /// Unique identifier of the NFT inside its registry.
        token_id: String,
        /// The owner of the newly minted NFT.
        owner: String,
        /// Universal resource identifier describing the NFT's metadata.
        token_uri: Option<String>,
    },
}

/// The (empty) message that instantiates a stand-in child registry.
#[derive(Clone, Debug, PartialEq, Eq)]
pub struct Cw721MockInstantiateMsg {}

/// The query surface of a stand-in child registry, which answers every
/// query with [`MockResponse`].
#[derive(Clone, Debug, PartialEq, Eq)]
pub enum Cw721MockQueryMsg {
    Mock {},
}

/// The answer a stand-in child registry gives to any request.
#[derive(Clone, Debug, PartialEq, Eq)]
pub struct MockResponse {}

} // verus!
