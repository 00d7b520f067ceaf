//! What the library holds of the node that it runs in and of its peers.

use vstd::prelude::*;

verus! {

/// The public key of a node, in its compressed form of 33 bytes.
#[derive(Clone, Copy, Debug, PartialEq, Eq, Hash)]
pub struct NodeId {
    /// The bytes of the compressed public key.
    pub bytes: [u8; 33],
}

impl NodeId {
    /// Whether two node ids are the same.
    pub fn same(&self, other: &NodeId) -> (res: bool)
        ensures
            res == (*self == *other),
    {
        let mut i: usize = 0;
        while i < 33
            invariant
                i <= 33,
                forall|j: int| 0 <= j < i ==> self.bytes@[j] == other.bytes@[j],
            decreases 33 - i,
        {
            if self.bytes[i] != other.bytes[i] {
                return false;
            }
            i += 1;
        }
        assert(self.bytes@ =~= other.bytes@);
        assert(self.bytes == other.bytes);
        true
    }
}

/// The handle by which the node knows an HTLC that it holds back.
#[derive(Clone, Copy, Debug, PartialEq, Eq, Hash)]
pub struct InterceptId(pub [u8; 32]);

/// The identifier of a channel.
#[derive(Clone, Copy, Debug, PartialEq, Eq, Hash)]
pub struct ChannelId(pub [u8; 32]);

/// What the node is asked to do with an HTLC that it holds back.
#[derive(Clone, Copy, Debug, PartialEq, Eq)]
pub enum HtlcAction {
    /// Fail the HTLC backwards.
    Fail { intercept_id: InterceptId },
    /// Forward the HTLC over a channel to the next node.
    Forward {
        intercept_id: InterceptId,
        next_hop_channel_id: ChannelId,
        next_node_id: NodeId,
        amt_to_forward_msat: u64,
    },
}

/// The tip of the chain that the node follows.
#[derive(Clone, Copy, Debug, PartialEq, Eq)]
pub struct BestBlock {
    /// The hash of the block at the tip.
    pub block_hash: [u8; 32],
    /// The height of the block at the tip.
    pub height: u32,
}

/// The chain that the node follows.
#[derive(Clone, Copy, Debug, PartialEq, Eq, Structural)]
pub enum Network {
    /// The main chain.
    Bitcoin,
    /// The test chain.
    Testnet,
    /// The signed test chain.
    Signet,
    /// A chain for tests on one machine.
    Regtest,
}

/// The chain that the node follows and the tip it starts from.
#[derive(Clone, Copy, Debug, PartialEq, Eq)]
pub struct ChainParameters {
    /// The chain.
    pub network: Network,
    /// The tip of the chain when the manager is made.
    pub best_block: BestBlock,
}

/// The hash of the first block of a chain, as the `bitcoin` crate computes it.
pub uninterp spec fn genesis_hash_of(network: Network) -> Seq<u8>;

/// Computes the hash of the first block of a chain.
///
/// Calls `bitcoin::blockdata::constants::genesis_block` and takes the bytes of
/// the `block_hash` of its header. The contract only names the outcome: the same
/// chain always gives the same hash.
#[verifier::external_body]
pub(crate) fn genesis_hash(network: Network) -> (hash: [u8; 32])
    ensures
        hash@ == genesis_hash_of(network),
{
    let chain = match network {
        Network::Bitcoin => bitcoin::Network::Bitcoin,
        Network::Testnet => bitcoin::Network::Testnet,
        Network::Signet => bitcoin::Network::Signet,
        Network::Regtest => bitcoin::Network::Regtest,
    };
    let block = bitcoin::blockdata::constants::genesis_block(chain);
    bitcoin::hashes::Hash::into_inner(block.header.block_hash())
}

} // verus!
