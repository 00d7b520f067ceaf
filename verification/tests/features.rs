use lightning::util::ser::Writeable;
use lsp_liquidity::features::{init_features, node_features};
use lsp_liquidity::node::{BestBlock, ChainParameters, Network, NodeId};
use lsp_liquidity::transport::message_handler::{LiquidityManager, LiquidityProviderConfig};

fn flags_with_bit_729() -> Vec<u8> {
    let mut bytes = vec![0u8; 94];
    bytes[1] = 92;
    bytes[2] = 0b0000_0010;
    bytes
}

#[test]
fn feature_flags_hold_bit_729_exactly_where_liquidity_is_provided() {
    assert_eq!(node_features(true).inner.encode(), flags_with_bit_729());
    assert_eq!(init_features(true).inner.encode(), flags_with_bit_729());
    assert_eq!(node_features(false).inner.encode(), vec![0u8, 0u8]);
    assert_eq!(init_features(false).inner.encode(), vec![0u8, 0u8]);
    assert!(!node_features(true).inner.requires_unknown_bits());
    assert!(!init_features(true).inner.requires_unknown_bits());
}

#[test]
fn manager_announces_bit_729_exactly_with_a_provider_configuration() {
    let chain = ChainParameters {
        network: Network::Bitcoin,
        best_block: BestBlock { block_hash: [0u8; 32], height: 0 },
    };
    let peer = NodeId { bytes: [2u8; 33] };
    let provider =
        LiquidityManager::new(Some(LiquidityProviderConfig { jit_channels: None }), chain);
    assert_eq!(provider.provided_node_features().inner.encode(), flags_with_bit_729());
    assert_eq!(provider.provided_init_features(&peer).inner.encode(), flags_with_bit_729());
    let plain = LiquidityManager::new(None, chain);
    assert_eq!(plain.provided_node_features().inner.encode(), vec![0u8, 0u8]);
    assert_eq!(plain.provided_init_features(&peer).inner.encode(), vec![0u8, 0u8]);
}
