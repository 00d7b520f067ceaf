//! The feature bits that a node announces to tell that it speaks the
//! protocols, held in `lightning`'s own feature flags.

use vstd::prelude::*;

verus! {

/// The feature bit that tells that a node speaks the protocols.
pub const LSPS_FEATURE_BIT: usize = 729;

/// The feature flags of a node announcement: `lightning`'s `NodeFeatures`.
#[verifier::external_body]
pub struct NodeFeatureFlags {
    /// The flags themselves, for the node to take.
    pub inner: lightning::ln::features::NodeFeatures,
}

/// The feature flags of an init message: `lightning`'s `InitFeatures`.
#[verifier::external_body]
pub struct InitFeatureFlags {
    /// The flags themselves, for the node to take.
    pub inner: lightning::ln::features::InitFeatures,
}

/// The bits that are set in the feature flags of a node announcement.
pub uninterp spec fn node_feature_bits(flags: NodeFeatureFlags) -> Set<int>;

/// The bits that are set in the feature flags of an init message.
pub uninterp spec fn init_feature_bits(flags: InitFeatureFlags) -> Set<int>;

/// The odd bit that stands for `bit` as an optional feature: `bit` itself
/// where it is odd, the bit after it where it is even.
pub open spec fn optional_bit(bit: int) -> int {
    bit + (1 - bit % 2)
}

/// Makes feature flags of a node announcement with no bit set.
///
/// Calls `lightning::ln::features::NodeFeatures::empty`, which makes flags
/// without bytes.
#[verifier::external_body]
fn empty_node_features() -> (flags: NodeFeatureFlags)
    ensures
        node_feature_bits(flags) == Set::<int>::empty(),
{
    NodeFeatureFlags { inner: lightning::ln::features::NodeFeatures::empty() }
}

/// Sets an optional custom bit in the feature flags of a node announcement.
///
/// Calls `NodeFeatures::set_optional_custom_bit`. It turns `bit` into its odd
/// bit and refuses that bit below 256, leaving the flags as they were. From 256
/// on the bit lies beyond the 7 bytes of features that `lightning` knows of a
/// node, so it is set and nothing else is changed.
#[verifier::external_body]
fn set_optional_custom_node_bit(flags: &mut NodeFeatureFlags, bit: usize) -> (res: Result<(), ()>)
    requires
        bit < 0x1_0000,
    ensures
        res is Ok <==> optional_bit(bit as int) >= 256,
        res is Ok ==> node_feature_bits(*final(flags)) == node_feature_bits(*old(flags)).insert(
            optional_bit(bit as int),
        ),
        res is Err ==> node_feature_bits(*final(flags)) == node_feature_bits(*old(flags)),
{
    flags.inner.set_optional_custom_bit(bit)
}

/// Makes feature flags of an init message with no bit set.
///
/// Calls `lightning::ln::features::InitFeatures::empty`, which makes flags
/// without bytes.
#[verifier::external_body]
fn empty_init_features() -> (flags: InitFeatureFlags)
    ensures
        init_feature_bits(flags) == Set::<int>::empty(),
{
    InitFeatureFlags { inner: lightning::ln::features::InitFeatures::empty() }
}

/// Sets an optional custom bit in the feature flags of an init message.
///
/// Calls `InitFeatures::set_optional_custom_bit`. It turns `bit` into its odd
/// bit and refuses that bit below 256, leaving the flags as they were. From 256
/// on the bit lies beyond the 7 bytes of features that `lightning` knows of an
/// init message, so it is set and nothing else is changed.
#[verifier::external_body]
fn set_optional_custom_init_bit(flags: &mut InitFeatureFlags, bit: usize) -> (res: Result<(), ()>)
    requires
        bit < 0x1_0000,
    ensures
        res is Ok <==> optional_bit(bit as int) >= 256,
        res is Ok ==> init_feature_bits(*final(flags)) == init_feature_bits(*old(flags)).insert(
            optional_bit(bit as int),
        ),
        res is Err ==> init_feature_bits(*final(flags)) == init_feature_bits(*old(flags)),
{
    flags.inner.set_optional_custom_bit(bit)
}

/// The bits that a node announces: the bit of the protocols where the node
/// provides liquidity, and none else.
pub open spec fn provided_bits(provides_liquidity: bool) -> Set<int> {
    if provides_liquidity {
        Set::<int>::empty().insert(729)
    } else {
        Set::<int>::empty()
    }
}

/// The feature flags that a node announcement is to carry.
pub fn node_features(provides_liquidity: bool) -> (flags: NodeFeatureFlags)
    ensures
        node_feature_bits(flags) == provided_bits(provides_liquidity),
        node_feature_bits(flags).contains(729) <==> provides_liquidity,
{
    let mut flags = empty_node_features();
    if provides_liquidity {
        let _ = set_optional_custom_node_bit(&mut flags, LSPS_FEATURE_BIT);
    }
    flags
}

/// The feature flags that an init message is to carry.
pub fn init_features(provides_liquidity: bool) -> (flags: InitFeatureFlags)
    ensures
        init_feature_bits(flags) == provided_bits(provides_liquidity),
        init_feature_bits(flags).contains(729) <==> provides_liquidity,
{
    let mut flags = empty_init_features();
    if provides_liquidity {
        let _ = set_optional_custom_init_bit(&mut flags, LSPS_FEATURE_BIT);
    }
    flags
}

} // verus!
