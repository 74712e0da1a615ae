//! The pool record, the two sides of a market, and the constants of the engine.

use vstd::prelude::*;

verus! {

/// A 32-byte address of the host's account model.
#[derive(Clone, Copy, Debug)]
pub struct Address {
    pub bytes: [u8; 32],
}

impl Address {
    /// The all-zero address, which stands for "not set".
    pub open spec fn is_unset(&self) -> bool {
        forall|i: int| 0 <= i < 32 ==> self.bytes@[i] == 0u8
    }

    /// Whether two addresses hold the same bytes.
    pub open spec fn same_as(&self, other: &Address) -> bool {
        self.bytes@ == other.bytes@
    }

    /// The all-zero address.
    pub fn unset() -> (a: Address)
        ensures
            a.is_unset(),
            a == unset_address(),
    {
        let a = Address { bytes: [0u8; 32] };
        proof {
            lemma_unset_is_unique(a);
        }
        a
    }

    /// Tests for the all-zero address.
    pub fn is_default(&self) -> (r: bool)
        ensures
            r == self.is_unset(),
    {
        let mut i: usize = 0;
        while i < 32
            invariant
                i <= 32,
                forall|j: int| 0 <= j < i ==> self.bytes@[j] == 0u8,
            decreases 32 - i,
        {
            if self.bytes[i] != 0 {
                return false;
            }
            i = i + 1;
        }
        true
    }

    /// Byte-wise equality.
    pub fn equals(&self, other: &Address) -> (r: bool)
        ensures
            r == self.same_as(other),
    {
        let mut i: usize = 0;
        while i < 32
            invariant
                i <= 32,
                forall|j: int| 0 <= j < i ==> self.bytes@[j] == other.bytes@[j],
            decreases 32 - i,
        {
            if self.bytes[i] != other.bytes[i] {
                return false;
            }
            i = i + 1;
        }
        assert(self.bytes@ =~= other.bytes@);
        true
    }
}

/// The all-zero address, which stands for "not set".
pub open spec fn unset_address() -> Address {
    choose|a: Address| a.is_unset()
}

/// There is one all-zero address.
pub proof fn lemma_unset_is_unique(a: Address)
    requires
        a.is_unset(),
    ensures
        a == unset_address(),
        unset_address().is_unset(),
{
    let u = unset_address();
    assert(u.is_unset());
    assert(a.bytes@ =~= u.bytes@);
    assert(a.bytes =~= u.bytes);
}

/// The address that holds the bytes `bytes`.
pub open spec fn address_of(bytes: Seq<u8>) -> Address {
    choose|a: Address| a.bytes@ == bytes
}

/// An address is the address of its bytes.
pub proof fn lemma_address_of(a: Address)
    ensures
        address_of(a.bytes@) == a,
{
    let b = address_of(a.bytes@);
    assert(b.bytes@ == a.bytes@);
    assert(b.bytes =~= a.bytes);
}

/// The tag that starts the seeds of a pool's address: `content_pool`.
pub open spec fn pool_tag() -> Seq<u8> {
    seq![99u8, 111u8, 110u8, 116u8, 101u8, 110u8, 116u8, 95u8, 112u8, 111u8, 111u8, 108u8]
}

/// The seeds of a pool's address: the tag, then the content identifier.
pub open spec fn pool_seeds(content_id: Address) -> Seq<Seq<u8>> {
    seq![pool_tag(), content_id.bytes@]
}

/// Token side for trading.
#[derive(Clone, Copy, Debug, PartialEq, Eq, Structural)]
pub enum TokenSide {
    Long,
    Short,
}

/// Trade type.
#[derive(Clone, Copy, Debug, PartialEq, Eq, Structural)]
pub enum TradeType {
    Buy,
    Sell,
}

/// One market: two coupled token supplies against one stablecoin reserve.
///
/// Supplies are whole display tokens; reserves and the vault balance are
/// micro-units of the stablecoin; the gauges are Q64.64; square-root prices
/// and the telemetry copies of lambda are Q96.
#[derive(Clone, Copy, Debug)]
pub struct ContentPool {
    /// Content identifier.
    pub content_id: Address,
    /// Who created the pool.
    pub creator: Address,
    /// First trader, who deployed the market; unset until then.
    pub market_deployer: Address,
    /// Content author, who receives the creator's share of the fees.
    pub post_creator: Address,
    /// Mint of the LONG token.
    pub long_mint: Address,
    /// Mint of the SHORT token.
    pub short_mint: Address,
    /// The pool's reserve account.
    pub vault: Address,
    /// The custodian's stake vault.
    pub stake_vault: Address,
    /// Growth exponent F.
    pub f: u16,
    /// Coupling numerator.
    pub beta_num: u16,
    /// Coupling denominator.
    pub beta_den: u16,
    /// LONG supply in display tokens.
    pub s_long: u64,
    /// SHORT supply in display tokens.
    pub s_short: u64,
    /// LONG reserve.
    pub r_long: u64,
    /// SHORT reserve.
    pub r_short: u64,
    /// sqrt(price of LONG) * 2^96, per display token.
    pub sqrt_price_long_x96: u128,
    /// sqrt(price of SHORT) * 2^96, per display token.
    pub sqrt_price_short_x96: u128,
    /// Gauge of the LONG side, Q64.64.
    pub s_scale_long_q64: u128,
    /// Gauge of the SHORT side, Q64.64.
    pub s_scale_short_q64: u128,
    /// Telemetry, never read by the engine: deployment leaves the root of its
    /// lambda here, as a root price; a trade leaves the lambda it derived.
    pub lambda_long_q96: u128,
    /// Telemetry, never read by the engine: the same value as on the LONG
    /// side.
    pub lambda_short_q96: u128,
    /// Time of the last settlement, in seconds.
    pub last_settle_ts: i64,
    /// Least time between two settlements, in seconds.
    pub min_settle_interval: i64,
    /// Number of settlements so far.
    pub current_epoch: u64,
    /// Decay starts after this time.
    pub expiration_timestamp: i64,
    /// Time decay was last applied.
    pub last_decay_update: i64,
    /// Cached balance of the reserve account.
    pub vault_balance: u64,
    /// Market prediction at deployment, Q32.32.
    pub initial_q: u64,
    /// The factory that made the pool.
    pub factory: Address,
    /// Bump seed of the pool's derived address.
    pub bump: u8,
}

impl ContentPool {
    /// The reserve-sum invariant: the two reserves add up to the vault balance.
    pub open spec fn reserves_match_vault(&self) -> bool {
        self.r_long + self.r_short == self.vault_balance
    }

    /// Whether the first trader has deployed the market.
    pub open spec fn is_deployed(&self) -> bool {
        !self.market_deployer.is_unset()
    }

    /// Both supplies are at or above the liquidity floor.
    pub open spec fn is_liquid(&self) -> bool {
        self.s_long >= MIN_POOL_LIQUIDITY && self.s_short >= MIN_POOL_LIQUIDITY
    }

    /// The seeds from which the host derives the pool's address: the tag
    /// `content_pool`, then the content identifier.
    pub fn seeds(&self) -> (r: Vec<Vec<u8>>)
        ensures
            r@.len() == 2,
            r@[0]@ == pool_tag(),
            r@[1]@ == self.content_id.bytes@,
            r.deep_view() == pool_seeds(self.content_id),
    {
        let mut tag: Vec<u8> = Vec::new();
        tag.push(99u8);
        tag.push(111u8);
        tag.push(110u8);
        tag.push(116u8);
        tag.push(101u8);
        tag.push(110u8);
        tag.push(116u8);
        tag.push(95u8);
        tag.push(112u8);
        tag.push(111u8);
        tag.push(111u8);
        tag.push(108u8);
        assert(tag@ =~= seq![99u8, 111u8, 110u8, 116u8, 101u8, 110u8, 116u8, 95u8, 112u8, 111u8, 111u8, 108u8]);
        let mut id: Vec<u8> = Vec::new();
        let mut i: usize = 0;
        while i < 32
            invariant
                i <= 32,
                id@.len() == i,
                forall|j: int| 0 <= j < i ==> id@[j] == self.content_id.bytes@[j],
            decreases 32 - i,
        {
            id.push(self.content_id.bytes[i]);
            i = i + 1;
        }
        assert(id@ =~= self.content_id.bytes@);
        let mut out: Vec<Vec<u8>> = Vec::new();
        out.push(tag);
        out.push(id);
        assert(out.deep_view() =~~= pool_seeds(self.content_id)) by {
            assert(out.deep_view().len() == 2);
            assert(out@[0].deep_view() =~= tag@);
            assert(out@[1].deep_view() =~= id@);
            assert(out.deep_view()[0] == out@[0].deep_view());
            assert(out.deep_view()[1] == out@[1].deep_view());
        }
        out
    }
}

/// Smallest buy, in micro-units of the stablecoin.
pub const MIN_TRADE_SIZE: u64 = 100_000;

/// Largest buy, in micro-units of the stablecoin.
pub const MAX_TRADE_SIZE: u64 = 1_000_000_000_000;

/// Smallest sell, in tokens.
pub const MIN_TOKEN_TRADE_SIZE: u64 = 1;

/// Floor of either display supply once a sell has gone through.
pub const MIN_POOL_LIQUIDITY: u64 = 1_000;

/// Atomic units per display token, and micro-units per stablecoin.
pub const TOKEN_SCALE: u64 = 1_000_000;

/// 1.0 in Q32.32.
pub const Q32_ONE: u64 = 0x1_0000_0000;

/// 1.0 in Q64.64.
pub const Q64: u128 = 0x1_0000_0000_0000_0000;

/// Least settlement factor, in millionths: 0.01.
pub const F_MIN: u64 = 10_000;

/// Largest settlement factor, in millionths: 100.
pub const F_MAX: u64 = 100_000_000;

/// Cap of a display supply.
pub const S_DISPLAY_CAP: u64 = 1_000_000_000_000;

/// Lower end of the gauge band: 2^48.
pub const SIGMA_MIN: u128 = 0x1_0000_0000_0000;

/// Upper end of the gauge band: 2^96.
pub const SIGMA_MAX: u128 = 0x1_0000_0000_0000_0000_0000_0000;

/// Lower end of the band of the virtual norm: 2^16.
pub const VIRTUAL_NORM_MIN: u128 = 0x1_0000;

/// Upper end of the band of the virtual norm: 2^31.
pub const VIRTUAL_NORM_MAX: u128 = 0x8000_0000;

/// Seconds in a day.
pub const SECONDS_PER_DAY: i64 = 86_400;

/// Daily decay of the prediction in the first week after expiry, in basis points.
pub const DECAY_TIER_1_BPS: u64 = 100;

/// Daily decay from the second week to the end of the first month.
pub const DECAY_TIER_2_BPS: u64 = 200;

/// Daily decay after the first month.
pub const DECAY_TIER_3_BPS: u64 = 300;

/// Floor of the decayed prediction, in basis points.
pub const DECAY_MIN_Q_BPS: u64 = 1000;

} // verus!
