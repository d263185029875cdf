//! The data the library works on: tokens, pools, positions and vaults.
//!
//! Token amounts are raw integers in each token's smallest unit; turning them
//! into human figures (dividing by `10^decimals`) is left to the caller.
use vstd::prelude::*;
use crate::uint::U256;

verus! {

/// An ERC-20 token of a pool.
#[derive(Clone, Debug)]
pub struct Token {
    pub address: String,
    pub name: String,
    pub symbol: String,
    pub decimals: u8,
    pub is_native_wrapper: bool,
}

/// A tick range and the tick the pool stands at.
#[derive(Clone, Copy, Debug, PartialEq, Eq, Structural)]
pub struct TickRange {
    pub curent_tick: i32,
    pub lower_tick: i32,
    pub upper_tick: i32,
}

/// A concentrated-liquidity pool as the vault sees it.
#[derive(Clone, Debug)]
pub struct Pool {
    pub address: String,
    pub token0: Token,
    pub token1: Token,
    /// The fee tier in hundredths of a basis point (3000 is 0.3%).
    pub fee: u32,
    pub tick_spacing: i32,
    pub current_tick: i32,
    pub sqrt_price_x96: U256,
}

/// The vault's liquidity position; all zero when the vault has none.
#[derive(Clone, Copy, Debug, PartialEq, Eq, Structural)]
pub struct Position {
    pub tick_lower: i32,
    pub tick_upper: i32,
    pub liquidity: u128,
    pub amount0: U256,
    pub amount1: U256,
    /// Uncollected fees of token0.
    pub fees0: u128,
    /// Uncollected fees of token1.
    pub fees1: u128,
}

impl Position {
    pub open spec fn is_empty(&self) -> bool {
        &&& self.tick_lower == 0
        &&& self.tick_upper == 0
        &&& self.liquidity == 0
        &&& self.amount0.val() == 0
        &&& self.amount1.val() == 0
        &&& self.fees0 == 0
        &&& self.fees1 == 0
    }
}

impl Default for Position {
    fn default() -> (r: Position)
        ensures
            r.is_empty(),
    {
        Position {
            tick_lower: 0,
            tick_upper: 0,
            liquidity: 0,
            amount0: U256::zero(),
            amount1: U256::zero(),
            fees0: 0,
            fees1: 0,
        }
    }
}

/// Total value locked per token: position amounts, uncollected fees and idle balance.
#[derive(Clone, Copy, Debug, PartialEq, Eq, Structural)]
pub struct VaultTVL {
    pub tvl0: U256,
    pub tvl1: U256,
}

/// Idle token balances held by a vault.
#[derive(Clone, Copy, Debug, PartialEq, Eq, Structural)]
pub struct VaultTokenBalances {
    pub token0_balance: U256,
    pub token1_balance: U256,
}

/// The swap that brings a vault's balances to the ratio its new range needs.
/// `is_swap_0_to_1` tells the direction: token0 in and token1 out, or the
/// reverse; the amounts are raw units of the token going out and coming in.
#[derive(Clone, Copy, Debug, PartialEq, Eq, Structural)]
pub struct PrepareSwapArgs {
    pub is_swap_0_to_1: bool,
    pub exact_amount_out: U256,
    pub max_amount_in: U256,
}

/// A managed vault and the pool it provides liquidity to.
#[derive(Clone, Debug)]
pub struct VaultDetails {
    pub address: String,
    pub pool: Pool,
    pub name: String,
    pub symbol: String,
    pub decimals: u8,
    pub total_supply: U256,
    pub lower_tick: i32,
    pub upper_tick: i32,
    pub is_active: bool,
    pub is_vault_tokens_associated: bool,
    pub position: Position,
    pub tvl: VaultTVL,
}

/// Network settings read from a configuration file.
#[derive(Clone, Debug)]
pub struct TomlConfig {
    pub rpc_url: String,
    pub chain_id: u64,
    pub non_fungible_position_manager_address: String,
    pub hbar_evm_address: String,
    pub vaults: Vec<String>,
}

/// The service's settings.
#[derive(Clone, Debug)]
pub struct Config {
    pub private_key: String,
    pub is_mainnet: bool,
    pub toml_config: TomlConfig,
    pub admin_email: String,
    pub admin_password: String,
    pub mailer_username: String,
    pub mailer_password: String,
    pub is_execute: bool,
    pub coingecko_api_key: String,
}

/// Body of an administrator's request to associate a vault's tokens.
#[derive(Clone, Debug)]
pub struct AdminAssociateVaultTokensRequest {
    pub password: String,
}

/// Body of an error answer of the service.
#[derive(Clone, Debug)]
pub struct ApiErrorResponse {
    pub message: String,
    pub error: String,
}

/// Body of a chat request to the service.
#[derive(Clone, Debug)]
pub struct ChatRequest {
    pub message: String,
    pub network: Option<String>,
    pub account_address: String,
}

} // verus!
