//! A synthetic-asset protocol: collateralized debt positions with lazy interest,
//! a product-sum stability pool, and the liquidation that joins them, over a
//! fungible-token ledger, a price feed and a registry of instances.

pub mod cdp;
pub mod contract;
pub mod data_feed;
pub mod error;
pub mod fixed;
pub mod liquidation;
pub mod orchestrator;
pub mod pool;
pub mod positions;
pub mod prices;
pub mod staking;
pub mod table;
pub mod token;

pub use contract::TokenContract;
pub use error::Error;
pub use prices::PriceData;
