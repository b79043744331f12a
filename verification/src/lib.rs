//! Priority-fee estimation for claim and proving transactions on Solana.
use vstd::prelude::*;

pub mod estimate;
pub mod percentile;
pub mod service;

pub use estimate::{FeeEstimate, FeeServiceConfig};
pub use service::FeeService;
