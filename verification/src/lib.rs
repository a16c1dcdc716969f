//! Governance proposals, public goods funding and bridge pool vote
//! extensions, verified with Verus.

pub mod bridge_pool;
pub mod codec;
pub mod ibc_target;
pub mod identifiers;
pub mod onchain;
pub mod pgf;
pub mod proposal;
pub mod schema;
pub mod stewards;
pub mod text;
pub mod types;
pub mod utils;
