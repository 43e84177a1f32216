//! Constant-product market maker (`x * y = k`) in integer arithmetic: quotes for
//! swaps, deposits and withdraws on a snapshot of a pool, and the decisions of the
//! pool program's instructions (errors, token transfers, config changes).
//!
//! - `model`: what every quote is, over unbounded integers;
//! - `pool`: the quotes, each proved equal to its model;
//! - `isqrt`: the integer square root of the first LP mint;
//! - `laws`: properties of the quotes that hold for every input;
//! - `program`: the instructions' decisions on plain values;
//! - `plan_laws`: properties of the instructions' transfers.

pub mod arith;
pub mod error;
pub mod isqrt;
pub mod laws;
pub mod model;
pub mod plan_laws;
pub mod pool;
pub mod program;

pub use error::{CpmmError, CpmmResult};
pub use isqrt::isqrt;
pub use pool::{DepositQuote, PoolState, Side, SwapQuote, WithdrawQuote, BPS};
