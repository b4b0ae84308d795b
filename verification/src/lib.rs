//! Decision logic of an infrared remote-control recorder and replayer:
//! a small signal database served over HTTP, the sampling and replay of
//! infrared signals, request-body extraction, Wi-Fi connection decisions
//! and the arithmetic used to probe how much memory can be allocated.
use vstd::prelude::*;

pub mod extractor;
pub mod http;
pub mod ir;
pub mod memory;
pub mod server;
pub mod wifi;

verus! {

/// Number of concurrent web server tasks.
pub const WEB_TASK_POOL_SIZE: usize = 8;

} // verus!
