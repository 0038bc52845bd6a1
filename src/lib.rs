//! Probes of a host's state: memory use, the terminal a process runs in, the
//! processor, distribution, desktop, device, GPUs, kernel, installed packages
//! and more. Each probe is a function of the text its source gives (a file of
//! `/proc` or `/sys`, a command's output, an environment variable), so that
//! what it answers is stated and proved for every such text.
use vstd::prelude::*;

pub mod cpu;
pub mod distro;
pub mod environment;
pub mod error;
pub mod gpu;
pub mod host;
pub mod memory;
pub mod music;
pub mod number;
pub mod packages;
pub mod search;
pub mod terminal;
pub mod text;

pub use cpu::{cpu, get};
pub use distro::{dist, distro_android};
pub use environment::{de, environment, wm};
pub use error::Error;
pub use gpu::{gpu, hex_id};
pub use host::{device_android, device_model, hostname, kernel, uptime_seconds};
pub use memory::{
    memory, memory_available, memory_formatter, memory_free, memory_total, memory_used,
    memory_used_kb,
};
pub use music::{music, now_playing};
pub use packages::{count, Manager};
pub use terminal::{parse_status, resolve, terminal, terminal_name, AncestryWalk, ProcessStatus, WalkStep};

verus! {

} // verus!
