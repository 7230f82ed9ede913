//! Control of an over-the-air WiFi receiver test: the signal generator's SCPI exchanges,
//! the device under test's control requests and MIB statistics, the waveform codec, and
//! the decisions of a power sweep. Sockets, files and timing belong to the caller.

pub mod dut;
pub mod scpi;
pub mod sweep;
pub mod text;
pub mod vsg;
pub mod waveform;
