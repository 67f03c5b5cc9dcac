use vstd::prelude::*;
use crate::types::{ArmError, CoreStatus, DebugProbeError, DpAddress, RegisterAddress};

verus! {

/// Serial Wire Output capture configuration.
#[derive(Clone, Copy, Debug, PartialEq, Eq, Structural)]
pub struct SwoConfig {
    /// The SWO baud rate in hertz.
    pub baud: u32,
    /// The TPIU input clock in hertz.
    pub tpiu_clk: u32,
}

/// One probe operation as the interface core issued it, in issue order.
///
/// The hook events (`Setup`, `Connect`, `Start`, `Stop`) stand for one
/// invocation each of the corresponding debug-sequence hook; whatever
/// traffic a hook produces internally is summarised by its event.
#[derive(Clone, Copy, Debug, PartialEq, Eq, Structural)]
pub enum ProbeEvent {
    /// A raw register read, carrying the word the probe replied with, or
    /// nothing when the read failed.
    Read(RegisterAddress, Option<u32>),
    /// A raw register write of the given word.
    Write(RegisterAddress, u32),
    /// A raw block read of the given number of words.
    ReadBlock(RegisterAddress, usize),
    /// A raw block write of the given number of words.
    WriteBlock(RegisterAddress, usize),
    /// A drain of the probe's write buffer.
    Flush,
    /// A raw SWJ bit sequence.
    SwjSequence(u8, u64),
    /// A raw SWJ pin operation.
    SwjPins(u32, u32, u32),
    /// A core-status notification to the probe.
    StatusNotify(CoreStatus),
    /// One invocation of the `debug_port_setup` hook.
    Setup(DpAddress),
    /// One invocation of the `debug_port_connect` hook.
    Connect(DpAddress),
    /// One invocation of the `debug_port_start` hook.
    Start(DpAddress),
    /// One invocation of the `debug_port_stop` hook.
    Stop(DpAddress),
    /// A start of SWO capture with the given configuration.
    SwoEnable(SwoConfig),
    /// A stop of SWO capture.
    SwoDisable,
    /// A read of captured SWO bytes with the given timeout.
    SwoRead(u64),
}

/// The capability surface of a debug probe that offers raw access to an
/// ARM Debug Access Port. Probe drivers implement this; the interface
/// core owns exactly one value of it and issues every wire transaction
/// through it, in strict program order.
pub trait DapProbe: Sized {
    /// Reads one register over the wire.
    fn raw_read_register(&mut self, addr: RegisterAddress) -> Result<u32, DebugProbeError>;

    /// Writes one register over the wire.
    fn raw_write_register(
        &mut self,
        addr: RegisterAddress,
        value: u32,
    ) -> Result<(), DebugProbeError>;

    /// Reads a block of words from one register address, filling the
    /// whole buffer without changing its length.
    fn raw_read_block(
        &mut self,
        addr: RegisterAddress,
        values: &mut Vec<u32>,
    ) -> (r: Result<(), DebugProbeError>)
        ensures
            final(values)@.len() == old(values)@.len(),
    ;

    /// Writes a block of words to one register address.
    fn raw_write_block(
        &mut self,
        addr: RegisterAddress,
        values: &Vec<u32>,
    ) -> Result<(), DebugProbeError>;

    /// Drains any buffered writes to the target.
    fn raw_flush(&mut self) -> Result<(), DebugProbeError>;

    /// Bit-bangs an SWJ sequence of `bit_len` bits.
    fn swj_sequence(&mut self, bit_len: u8, bits: u64) -> (r: Result<(), DebugProbeError>)
        requires
            1 <= bit_len <= 64,
    ;

    /// Drives and samples the SWJ pins.
    fn swj_pins(
        &mut self,
        pin_out: u32,
        pin_select: u32,
        pin_wait: u32,
    ) -> Result<u32, DebugProbeError>;

    /// Informs the probe of the state of the core it is attached to.
    /// Purely informational.
    fn core_status_notification(&mut self, state: CoreStatus) -> Result<(), DebugProbeError>;

    /// Whether the probe offers Serial Wire Output capture. The default
    /// leaves it unconstrained, so drivers outside the verifier's reach
    /// need not provide it.
    open spec fn spec_has_swo(&self) -> bool {
        vstd::pervasive::arbitrary()
    }

    /// Whether the probe offers Serial Wire Output capture.
    fn has_swo(&self) -> (r: bool)
        ensures
            r == self.spec_has_swo(),
    ;

    /// Starts SWO capture with the given configuration.
    fn enable_swo(&mut self, config: &SwoConfig) -> Result<(), ArmError>;

    /// Stops SWO capture.
    fn disable_swo(&mut self) -> Result<(), ArmError>;

    /// Reads captured SWO bytes, waiting at most the given number of
    /// milliseconds.
    fn read_swo_timeout(&mut self, timeout_millis: u64) -> Result<Vec<u8>, ArmError>;
}

} // verus!
