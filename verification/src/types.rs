use vstd::prelude::*;

verus! {

/// The two wire protocols a debug probe can speak to an ARM target.
#[derive(Clone, Copy, Debug, PartialEq, Eq, Structural)]
pub enum WireProtocol {
    /// Serial Wire Debug.
    Swd,
    /// JTAG.
    Jtag,
}

/// Identifies a debug port on the wire.
///
/// A DP is "current" only when the stored address matches bit for bit, so
/// equality on this type is exact structural equality.
#[derive(Clone, Copy, Debug, PartialEq, Eq, Structural)]
pub enum DpAddress {
    /// The single debug port of a target without multidrop.
    Default,
    /// One debug port of a multidrop arrangement, distinguished by its
    /// 32-bit target identifier and 4-bit instance number.
    Multidrop {
        /// The 32-bit target identifier on the shared wire.
        target_id: u32,
        /// The 4-bit instance number among targets with the same identifier.
        instance: u8,
    },
}

/// Identifies an access port attached to a debug port.
#[derive(Clone, Copy, Debug, PartialEq, Eq, Structural)]
pub enum ApAddress {
    /// An ADIv5 access port: a single 8-bit port number.
    V1(u8),
    /// An ADIv6 access port: a base address within the DP's memory space.
    /// `None` means the AP at base 0.
    V2(Option<u64>),
}

impl ApAddress {
    /// The base address an ADIv6 AP contributes to a combined register address.
    pub open spec fn v2_base(self) -> u64
        recommends self is V2,
    {
        match self {
            ApAddress::V2(base) => match base {
                Some(b) => b,
                None => 0u64,
            },
            _ => 0u64,
        }
    }
}

/// A fully qualified access-port address: the debug port it hangs off,
/// and the access port within that debug port.
#[derive(Clone, Copy, Debug, PartialEq, Eq, Structural)]
pub struct FullyQualifiedApAddress {
    /// The debug port the access port hangs off.
    pub dp: DpAddress,
    /// The access port within that debug port.
    pub ap: ApAddress,
}

impl FullyQualifiedApAddress {
    /// Pairs a debug-port address with a v1 access-port number.
    pub fn v1_with_dp(dp: DpAddress, ap: u8) -> (r: Self)
        ensures
            r.dp == dp,
            r.ap == ApAddress::V1(ap),
    {
        Self { dp, ap: ApAddress::V1(ap) }
    }

    /// Pairs a debug-port address with a v2 access-port base address.
    pub fn v2_with_dp(dp: DpAddress, base: Option<u64>) -> (r: Self)
        ensures
            r.dp == dp,
            r.ap == ApAddress::V2(base),
    {
        Self { dp, ap: ApAddress::V2(base) }
    }

    /// The debug-port half of the address.
    pub fn dp(&self) -> (r: DpAddress)
        ensures r == self.dp,
    {
        self.dp
    }

    /// The access-port half of the address.
    pub fn ap(&self) -> (r: ApAddress)
        ensures r == self.ap,
    {
        self.ap
    }
}

/// A debug-port register address: an optional 4-bit bank and a 4-bit
/// word-aligned address. Only addresses 0x0 and 0x4 are bank-selected;
/// the others ignore the bank field.
#[derive(Clone, Copy, Debug, PartialEq, Eq, Structural)]
pub struct DpRegisterAddress {
    /// The register bank, where the register is banked.
    pub bank: Option<u8>,
    /// The word-aligned register address: one of 0x0, 0x4, 0x8, 0xC.
    pub address: u8,
}

impl DpRegisterAddress {
    /// Banks and addresses both occupy four bits.
    pub open spec fn wf(self) -> bool {
        &&& self.address == 0 || self.address == 4 || self.address == 8 || self.address == 12
        &&& match self.bank {
            Some(b) => b < 16,
            None => true,
        }
    }

    /// The bank to select for this register: the stated bank, or 0.
    pub open spec fn spec_bank_or_zero(self) -> u8 {
        match self.bank {
            Some(b) => b,
            None => 0u8,
        }
    }

    /// The bank to select for this register: the stated bank, or 0.
    pub fn bank_or_zero(&self) -> (r: u8)
        ensures r == self.spec_bank_or_zero(),
    {
        match self.bank {
            Some(b) => b,
            None => 0u8,
        }
    }

    /// Whether bank selection matters for this address at all.
    pub open spec fn is_banked(self) -> bool {
        self.address == 0 || self.address == 4
    }
}

/// The address of one raw wire transaction: either a debug-port register
/// or an access-port register. An AP wire address is the low 8 bits of the
/// logical register address; the upper bits are consumed by bank selection.
#[derive(Clone, Copy, Debug, PartialEq, Eq, Structural)]
pub enum RegisterAddress {
    /// A debug-port register.
    DpRegister(DpRegisterAddress),
    /// An access-port register, reduced to its low 8 bits.
    ApRegister(u8),
}

/// The debug-port architecture version, read from the DPIDR register.
#[derive(Clone, Copy, Debug, PartialEq, Eq, Structural)]
pub enum DebugPortVersion {
    /// ADIv5 DPv0.
    DPv0,
    /// ADIv5 DPv1.
    DPv1,
    /// ADIv5 DPv2.
    DPv2,
    /// ADIv6 DPv3: 48-bit AP addressing over split SELECT/SELECT1.
    DPv3,
    /// Any other version nibble; carried verbatim.
    Unsupported(u8),
}

impl DebugPortVersion {
    /// Decodes the version nibble of a DPIDR value.
    pub open spec fn spec_from_nibble(nibble: u8) -> DebugPortVersion {
        if nibble == 0 {
            DebugPortVersion::DPv0
        } else if nibble == 1 {
            DebugPortVersion::DPv1
        } else if nibble == 2 {
            DebugPortVersion::DPv2
        } else if nibble == 3 {
            DebugPortVersion::DPv3
        } else {
            DebugPortVersion::Unsupported(nibble)
        }
    }

    /// Decodes the version nibble of a DPIDR value.
    pub fn from_nibble(nibble: u8) -> (r: DebugPortVersion)
        ensures r == DebugPortVersion::spec_from_nibble(nibble),
    {
        if nibble == 0 {
            DebugPortVersion::DPv0
        } else if nibble == 1 {
            DebugPortVersion::DPv1
        } else if nibble == 2 {
            DebugPortVersion::DPv2
        } else if nibble == 3 {
            DebugPortVersion::DPv3
        } else {
            DebugPortVersion::Unsupported(nibble)
        }
    }
}

/// The running state of a target core, as far as the probe cares:
/// probes may surface it on status lights or in their own bookkeeping.
#[derive(Clone, Copy, Debug, PartialEq, Eq, Structural)]
pub enum CoreStatus {
    /// The core is executing.
    Running,
    /// The core is halted under debugger control.
    Halted,
    /// The core is in a sleep state.
    Sleeping,
    /// The core state is not known.
    Unknown,
}

/// An error in the communication with an access port or debug port.
#[derive(Clone, Copy, Debug, PartialEq, Eq, Structural)]
pub enum DapError {
    /// A protocol error occurred in the communication between probe and device.
    Protocol(WireProtocol),
    /// The target device did not respond to the request.
    NoAcknowledge,
    /// The target device responded with a FAULT response to the request.
    FaultResponse,
    /// The target device responded with a WAIT response to the request.
    WaitResponse,
    /// The parity bit on the read request was incorrect.
    IncorrectParity,
}

/// An error reported by the debug probe itself, before any ARM semantics
/// enter the picture.
#[derive(Clone, Copy, Debug, PartialEq, Eq, Structural)]
pub enum DebugProbeError {
    /// The probe's transport reported an I/O failure.
    Usb,
    /// The target replied badly on the wire.
    Dap(DapError),
    /// The probe does not offer the requested operation.
    CommandNotSupported,
    /// Some other probe-internal failure.
    Other,
}

/// An error at the ARM communication layer.
#[derive(Clone, Copy, Debug, PartialEq, Eq, Structural)]
pub enum ArmError {
    /// The probe reported an error; surfaced verbatim.
    Probe(DebugProbeError),
    /// A chip-specific debug sequence hook reported failure.
    Sequence,
    /// The operation needs a capability of the named architectures that
    /// this probe does not offer.
    ArchitectureRequired,
    /// The access-port address variant does not match the debug-port
    /// version that was observed on the target.
    WrongApVersion,
    /// The DPIDR register named a debug-port version this layer does not
    /// speak; the raw version nibble is carried along.
    DebugPortVersionUnsupported(u8),
    /// The operation is defined by the architecture but not offered by
    /// this layer; a separate module provides it.
    NotImplemented,
}

impl ArmError {
    /// Wraps a probe error, as every raw transaction must.
    pub fn from_probe(e: DebugProbeError) -> (r: ArmError)
        ensures r == ArmError::Probe(e),
    {
        ArmError::Probe(e)
    }
}

} // verus!
