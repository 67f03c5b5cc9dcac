pub mod types;
pub mod registers;
pub mod probe;
pub mod select;
pub mod interface;
pub mod chip;
pub use types::{
    ApAddress, ArmError, CoreStatus, DapError, DebugPortVersion, DebugProbeError,
    DpAddress, DpRegisterAddress, FullyQualifiedApAddress, RegisterAddress, WireProtocol,
};
pub use registers::{Ctrl, Select1, SelectV1, SelectV3};
pub use probe::{DapProbe, ProbeEvent, SwoConfig};
pub use select::{DpState, SelectCache};
pub use interface::{
    ArmCommunicationInterface, ArmDebugInterface, ArmDebugSequence, SwdSequence,
};
pub use chip::{ArmChipInfo, JedecManufacturer, RomTableComponentInfo, chip_info_from_components};
