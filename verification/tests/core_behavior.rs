use std::cell::RefCell;
use std::rc::Rc;

use arm_dap_core::{
    ArmChipInfo, ArmCommunicationInterface, ArmDebugInterface, ArmDebugSequence, ArmError,
    CoreStatus, Ctrl, SelectV1, SwdSequence,
    DapProbe, DebugPortVersion, DebugProbeError, DpAddress, DpRegisterAddress,
    FullyQualifiedApAddress, JedecManufacturer, RegisterAddress, RomTableComponentInfo,
    SelectCache, SwoConfig, chip_info_from_components,
};

#[derive(Debug, Clone, PartialEq, Eq)]
enum Op {
    Read(RegisterAddress),
    Write(RegisterAddress, u32),
    ReadBlock(RegisterAddress, usize),
    WriteBlock(RegisterAddress, usize),
    Flush,
    SwjSequence(u8, u64),
    SwjPins(u32, u32, u32),
    Notify(CoreStatus),
    Setup(DpAddress),
    Connect(DpAddress),
    Stop(DpAddress),
}

/// A deterministic bench target: DPIDR and CTRL respond with fixed words,
/// AP IDR reads respond non-zero exactly for the configured AP ports, and
/// every operation is appended to a shared log.
struct BenchProbe {
    log: Rc<RefCell<Vec<Op>>>,
    dpidr: u32,
    ctrl: u32,
    valid_aps: Vec<u8>,
    selected_ap: u8,
    swo: bool,
    fail_writes: bool,
}

impl BenchProbe {
    fn new(log: Rc<RefCell<Vec<Op>>>, dpidr: u32, ctrl: u32) -> Self {
        BenchProbe {
            log,
            dpidr,
            ctrl,
            valid_aps: Vec::new(),
            selected_ap: 0,
            swo: false,
            fail_writes: false,
        }
    }
}

fn dp_reg(bank: Option<u8>, address: u8) -> DpRegisterAddress {
    DpRegisterAddress { bank, address }
}

const BIG_IDR: u32 = 0x2468_0135;

impl DapProbe for BenchProbe {
    fn raw_read_register(&mut self, addr: RegisterAddress) -> Result<u32, DebugProbeError> {
        self.log.borrow_mut().push(Op::Read(addr));
        match addr {
            RegisterAddress::DpRegister(DpRegisterAddress { address: 0, .. }) => Ok(self.dpidr),
            RegisterAddress::DpRegister(DpRegisterAddress { address: 4, .. }) => Ok(self.ctrl),
            RegisterAddress::DpRegister(_) => Ok(0),
            RegisterAddress::ApRegister(_) => {
                if self.valid_aps.contains(&self.selected_ap) {
                    Ok(BIG_IDR)
                } else {
                    Ok(0)
                }
            }
        }
    }

    fn raw_write_register(
        &mut self,
        addr: RegisterAddress,
        value: u32,
    ) -> Result<(), DebugProbeError> {
        self.log.borrow_mut().push(Op::Write(addr, value));
        if self.fail_writes {
            return Err(DebugProbeError::Usb);
        }
        match addr {
            RegisterAddress::DpRegister(DpRegisterAddress { bank: None, address: 8 }) => {
                self.selected_ap = (value >> 24) as u8;
            }
            RegisterAddress::DpRegister(DpRegisterAddress { bank: Some(0), address: 4 }) => {
                self.ctrl = value;
            }
            _ => {}
        }
        Ok(())
    }

    fn raw_read_block(
        &mut self,
        addr: RegisterAddress,
        values: &mut Vec<u32>,
    ) -> Result<(), DebugProbeError> {
        self.log.borrow_mut().push(Op::ReadBlock(addr, values.len()));
        for v in values.iter_mut() {
            *v = 7;
        }
        Ok(())
    }

    fn raw_write_block(
        &mut self,
        addr: RegisterAddress,
        values: &Vec<u32>,
    ) -> Result<(), DebugProbeError> {
        self.log.borrow_mut().push(Op::WriteBlock(addr, values.len()));
        Ok(())
    }

    fn raw_flush(&mut self) -> Result<(), DebugProbeError> {
        self.log.borrow_mut().push(Op::Flush);
        Ok(())
    }

    fn swj_sequence(&mut self, bit_len: u8, bits: u64) -> Result<(), DebugProbeError> {
        self.log.borrow_mut().push(Op::SwjSequence(bit_len, bits));
        Ok(())
    }

    fn swj_pins(
        &mut self,
        pin_out: u32,
        pin_select: u32,
        pin_wait: u32,
    ) -> Result<u32, DebugProbeError> {
        self.log.borrow_mut().push(Op::SwjPins(pin_out, pin_select, pin_wait));
        Ok(0xFFFF_FFFF)
    }

    fn core_status_notification(&mut self, state: CoreStatus) -> Result<(), DebugProbeError> {
        self.log.borrow_mut().push(Op::Notify(state));
        Ok(())
    }

    fn has_swo(&self) -> bool {
        self.swo
    }

    fn enable_swo(&mut self, _config: &SwoConfig) -> Result<(), ArmError> {
        Ok(())
    }

    fn disable_swo(&mut self) -> Result<(), ArmError> {
        Ok(())
    }

    fn read_swo_timeout(&mut self, _timeout_millis: u64) -> Result<Vec<u8>, ArmError> {
        Ok(vec![0xAA, 0x55])
    }
}

#[derive(Clone)]
struct BenchSequence {
    fail_connect: Vec<DpAddress>,
    fail_setup: bool,
}

impl BenchSequence {
    fn new() -> Self {
        BenchSequence { fail_connect: Vec::new(), fail_setup: false }
    }
}

impl ArmDebugSequence<BenchProbe> for BenchSequence {
    fn debug_port_setup(&self, probe: &mut BenchProbe, dp: DpAddress) -> Result<(), ArmError> {
        probe.log.borrow_mut().push(Op::Setup(dp));
        if self.fail_setup {
            Err(ArmError::Sequence)
        } else {
            Ok(())
        }
    }

    fn debug_port_connect(&self, probe: &mut BenchProbe, dp: DpAddress) -> Result<(), ArmError> {
        probe.log.borrow_mut().push(Op::Connect(dp));
        if self.fail_connect.contains(&dp) {
            Err(ArmError::Sequence)
        } else {
            Ok(())
        }
    }

    fn debug_port_start(
        &self,
        _iface: &mut ArmCommunicationInterface<BenchProbe, Self>,
        _dp: DpAddress,
    ) -> Result<(), ArmError> {
        Ok(())
    }

    fn debug_port_stop(&self, probe: &mut BenchProbe, dp: DpAddress) -> Result<(), ArmError> {
        probe.log.borrow_mut().push(Op::Stop(dp));
        Ok(())
    }
}

const DPIDR_V1: u32 = 0x1000;
const DPIDR_V3: u32 = 0x3000;

fn fresh_iface(
    dpidr: u32,
    ctrl: u32,
    overrun: bool,
) -> (Rc<RefCell<Vec<Op>>>, ArmCommunicationInterface<BenchProbe, BenchSequence>) {
    let log = Rc::new(RefCell::new(Vec::new()));
    let probe = BenchProbe::new(log.clone(), dpidr, ctrl);
    let iface = ArmCommunicationInterface::create(probe, BenchSequence::new(), overrun);
    (log, iface)
}

#[allow(non_snake_case)]
fn CTRL_ADDR() -> RegisterAddress {
    RegisterAddress::DpRegister(DpRegisterAddress { bank: Some(0), address: 4 })
}
#[allow(non_snake_case)]
fn DPIDR_ADDR() -> RegisterAddress {
    RegisterAddress::DpRegister(DpRegisterAddress { bank: None, address: 0 })
}
#[allow(non_snake_case)]
fn SELECT_ADDR() -> RegisterAddress {
    RegisterAddress::DpRegister(DpRegisterAddress { bank: None, address: 8 })
}
#[allow(non_snake_case)]
fn SELECT1_ADDR() -> RegisterAddress {
    RegisterAddress::DpRegister(DpRegisterAddress { bank: Some(5), address: 4 })
}

#[test]
fn fresh_dpidr_read_issues_no_select_write() {
    // A fresh DPv1 read of DPIDR (address 0x0, bank absent): connection,
    // lazy initialisation, then the raw read - and no SELECT write, since
    // bank 0 equals the all-zero shadow and address 0x0 ignores the bank.
    let (log, mut iface) = fresh_iface(DPIDR_V1, 0, false);
    let v = iface.read_raw_dp_register(DpAddress::Default, dp_reg(None, 0)).unwrap();
    assert_eq!(v, DPIDR_V1);
    let ops = log.borrow().clone();
    assert_eq!(
        ops,
        vec![
            Op::Flush,
            Op::Setup(DpAddress::Default),
            Op::Read(CTRL_ADDR()),
            Op::Read(DPIDR_ADDR()),
            Op::Read(DPIDR_ADDR()),
        ]
    );
    assert!(ops.iter().all(|op| !matches!(op, Op::Write(..))));
}

#[test]
fn first_ap_read_writes_select_once_and_same_bank_read_rewrites_nothing() {
    // First AP read at (ap=3, addr=0xD4) on DPv1: setup and start, CTRL
    // and DPIDR reads, one SELECT write with ap_sel=3 / ap_bank_sel=0xD,
    // then the AP read. A following read at (ap=3, addr=0xD8) shares the
    // bank tuple and issues the AP read alone.
    let (log, mut iface) = fresh_iface(DPIDR_V1, 0, false);
    let ap = FullyQualifiedApAddress::v1_with_dp(DpAddress::Default, 3);
    iface.read_raw_ap_register(&ap, 0xD4).unwrap();
    let ops = log.borrow().clone();
    assert_eq!(
        ops,
        vec![
            Op::Flush,
            Op::Setup(DpAddress::Default),
            Op::Read(CTRL_ADDR()),
            Op::Read(DPIDR_ADDR()),
            Op::Write(SELECT_ADDR(), 0x0300_00D0),
            Op::Read(RegisterAddress::ApRegister(0xD4)),
        ]
    );
    log.borrow_mut().clear();
    iface.read_raw_ap_register(&ap, 0xD8).unwrap();
    let ops = log.borrow().clone();
    assert_eq!(ops, vec![Op::Read(RegisterAddress::ApRegister(0xD8))]);
}

#[test]
fn multidrop_switch_connects_and_falls_back_to_setup_on_failure() {
    // Selecting DP A then DP B: setup(A) and start(A), then connect(B);
    // when connect(B) fails, setup(B) runs instead. Both DPs keep
    // independent cached state.
    let dp_a = DpAddress::Multidrop { target_id: 0x0101_0001, instance: 0 };
    let dp_b = DpAddress::Multidrop { target_id: 0x0101_0001, instance: 1 };

    let log = Rc::new(RefCell::new(Vec::new()));
    let probe = BenchProbe::new(log.clone(), DPIDR_V1, 0);
    let mut iface = ArmCommunicationInterface::create(probe, BenchSequence::new(), false);
    iface.select_dp(dp_a).unwrap();
    iface.select_dp(dp_b).unwrap();
    let ops = log.borrow().clone();
    assert_eq!(
        ops,
        vec![
            Op::Flush,
            Op::Setup(dp_a),
            Op::Read(CTRL_ADDR()),
            Op::Read(DPIDR_ADDR()),
            Op::Flush,
            Op::Connect(dp_b),
            Op::Read(CTRL_ADDR()),
            Op::Read(DPIDR_ADDR()),
        ]
    );
    assert!(iface.debug_port_state(dp_a).is_some());
    assert!(iface.debug_port_state(dp_b).is_some());
    assert_eq!(iface.current_debug_port(), Some(dp_b));

    // The same switch with a connect that fails: the heavier setup runs.
    let log = Rc::new(RefCell::new(Vec::new()));
    let probe = BenchProbe::new(log.clone(), DPIDR_V1, 0);
    let sequence = BenchSequence { fail_connect: vec![dp_b], fail_setup: false };
    let mut iface = ArmCommunicationInterface::create(probe, sequence, false);
    iface.select_dp(dp_a).unwrap();
    log.borrow_mut().clear();
    iface.select_dp(dp_b).unwrap();
    let ops = log.borrow().clone();
    assert_eq!(
        ops,
        vec![
            Op::Flush,
            Op::Connect(dp_b),
            Op::Setup(dp_b),
            Op::Read(CTRL_ADDR()),
            Op::Read(DPIDR_ADDR()),
        ]
    );
}

#[test]
fn v3_ap_access_splits_combined_address_across_select_and_select1() {
    // A DPv3 AP at base 0x8000_0000, register 0x20: the combined address
    // 0x8000_0020 lands its bits 4..36 in SELECT and leaves SELECT1 at
    // zero, so only SELECT is written. The next register in the same
    // window issues no SELECT traffic. A jump beyond the low window moves
    // the high bits: SELECT and then SELECT1 are both written.
    let (log, mut iface) = fresh_iface(DPIDR_V3, 0, false);
    let ap = FullyQualifiedApAddress::v2_with_dp(DpAddress::Default, Some(0x8000_0000));
    iface.read_raw_ap_register(&ap, 0x20).unwrap();
    let ops = log.borrow().clone();
    assert_eq!(
        ops,
        vec![
            Op::Flush,
            Op::Setup(DpAddress::Default),
            Op::Read(CTRL_ADDR()),
            Op::Read(DPIDR_ADDR()),
            Op::Write(SELECT_ADDR(), 0x8000_0020),
            Op::Read(RegisterAddress::ApRegister(0x20)),
        ]
    );
    let st = iface.debug_port_state(DpAddress::Default).unwrap();
    match st.current_select {
        SelectCache::DPv3(s, s1) => {
            assert_eq!(s.addr, 0x0800_0002);
            assert_eq!(s1.addr, 0);
        }
        SelectCache::DPv1(_) => panic!("expected the ADIv6 shadow shape"),
    }

    log.borrow_mut().clear();
    iface.read_raw_ap_register(&ap, 0x24).unwrap();
    let ops = log.borrow().clone();
    assert_eq!(ops, vec![Op::Read(RegisterAddress::ApRegister(0x24))]);

    log.borrow_mut().clear();
    let far = FullyQualifiedApAddress::v2_with_dp(DpAddress::Default, Some(0x1_0000_0000_0000));
    iface.read_raw_ap_register(&far, 0x0).unwrap();
    let ops = log.borrow().clone();
    assert_eq!(
        ops,
        vec![
            Op::Write(SELECT_ADDR(), 0),
            Op::Write(SELECT1_ADDR(), 0x1000),
            Op::Read(RegisterAddress::ApRegister(0)),
        ]
    );
    let st = iface.debug_port_state(DpAddress::Default).unwrap();
    match st.current_select {
        SelectCache::DPv3(s, s1) => {
            assert_eq!(s.addr, 0);
            assert_eq!(s1.addr, 0x1000);
        }
        SelectCache::DPv1(_) => panic!("expected the ADIv6 shadow shape"),
    }
}

#[test]
fn overrun_detect_reconciliation_writes_ctrl_once_on_mismatch_only() {
    // CTRL reads back with overrun detection off while the configuration
    // asks for it: exactly one CTRL write during the start, with the bit
    // set. When they already agree, no CTRL write at all.
    let (log, mut iface) = fresh_iface(DPIDR_V1, 0, true);
    iface.select_dp(DpAddress::Default).unwrap();
    let ops = log.borrow().clone();
    let ctrl_writes: Vec<&Op> = ops
        .iter()
        .filter(|op| matches!(op, Op::Write(a, _) if *a == CTRL_ADDR()))
        .collect();
    assert_eq!(ctrl_writes, vec![&Op::Write(CTRL_ADDR(), 1)]);

    let (log, mut iface) = fresh_iface(DPIDR_V1, 1, true);
    iface.select_dp(DpAddress::Default).unwrap();
    let ops = log.borrow().clone();
    assert!(ops.iter().all(|op| !matches!(op, Op::Write(a, _) if *a == CTRL_ADDR())));
}

#[test]
fn close_stops_current_dp_first_then_connects_and_stops_the_rest() {
    // Shutdown while holding three DPs: the current one is stopped
    // without a reconnect, every other DP is connected and stopped, and
    // the probe is flushed last. A DP whose connect fails has its stop
    // skipped; the others still run.
    let dp_a = DpAddress::Multidrop { target_id: 7, instance: 0 };
    let dp_b = DpAddress::Multidrop { target_id: 7, instance: 1 };
    let dp_c = DpAddress::Multidrop { target_id: 7, instance: 2 };

    let log = Rc::new(RefCell::new(Vec::new()));
    let probe = BenchProbe::new(log.clone(), DPIDR_V1, 0);
    let sequence = BenchSequence { fail_connect: vec![dp_a], fail_setup: false };
    let mut iface = ArmCommunicationInterface::create(probe, sequence, false);
    iface.select_dp(dp_a).unwrap();
    iface.select_dp(dp_b).unwrap();
    iface.select_dp(dp_c).unwrap();
    log.borrow_mut().clear();
    let (_probe, _) = iface.close();
    let ops = log.borrow().clone();
    assert_eq!(
        ops,
        vec![
            Op::Stop(dp_c),
            Op::Connect(dp_a),
            Op::Connect(dp_b),
            Op::Stop(dp_b),
            Op::Flush,
        ]
    );
}

#[test]
fn reinitialize_rebuilds_the_state_a_fresh_connection_would_have() {
    // After traffic that moved the SELECT shadow, reinitialize tears
    // everything down and rebuilds the previously current DP: the result
    // equals what a fresh create followed by selecting that DP produces.
    let (log, mut iface) = fresh_iface(DPIDR_V1, 0, false);
    let ap = FullyQualifiedApAddress::v1_with_dp(DpAddress::Default, 3);
    iface.read_raw_ap_register(&ap, 0xD4).unwrap();
    log.borrow_mut().clear();
    iface.reinitialize().unwrap();
    let ops = log.borrow().clone();
    assert_eq!(
        ops,
        vec![
            Op::Stop(DpAddress::Default),
            Op::Flush,
            Op::Flush,
            Op::Setup(DpAddress::Default),
            Op::Read(CTRL_ADDR()),
            Op::Read(DPIDR_ADDR()),
        ]
    );
    let st = iface.debug_port_state(DpAddress::Default).unwrap();

    let (_log2, mut fresh) = fresh_iface(DPIDR_V1, 0, false);
    fresh.select_dp(DpAddress::Default).unwrap();
    let fresh_st = fresh.debug_port_state(DpAddress::Default).unwrap();

    assert_eq!(st, fresh_st);
    assert_eq!(iface.current_debug_port(), fresh.current_debug_port());
}

#[test]
fn unbanked_dp_addresses_never_move_select() {
    // DP register addresses outside {0x0, 0x4} ignore the bank field:
    // even an exotic bank request issues no SELECT write.
    let (log, mut iface) = fresh_iface(DPIDR_V1, 0, false);
    iface.select_dp(DpAddress::Default).unwrap();
    log.borrow_mut().clear();
    iface.read_raw_dp_register(DpAddress::Default, dp_reg(Some(9), 8)).unwrap();
    iface.read_raw_dp_register(DpAddress::Default, dp_reg(Some(12), 12)).unwrap();
    let ops = log.borrow().clone();
    assert_eq!(
        ops,
        vec![
            Op::Read(RegisterAddress::DpRegister(dp_reg(Some(9), 8))),
            Op::Read(RegisterAddress::DpRegister(dp_reg(Some(12), 12))),
        ]
    );
}

#[test]
fn dp_bank_switch_writes_select_once_and_is_idempotent() {
    // A banked DP read at a new bank issues one SELECT write carrying the
    // bank; repeating the access in the same bank issues the read alone.
    let (log, mut iface) = fresh_iface(DPIDR_V1, 0, false);
    iface.select_dp(DpAddress::Default).unwrap();
    log.borrow_mut().clear();
    iface.read_raw_dp_register(DpAddress::Default, dp_reg(Some(3), 4)).unwrap();
    let ops = log.borrow().clone();
    assert_eq!(
        ops,
        vec![
            Op::Write(SELECT_ADDR(), 3),
            Op::Read(RegisterAddress::DpRegister(dp_reg(Some(3), 4))),
        ]
    );
    log.borrow_mut().clear();
    iface.read_raw_dp_register(DpAddress::Default, dp_reg(Some(3), 4)).unwrap();
    let ops = log.borrow().clone();
    assert_eq!(ops, vec![Op::Read(RegisterAddress::DpRegister(dp_reg(Some(3), 4)))]);
}

#[test]
fn mismatched_ap_variant_is_rejected_without_traffic() {
    let (log, mut iface) = fresh_iface(DPIDR_V1, 0, false);
    iface.select_dp(DpAddress::Default).unwrap();
    log.borrow_mut().clear();
    let ap = FullyQualifiedApAddress::v2_with_dp(DpAddress::Default, Some(0x1000));
    let r = iface.read_raw_ap_register(&ap, 0);
    assert_eq!(r, Err(ArmError::WrongApVersion));
    assert!(log.borrow().is_empty());
}

#[test]
fn access_ports_walks_v1_indices_in_stable_ascending_order() {
    let log = Rc::new(RefCell::new(Vec::new()));
    let mut probe = BenchProbe::new(log.clone(), DPIDR_V1, 0);
    probe.valid_aps = vec![5, 0, 3];
    let mut iface = ArmCommunicationInterface::create(probe, BenchSequence::new(), false);
    let aps = iface.access_ports(DpAddress::Default).unwrap();
    let expected: Vec<FullyQualifiedApAddress> = vec![
        FullyQualifiedApAddress::v1_with_dp(DpAddress::Default, 0),
        FullyQualifiedApAddress::v1_with_dp(DpAddress::Default, 3),
        FullyQualifiedApAddress::v1_with_dp(DpAddress::Default, 5),
    ];
    assert_eq!(aps, expected);
    // Discovery is idempotent and order-stable.
    let again = iface.access_ports(DpAddress::Default).unwrap();
    assert_eq!(again, expected);
}

#[test]
fn access_ports_reports_unrecognised_versions_as_hard_errors() {
    let (_log, mut iface) = fresh_iface(0x7000, 0, false);
    let r = iface.access_ports(DpAddress::Default);
    assert_eq!(r, Err(ArmError::DebugPortVersionUnsupported(7)));

    let (_log, mut iface) = fresh_iface(DPIDR_V3, 0, false);
    let r = iface.access_ports(DpAddress::Default);
    assert_eq!(r, Err(ArmError::NotImplemented));
}

#[test]
fn swj_passthrough_reaches_the_probe_unmodified() {
    let (log, mut iface) = fresh_iface(DPIDR_V1, 0, false);
    iface.swj_sequence(51, 0x0007_FFFF_FFFF_FFFF).unwrap();
    let pins = iface.swj_pins(0x80, 0x80, 0).unwrap();
    assert_eq!(pins, 0xFFFF_FFFF);
    let ops = log.borrow().clone();
    assert_eq!(
        ops,
        vec![Op::SwjSequence(51, 0x0007_FFFF_FFFF_FFFF), Op::SwjPins(0x80, 0x80, 0)]
    );
}

#[test]
fn swo_calls_require_the_capability() {
    let (_log, mut iface) = fresh_iface(DPIDR_V1, 0, false);
    let config = SwoConfig { baud: 1_000_000, tpiu_clk: 72_000_000 };
    assert_eq!(iface.enable_swo(&config), Err(ArmError::ArchitectureRequired));
    assert_eq!(iface.disable_swo(), Err(ArmError::ArchitectureRequired));
    assert_eq!(iface.read_swo_timeout(100), Err(ArmError::ArchitectureRequired));

    let log = Rc::new(RefCell::new(Vec::new()));
    let mut probe = BenchProbe::new(log, DPIDR_V1, 0);
    probe.swo = true;
    let mut iface = ArmCommunicationInterface::create(probe, BenchSequence::new(), false);
    assert_eq!(iface.enable_swo(&config), Ok(()));
    assert_eq!(iface.read_swo_timeout(100), Ok(vec![0xAA, 0x55]));
    assert_eq!(iface.disable_swo(), Ok(()));
}

#[test]
fn block_transfers_and_notifications_pass_through() {
    let (log, mut iface) = fresh_iface(DPIDR_V1, 0, false);
    iface.core_status_notification(CoreStatus::Halted);
    let ap = FullyQualifiedApAddress::v1_with_dp(DpAddress::Default, 0);
    let mut buf = vec![0u32; 4];
    iface.read_raw_ap_register_repeated(&ap, 0x10, &mut buf).unwrap();
    assert_eq!(buf, vec![7, 7, 7, 7]);
    iface.write_raw_ap_register_repeated(&ap, 0x10, &buf).unwrap();
    iface.write_raw_ap_register(&ap, 0x04, 0xDEAD_BEEF).unwrap();
    iface.flush().unwrap();
    let ops = log.borrow().clone();
    assert_eq!(ops[0], Op::Notify(CoreStatus::Halted));
    assert_eq!(ops.last(), Some(&Op::Flush));
    assert!(ops.contains(&Op::ReadBlock(RegisterAddress::ApRegister(0x10), 4)));
    assert!(ops.contains(&Op::WriteBlock(RegisterAddress::ApRegister(0x10), 4)));
    assert!(ops.contains(&Op::Write(RegisterAddress::ApRegister(0x04), 0xDEAD_BEEF)));
}

#[test]
fn version_is_recorded_and_v3_retags_the_shadow() {
    let (_log, mut iface) = fresh_iface(DPIDR_V1, 0, false);
    iface.select_dp(DpAddress::Default).unwrap();
    let st = iface.debug_port_state(DpAddress::Default).unwrap();
    assert_eq!(st.debug_port_version, DebugPortVersion::DPv1);
    assert!(matches!(st.current_select, SelectCache::DPv1(_)));

    let (_log, mut iface) = fresh_iface(DPIDR_V3, 0, false);
    iface.select_dp(DpAddress::Default).unwrap();
    let st = iface.debug_port_state(DpAddress::Default).unwrap();
    assert_eq!(st.debug_port_version, DebugPortVersion::DPv3);
    match st.current_select {
        SelectCache::DPv3(s, s1) => {
            assert_eq!(s.addr, 0);
            assert_eq!(s.dp_bank_sel, 0);
            assert_eq!(s1.addr, 0);
        }
        SelectCache::DPv1(_) => panic!("expected the ADIv6 shadow shape"),
    }
}

#[test]
fn chip_info_takes_the_first_identifying_rom_table() {
    let nordic = JedecManufacturer { cc: 0x02, id: 0x44 };
    let components = vec![
        RomTableComponentInfo { is_class1_rom_table: false, manufacturer: Some(nordic), part: 1 },
        RomTableComponentInfo { is_class1_rom_table: true, manufacturer: None, part: 2 },
        RomTableComponentInfo { is_class1_rom_table: true, manufacturer: Some(nordic), part: 3 },
        RomTableComponentInfo { is_class1_rom_table: true, manufacturer: Some(nordic), part: 4 },
    ];
    let info = chip_info_from_components(&components).unwrap();
    assert_eq!(info, ArmChipInfo { manufacturer: nordic, part: 3 });

    let none = chip_info_from_components(&Vec::new());
    assert_eq!(none, None);
}

#[test]
fn manufacturer_names_come_from_the_jedec_list() {
    let info = ArmChipInfo { manufacturer: JedecManufacturer { cc: 0x02, id: 0x44 }, part: 0 };
    assert_eq!(info.manufacturer_name().as_deref(), Some("Nordic VLSI ASA"));

    let unknown = ArmChipInfo { manufacturer: JedecManufacturer { cc: 0xFF, id: 0x00 }, part: 0 };
    assert_eq!(unknown.manufacturer_name(), None);
}

#[test]
fn display_string_renders_name_or_unknown_code_with_part_hex() {
    let known = ArmChipInfo {
        manufacturer: JedecManufacturer { cc: 0x02, id: 0x44 },
        part: 0x1234,
    };
    assert_eq!(known.display_string(), "Nordic VLSI ASA 0x1234");

    let unknown = ArmChipInfo {
        manufacturer: JedecManufacturer { cc: 0xFF, id: 0x05 },
        part: 0x00AB,
    };
    assert_eq!(unknown.display_string(), "<unknown manufacturer (cc=ff, id= 5)> 0x00ab");
}

#[test]
fn trait_surface_delegates_to_the_interface() {
    let (log, mut iface) = fresh_iface(DPIDR_V1, 0, false);
    ArmDebugInterface::select_debug_port(&mut iface, DpAddress::Default).unwrap();
    assert_eq!(ArmDebugInterface::current_debug_port(&iface), Some(DpAddress::Default));
    SwdSequence::swj_sequence(&mut iface, 8, 0xFF).unwrap();
    let aps = ArmDebugInterface::access_ports(&mut iface, DpAddress::Default).unwrap();
    assert!(aps.is_empty());
    ArmDebugInterface::reinitialize(&mut iface).unwrap();
    let _probe = ArmDebugInterface::close(iface);
    assert_eq!(log.borrow().last(), Some(&Op::Flush));
}

#[test]
fn failed_select_write_surfaces_the_probe_error_and_leaves_the_shadow_behind() {
    // The shadow advances together with the write, never before: when the
    // SELECT write fails, the error is surfaced verbatim and the cached
    // selection still holds its previous value.
    let log = Rc::new(RefCell::new(Vec::new()));
    let probe = BenchProbe::new(log.clone(), DPIDR_V1, 0);
    let mut iface = ArmCommunicationInterface::create(probe, BenchSequence::new(), false);
    iface.select_dp(DpAddress::Default).unwrap();
    let before = iface.debug_port_state(DpAddress::Default).unwrap();

    // No handle to the probe remains, so failure is injected up front on
    // a second interface built the same way.
    let log = Rc::new(RefCell::new(Vec::new()));
    let mut probe = BenchProbe::new(log.clone(), DPIDR_V1, 0);
    probe.fail_writes = true;
    let mut iface = ArmCommunicationInterface::create(probe, BenchSequence::new(), false);
    iface.select_dp(DpAddress::Default).unwrap();
    let ap = FullyQualifiedApAddress::v1_with_dp(DpAddress::Default, 3);
    let r = iface.read_raw_ap_register(&ap, 0xD4);
    assert_eq!(r, Err(ArmError::Probe(DebugProbeError::Usb)));
    let after = iface.debug_port_state(DpAddress::Default).unwrap();
    assert_eq!(after, before);
}

#[test]
fn failed_setup_surfaces_the_sequence_error_and_connects_nothing() {
    let log = Rc::new(RefCell::new(Vec::new()));
    let probe = BenchProbe::new(log.clone(), DPIDR_V1, 0);
    let sequence = BenchSequence { fail_connect: Vec::new(), fail_setup: true };
    let mut iface = ArmCommunicationInterface::create(probe, sequence, false);
    let r = iface.select_dp(DpAddress::Default);
    assert_eq!(r, Err(ArmError::Sequence));
    assert_eq!(iface.current_debug_port(), None);
    assert!(iface.debug_port_state(DpAddress::Default).is_none());
}

#[test]
fn select_v1_fields_pack_into_the_expected_word() {
    let mut s = SelectV1(0);
    s.set_ap_sel(0xAB);
    s.set_ap_bank_sel(0xC);
    s.set_dp_bank_sel(0x3);
    assert_eq!(s.0, 0xAB00_00C3);
    assert_eq!(s.ap_sel(), 0xAB);
    assert_eq!(s.ap_bank_sel(), 0xC);
    assert_eq!(s.dp_bank_sel(), 0x3);
}

#[test]
fn ctrl_overrun_bit_round_trips() {
    let mut c = Ctrl(0xF000_0000);
    assert!(!c.orun_detect());
    c.set_orun_detect(true);
    assert!(c.orun_detect());
    assert_eq!(c.0, 0xF000_0001);
    c.set_orun_detect(false);
    assert!(!c.orun_detect());
    assert_eq!(c.0, 0xF000_0000);
}

#[test]
fn dpidr_version_nibble_maps_to_versions() {
    let cases: Vec<(u32, DebugPortVersion)> = vec![
        (0x0000_0000, DebugPortVersion::DPv0),
        (0x0000_1000, DebugPortVersion::DPv1),
        (0x0000_2000, DebugPortVersion::DPv2),
        (0x0000_3000, DebugPortVersion::DPv3),
        (0x0000_9000, DebugPortVersion::Unsupported(9)),
    ];
    for (raw, want) in cases {
        let nibble = arm_dap_core::registers::dpidr_version_nibble(raw);
        assert_eq!(DebugPortVersion::from_nibble(nibble), want);
    }
}

#[test]
fn reinitialize_without_a_current_dp_only_flushes() {
    let (log, mut iface) = fresh_iface(DPIDR_V1, 0, false);
    assert_eq!(iface.reinitialize(), Ok(()));
    assert_eq!(iface.current_debug_port(), None);
    assert_eq!(log.borrow().clone(), vec![Op::Flush]);
}
