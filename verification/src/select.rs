use vstd::prelude::*;
use crate::types::{ApAddress, DpRegisterAddress, DebugPortVersion, RegisterAddress};
use crate::registers::{
    Ctrl, Select1, SelectV1, SelectV3, spec_ctrl_address, spec_select_address,
    spec_select1_address,
};
use crate::probe::ProbeEvent;

verus! {

/// Typed shadow of the debug port's SELECT register(s): the last value
/// written to the probe, one shape per debug-port generation.
#[derive(Clone, Copy, Debug, PartialEq, Eq, Structural)]
pub enum SelectCache {
    /// ADIv5: one packed 32-bit SELECT word.
    DPv1(SelectV1),
    /// ADIv6: SELECT and SELECT1, covering a 48-bit AP address space.
    DPv3(SelectV3, Select1),
}

impl SelectCache {
    /// The bank fields never exceed four bits.
    pub open spec fn wf(self) -> bool {
        match self {
            SelectCache::DPv1(s) => true,
            SelectCache::DPv3(s, s1) => s.dp_bank_sel < 16,
        }
    }

    /// The DP register bank the shadow currently selects.
    pub open spec fn spec_dp_bank_sel(self) -> u8 {
        match self {
            SelectCache::DPv1(s) => s.spec_dp_bank_sel(),
            SelectCache::DPv3(s, _) => s.dp_bank_sel,
        }
    }

    /// The DP register bank the shadow currently selects.
    pub fn dp_bank_sel(&self) -> (r: u8)
        ensures r == self.spec_dp_bank_sel(),
    {
        match self {
            SelectCache::DPv1(s) => s.dp_bank_sel(),
            SelectCache::DPv3(s, _) => s.dp_bank_sel,
        }
    }

    /// The shadow with the DP bank field replaced; the AP fields and the
    /// cache shape are untouched.
    pub open spec fn spec_with_dp_bank(self, bank: u8) -> SelectCache {
        match self {
            SelectCache::DPv1(s) => SelectCache::DPv1(s.spec_with_dp_bank(bank)),
            SelectCache::DPv3(s, s1) => SelectCache::DPv3(
                SelectV3 { addr: s.addr, dp_bank_sel: bank },
                s1,
            ),
        }
    }

    /// Replaces the DP bank field.
    pub fn set_dp_bank_sel(&mut self, bank: u8)
        requires bank < 16,
        ensures *final(self) == old(self).spec_with_dp_bank(bank),
    {
        match self {
            SelectCache::DPv1(s) => s.set_dp_bank_sel(bank),
            SelectCache::DPv3(s, _) => s.dp_bank_sel = bank,
        }
    }
}

/// Replacing the DP bank of a well-formed shadow lands the bank, keeps
/// the shape, and stays well-formed.
pub proof fn lemma_cache_dp_bank_update(c: SelectCache, bank: u8)
    requires
        c.wf(),
        bank < 16,
    ensures
        c.spec_with_dp_bank(bank).spec_dp_bank_sel() == bank,
        c.spec_with_dp_bank(bank).wf(),
        c.spec_with_dp_bank(bank) is DPv3 <==> c is DPv3,
{
    match c {
        SelectCache::DPv1(s) => {
            crate::registers::lemma_v1_dp_bank_update(s, bank);
        }
        SelectCache::DPv3(s, s1) => {}
    }
}

/// Per-DP cached state: the observed debug-port version, and the shadow
/// of the last SELECT value written for that DP.
#[derive(Clone, Copy, Debug, PartialEq, Eq, Structural)]
pub struct DpState {
    /// The version read from DPIDR, or `Unsupported(0xFF)` until the
    /// start sequence has completed.
    pub debug_port_version: DebugPortVersion,
    /// The shadow of the SELECT register(s), as last written.
    pub current_select: SelectCache,
}

impl DpState {
    /// The select-cache shape follows the observed version: the shadow is
    /// retagged to its DPv3 form precisely when the version is seen to be
    /// DPv3.
    pub open spec fn wf(self) -> bool {
        &&& self.current_select.wf()
        &&& (self.current_select is DPv3 <==> self.debug_port_version == DebugPortVersion::DPv3)
    }

    /// A fresh, not yet initialised per-DP state: version unknown, shadow
    /// all zeros in its ADIv5 shape.
    pub fn new() -> (r: Self)
        ensures
            r == DpState::spec_new(),
            r.wf(),
    {
        DpState {
            debug_port_version: DebugPortVersion::Unsupported(0xFF),
            current_select: SelectCache::DPv1(SelectV1(0)),
        }
    }

    /// The fresh per-DP state.
    pub open spec fn spec_new() -> DpState {
        DpState {
            debug_port_version: DebugPortVersion::Unsupported(0xFF),
            current_select: SelectCache::DPv1(SelectV1(0)),
        }
    }

    /// The select shadow a debug port of the given version holds right
    /// after its start sequence has completed with no AP selected.
    pub open spec fn spec_initial_select(version: DebugPortVersion) -> SelectCache {
        if version == DebugPortVersion::DPv3 {
            SelectCache::DPv3(SelectV3 { addr: 0, dp_bank_sel: 0 }, Select1 { addr: 0 })
        } else {
            SelectCache::DPv1(SelectV1(0))
        }
    }
}

/// The shadow after selecting the bank for one DP register access:
/// unchanged for an address that is not bank-selected, or whose bank is
/// already current; otherwise the shadow with the new bank.
pub open spec fn dp_bank_target(cache: SelectCache, reg: DpRegisterAddress) -> SelectCache {
    if !reg.is_banked() || reg.spec_bank_or_zero() == cache.spec_dp_bank_sel() {
        cache
    } else {
        cache.spec_with_dp_bank(reg.spec_bank_or_zero())
    }
}

/// The SELECT traffic that the bank selection for one DP register access
/// issues: nothing when no bank movement is needed, else one SELECT write
/// (SELECT only, on either shape; SELECT1 is unaffected by DP banking).
pub open spec fn dp_bank_writes(cache: SelectCache, reg: DpRegisterAddress) -> Seq<ProbeEvent> {
    if !reg.is_banked() || reg.spec_bank_or_zero() == cache.spec_dp_bank_sel() {
        Seq::empty()
    } else {
        match cache.spec_with_dp_bank(reg.spec_bank_or_zero()) {
            SelectCache::DPv1(s) => seq![
                ProbeEvent::Write(RegisterAddress::DpRegister(spec_select_address()), s.0),
            ],
            SelectCache::DPv3(s, _) => seq![
                ProbeEvent::Write(RegisterAddress::DpRegister(spec_select_address()), s.spec_word()),
            ],
        }
    }
}

/// Whether an AP address variant fits the shape of a DP's select cache:
/// ADIv5 port numbers pair with the one-word shadow, ADIv6 base addresses
/// with the split shadow.
pub open spec fn variant_matches(cache: SelectCache, ap: ApAddress) -> bool {
    match (ap, cache) {
        (ApAddress::V1(_), SelectCache::DPv1(_)) => true,
        (ApAddress::V2(_), SelectCache::DPv3(_, _)) => true,
        _ => false,
    }
}

/// The shadow needed for one AP register access.
///
/// ADIv5: the AP port number and bits 7..4 of the wire address land in
/// the packed word. ADIv6: the combined address (base plus register
/// offset) is split, bits 4..36 into SELECT and the bits above into
/// SELECT1; the DP bank is untouched.
pub open spec fn ap_target(cache: SelectCache, ap: ApAddress, address: u64) -> SelectCache
    recommends
        variant_matches(cache, ap),
        ap matches ApAddress::V2(_) ==> ap.v2_base() + address <= u64::MAX,
{
    match (ap, cache) {
        (ApAddress::V1(port), SelectCache::DPv1(s)) => {
            let wire = (address & 0xFF) as u8;
            SelectCache::DPv1(s.spec_with_ap_sel(port).spec_with_ap_bank((wire >> 4) as u8))
        }
        (ApAddress::V2(_), SelectCache::DPv3(s, s1)) => {
            let combined = (ap.v2_base() + address) as u64;
            SelectCache::DPv3(
                SelectV3 {
                    addr: ((combined >> 4) & 0xFFFF_FFFF) as u32,
                    dp_bank_sel: s.dp_bank_sel,
                },
                Select1 { addr: (combined >> 36) as u32 },
            )
        }
        (_, c) => c,
    }
}

/// The SELECT traffic that moving the shadow from `cache` to `target`
/// issues: nothing when they agree; one SELECT write on ADIv5; on ADIv6 a
/// SELECT write alone when only SELECT moved, and SELECT then SELECT1
/// when the high bits moved.
pub open spec fn ap_select_writes(cache: SelectCache, target: SelectCache) -> Seq<ProbeEvent> {
    if cache == target {
        Seq::empty()
    } else {
        match (cache, target) {
            (SelectCache::DPv1(_), SelectCache::DPv1(t)) => seq![
                ProbeEvent::Write(RegisterAddress::DpRegister(spec_select_address()), t.0),
            ],
            (SelectCache::DPv3(s, s1), SelectCache::DPv3(t, t1)) => {
                if s1 == t1 {
                    seq![
                        ProbeEvent::Write(
                            RegisterAddress::DpRegister(spec_select_address()),
                            t.spec_word(),
                        ),
                    ]
                } else {
                    seq![
                        ProbeEvent::Write(
                            RegisterAddress::DpRegister(spec_select_address()),
                            t.spec_word(),
                        ),
                        ProbeEvent::Write(
                            RegisterAddress::DpRegister(spec_select1_address()),
                            t1.spec_word(),
                        ),
                    ]
                }
            }
            _ => Seq::empty(),
        }
    }
}

/// The CTRL/STAT traffic that reconciling the overrun-detect bit issues
/// during a debug port's lazy initialisation: nothing when the bit read
/// back already agrees with the configuration, else exactly one write of
/// the value read with the bit moved to the configuration.
pub open spec fn ctrl_reconcile_writes(ctrl: u32, want: bool) -> Seq<ProbeEvent> {
    if Ctrl(ctrl).spec_orun_detect() == want {
        Seq::empty()
    } else {
        seq![
            ProbeEvent::Write(
                RegisterAddress::DpRegister(spec_ctrl_address()),
                Ctrl(ctrl).spec_with_orun_detect(want).0,
            ),
        ]
    }
}

/// A DP register address outside the banked pair issues no SELECT write
/// for bank reasons, whatever the shadow holds.
pub proof fn lemma_unbanked_address_no_select_write(cache: SelectCache, reg: DpRegisterAddress)
    requires
        reg.address != 0,
        reg.address != 4,
    ensures
        dp_bank_writes(cache, reg) == Seq::<ProbeEvent>::empty(),
        dp_bank_target(cache, reg) == cache,
{
}

/// Selecting a DP bank is idempotent: once the shadow has moved to the
/// bank an access needs, repeating the same access issues no traffic.
pub proof fn lemma_dp_bank_select_idempotent(cache: SelectCache, reg: DpRegisterAddress)
    requires
        cache.wf(),
        reg.wf(),
    ensures
        dp_bank_writes(dp_bank_target(cache, reg), reg) == Seq::<ProbeEvent>::empty(),
        dp_bank_target(dp_bank_target(cache, reg), reg) == dp_bank_target(cache, reg),
{
    if reg.is_banked() && reg.spec_bank_or_zero() != cache.spec_dp_bank_sel() {
        lemma_cache_dp_bank_update(cache, reg.spec_bank_or_zero());
    }
}

/// Selecting an AP is idempotent: once the shadow holds what an access
/// at a given port and bank needs, every further access that needs the
/// same tuple issues no SELECT traffic. Consecutive same-bank accesses
/// therefore produce at most one SELECT write between them.
pub proof fn lemma_ap_select_idempotent(
    cache: SelectCache,
    ap: ApAddress,
    address1: u64,
    address2: u64,
)
    requires
        variant_matches(cache, ap),
        ap matches ApAddress::V2(_) ==> ap.v2_base() + address1 <= u64::MAX
            && ap.v2_base() + address2 <= u64::MAX,
        match ap {
            // The same AP bank is needed by both accesses.
            ApAddress::V1(_) => ((address1 & 0xFF) as u8) >> 4 == ((address2 & 0xFF) as u8) >> 4,
            // The same combined select address is needed by both accesses.
            ApAddress::V2(_) => (((ap.v2_base() + address1) as u64) >> 4)
                == (((ap.v2_base() + address2) as u64) >> 4),
        },
    ensures
        ap_target(ap_target(cache, ap, address1), ap, address2) == ap_target(cache, ap, address1),
        ap_select_writes(ap_target(cache, ap, address1), ap_target(ap_target(cache, ap, address1), ap, address2))
            == Seq::<ProbeEvent>::empty(),
{
    match (ap, cache) {
        (ApAddress::V1(port), SelectCache::DPv1(s)) => {
            let w = s.0;
            let p = port;
            let b = (((address1 & 0xFF) as u8) >> 4) as u8;
            let t = s.spec_with_ap_sel(p).spec_with_ap_bank(b);
            assert(t.spec_with_ap_sel(p).spec_with_ap_bank(b) == t) by {
                let tw = t.0;
                assert(tw == (((w & 0x00FF_FFFF) | ((p as u32) << 24)) & 0xFFFF_FF0F)
                    | ((b as u32) << 4));
                assert(((((((w & 0x00FF_FFFF) | ((p as u32) << 24)) & 0xFFFF_FF0F)
                    | ((b as u32) << 4)) & 0x00FF_FFFF) | ((p as u32) << 24)) & 0xFFFF_FF0F
                    | ((b as u32) << 4)
                    == ((((w & 0x00FF_FFFF) | ((p as u32) << 24)) & 0xFFFF_FF0F)
                        | ((b as u32) << 4))) by (bit_vector);
            }
        }
        (ApAddress::V2(_), SelectCache::DPv3(s, s1)) => {
            let c1 = (ap.v2_base() + address1) as u64;
            let c2 = (ap.v2_base() + address2) as u64;
            assert(c1 >> 4 == c2 >> 4);
            assert(c1 >> 4 == c2 >> 4 ==> ((c1 >> 4) & 0xFFFF_FFFF == (c2 >> 4) & 0xFFFF_FFFF)
                && (c1 >> 36 == c2 >> 36)) by (bit_vector);
        }
        _ => {}
    }
}

/// On ADIv6, a shadow change that moves only the low select word issues a
/// SELECT write and no SELECT1 write; one that moves the high bits issues
/// both, SELECT first.
pub proof fn lemma_v3_write_split(s: SelectV3, s1: Select1, t: SelectV3, t1: Select1)
    requires
        SelectCache::DPv3(s, s1) != SelectCache::DPv3(t, t1),
    ensures
        s1 == t1 ==> ap_select_writes(SelectCache::DPv3(s, s1), SelectCache::DPv3(t, t1))
            =~= seq![
                ProbeEvent::Write(RegisterAddress::DpRegister(spec_select_address()), t.spec_word()),
            ],
        s1 != t1 ==> ap_select_writes(SelectCache::DPv3(s, s1), SelectCache::DPv3(t, t1))
            =~= seq![
                ProbeEvent::Write(RegisterAddress::DpRegister(spec_select_address()), t.spec_word()),
                ProbeEvent::Write(
                    RegisterAddress::DpRegister(spec_select1_address()),
                    t1.spec_word(),
                ),
            ],
{
}

} // verus!
