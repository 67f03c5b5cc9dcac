use vstd::prelude::*;
use vstd::pervasive::VecAdditionalExecFns;
use crate::types::{
    ArmError, CoreStatus, DpAddress, DpRegisterAddress, DebugPortVersion, RegisterAddress,
};
use crate::probe::{DapProbe, ProbeEvent, SwoConfig};
use crate::select::{DpState, SelectCache};

verus! {

/// Appending an event to a trace keeps the original trace as a prefix.
pub broadcast proof fn lemma_trace_prefix_push(b: Seq<ProbeEvent>, e: ProbeEvent)
    ensures
        b.is_prefix_of(#[trigger] b.push(e)),
{
    assert(b =~= b.push(e).subrange(0, b.len() as int));
}

/// Appending a run of events to a trace keeps it as a prefix.
pub broadcast proof fn lemma_trace_prefix_concat(b: Seq<ProbeEvent>, c: Seq<ProbeEvent>)
    ensures
        b.is_prefix_of(#[trigger] (b + c)),
{
    assert(b =~= (b + c).subrange(0, b.len() as int));
}

/// Being a prefix of a trace carries over every later extension of it.
pub broadcast proof fn lemma_trace_prefix_trans(
    a: Seq<ProbeEvent>,
    b: Seq<ProbeEvent>,
    c: Seq<ProbeEvent>,
)
    requires
        #[trigger] a.is_prefix_of(b),
        #[trigger] b.is_prefix_of(c),
    ensures
        a.is_prefix_of(c),
{
    assert(a =~= c.subrange(0, a.len() as int));
}

/// The middle of a disconnect run: the cached DPs are visited in their
/// stored order; the current one is passed over (it was stopped up
/// front), every other one is connected, and — when the connect went
/// through — stopped right after.
pub open spec fn disconnect_visits(
    mid: Seq<ProbeEvent>,
    keys: Seq<DpAddress>,
    cur: DpAddress,
) -> bool
    decreases keys.len(),
{
    if keys.len() == 0 {
        mid.len() == 0
    } else if keys[0] == cur {
        disconnect_visits(mid, keys.drop_first(), cur)
    } else {
        mid.len() >= 1 && mid[0] == ProbeEvent::Connect(keys[0]) && (
        (mid.len() >= 2 && mid[1] == ProbeEvent::Stop(keys[0]) && disconnect_visits(
            mid.skip(2),
            keys.drop_first(),
            cur,
        )) || disconnect_visits(mid.skip(1), keys.drop_first(), cur))
    }
}

/// One more DP visited at the end of a disconnect run keeps the shape:
/// nothing for the current DP, a connect — and at most one stop right
/// after it — for any other.
proof fn lemma_disconnect_visits_extend(
    mid: Seq<ProbeEvent>,
    keys: Seq<DpAddress>,
    cur: DpAddress,
    seg: Seq<ProbeEvent>,
    k: DpAddress,
)
    requires
        disconnect_visits(mid, keys, cur),
        k == cur ==> seg =~= Seq::<ProbeEvent>::empty(),
        k != cur ==> seg =~= seq![ProbeEvent::Connect(k)] || seg =~= seq![
            ProbeEvent::Connect(k),
            ProbeEvent::Stop(k),
        ],
    ensures
        disconnect_visits(mid + seg, keys.push(k), cur),
    decreases keys.len(),
{
    let ks = keys.push(k);
    if keys.len() == 0 {
        assert(mid.len() == 0);
        assert(mid + seg =~= seg);
        assert(ks.drop_first() =~= Seq::<DpAddress>::empty());
        assert(ks[0] == k);
        if k != cur {
            if seg.len() == 2 {
                assert(seg.skip(2) =~= Seq::<ProbeEvent>::empty());
                assert((mid + seg).skip(2) =~= Seq::<ProbeEvent>::empty());
                assert((mid + seg)[0] == ProbeEvent::Connect(k));
                assert((mid + seg)[1] == ProbeEvent::Stop(k));
                assert(disconnect_visits((mid + seg).skip(2), ks.drop_first(), cur));
            } else {
                assert(seg =~= seq![ProbeEvent::Connect(k)]);
                assert(seg.skip(1) =~= Seq::<ProbeEvent>::empty());
                assert((mid + seg).skip(1) =~= Seq::<ProbeEvent>::empty());
                assert((mid + seg)[0] == ProbeEvent::Connect(k));
                assert(disconnect_visits((mid + seg).skip(1), ks.drop_first(), cur));
            }
        } else {
            assert((mid + seg).len() == 0);
            assert(disconnect_visits(mid + seg, ks.drop_first(), cur));
        }
        assert(disconnect_visits(mid + seg, ks, cur));
    } else {
        assert(ks[0] == keys[0]);
        assert(ks.drop_first() =~= keys.drop_first().push(k));
        if keys[0] == cur {
            lemma_disconnect_visits_extend(mid, keys.drop_first(), cur, seg, k);
        } else {
            assert((mid + seg)[0] == mid[0]);
            if mid.len() >= 2 && mid[1] == ProbeEvent::Stop(keys[0]) && disconnect_visits(
                mid.skip(2),
                keys.drop_first(),
                cur,
            ) {
                lemma_disconnect_visits_extend(mid.skip(2), keys.drop_first(), cur, seg, k);
                assert((mid + seg).skip(2) =~= mid.skip(2) + seg);
                assert((mid + seg)[1] == mid[1]);
            } else {
                lemma_disconnect_visits_extend(mid.skip(1), keys.drop_first(), cur, seg, k);
                assert((mid + seg).skip(1) =~= mid.skip(1) + seg);
            }
        }
    }
}

/// The chip-specific debug-sequence strategy: four synchronous hooks the
/// interface core invokes at well-defined points. Chip support packages
/// implement this; the core never does.
///
/// A hook's traffic is summarised in the core's probe trace by a single
/// event (`Setup`, `Connect`, `Start` or `Stop`). `debug_port_start` is
/// handed the whole core and may re-enter DAP operations; the contract
/// below is the discipline such re-entry must keep: it stays on the DP it
/// was started for, keeps every cached DP entry (it may move the select
/// shadow of its own DP through ordinary register accesses), and only
/// appends to the probe trace.
pub trait ArmDebugSequence<P: DapProbe>: Sized + Clone {
    /// Full bring-up of a debug port, including dormant-mode exit and
    /// line reset.
    fn debug_port_setup(&self, probe: &mut P, dp: DpAddress) -> Result<(), ArmError>;

    /// Lighter switch to a debug port (multidrop target-ID write).
    fn debug_port_connect(&self, probe: &mut P, dp: DpAddress) -> Result<(), ArmError>;

    /// Post-selection initialisation; may call back through the core.
    fn debug_port_start(
        &self,
        iface: &mut ArmCommunicationInterface<P, Self>,
        dp: DpAddress,
    ) -> (r: Result<(), ArmError>)
        requires
            old(iface).wf(),
            old(iface).spec_current_dp() == Some(dp),
            old(iface).spec_has_dp(dp),
        ensures
            final(iface).wf(),
            final(iface).spec_current_dp() == Some(dp),
            final(iface).spec_use_overrun_detect() == old(iface).spec_use_overrun_detect(),
            final(iface).spec_dps().map_values(|e: (DpAddress, DpState)| e.0)
                == old(iface).spec_dps().map_values(|e: (DpAddress, DpState)| e.0),
            forall|j: int|
                0 <= j < old(iface).spec_dps().len() && old(iface).spec_dps()[j].0 != dp
                    ==> final(iface).spec_dps()[j] == old(iface).spec_dps()[j],
            final(iface).spec_dp_state(dp).debug_port_version
                == old(iface).spec_dp_state(dp).debug_port_version,
            old(iface).spec_trace().is_prefix_of(final(iface).spec_trace()),
    ;

    /// Graceful teardown of a debug port.
    fn debug_port_stop(&self, probe: &mut P, dp: DpAddress) -> Result<(), ArmError>;
}

/// The stateful driver that multiplexes one owned debug probe across one
/// or more ARM debug ports and their access ports.
///
/// Every register access enters here; the core selects the debug port if
/// it is not current, moves the SELECT shadow if the access needs another
/// bank, and only then issues the raw transaction. The shadow is the last
/// value written to the probe: it never advances without the write that
/// backs it having been issued.
pub struct ArmCommunicationInterface<P: DapProbe, S> {
    probe: P,
    /// The DP the probe is physically addressing, or `None` if never set
    /// or after a full disconnect.
    current_dp: Option<DpAddress>,
    dps: Vec<(DpAddress, DpState)>,
    use_overrun_detect: bool,
    sequence: S,
    trace: Ghost<Seq<ProbeEvent>>,
}

impl<P: DapProbe, S> ArmCommunicationInterface<P, S> {
    /// The cached per-DP entries, in insertion order.
    pub closed spec fn spec_dps(self) -> Seq<(DpAddress, DpState)> {
        self.dps@
    }

    /// The DP the probe is physically addressing.
    pub closed spec fn spec_current_dp(self) -> Option<DpAddress> {
        self.current_dp
    }

    /// Every probe operation this core has issued, in issue order.
    pub closed spec fn spec_trace(self) -> Seq<ProbeEvent> {
        self.trace@
    }

    /// Whether the core reconciles CTRL/STAT towards overrun detection.
    pub closed spec fn spec_use_overrun_detect(self) -> bool {
        self.use_overrun_detect
    }

    /// The owned probe.
    pub closed spec fn spec_probe(self) -> P {
        self.probe
    }

    /// The addresses of the cached DPs, in their stored order.
    pub open spec fn spec_dp_keys(self) -> Seq<DpAddress> {
        self.spec_dps().map_values(|e: (DpAddress, DpState)| e.0)
    }

    /// Whether a per-DP entry is cached for `dp`.
    pub open spec fn spec_has_dp(self, dp: DpAddress) -> bool {
        exists|i: int| 0 <= i < self.spec_dps().len() && self.spec_dps()[i].0 == dp
    }

    /// The position of the entry for `dp`; meaningful under `spec_has_dp`.
    pub open spec fn dp_index(self, dp: DpAddress) -> int {
        choose|i: int| 0 <= i < self.spec_dps().len() && self.spec_dps()[i].0 == dp
    }

    /// The cached state of `dp`; meaningful under `spec_has_dp`.
    pub open spec fn spec_dp_state(self, dp: DpAddress) -> DpState {
        self.spec_dps()[self.dp_index(dp)].1
    }

    /// Each DP has at most one entry, and every entry is well-formed.
    pub open spec fn wf(self) -> bool {
        &&& forall|i: int, j: int|
            0 <= i < j < self.spec_dps().len() ==> self.spec_dps()[i].0 != self.spec_dps()[j].0
        &&& forall|i: int| 0 <= i < self.spec_dps().len() ==> (#[trigger] self.spec_dps()[i].1).wf()
    }

    /// A new interface owning `probe`, not yet connected to any debug
    /// port. No I/O is performed.
    pub fn create(probe: P, sequence: S, use_overrun_detect: bool) -> (r: Self)
        ensures
            r.wf(),
            r.spec_current_dp() is None,
            r.spec_dps() == Seq::<(DpAddress, DpState)>::empty(),
            r.spec_trace() == Seq::<ProbeEvent>::empty(),
            r.spec_use_overrun_detect() == use_overrun_detect,
    {
        ArmCommunicationInterface {
            probe,
            current_dp: None,
            dps: Vec::new(),
            use_overrun_detect,
            sequence,
            trace: Ghost(Seq::empty()),
        }
    }

    /// The currently connected debug port, or `None` if the interface has
    /// not connected to one.
    pub fn current_debug_port(&self) -> (r: Option<DpAddress>)
        ensures
            r == self.spec_current_dp(),
    {
        self.current_dp
    }

    /// Whether `dp` is the currently connected debug port.
    fn is_current(&self, dp: DpAddress) -> (r: bool)
        ensures
            r == (self.spec_current_dp() == Some(dp)),
    {
        match self.current_dp {
            Some(c) => c == dp,
            None => false,
        }
    }

    /// The cached per-DP state of `dp`, if that DP has been touched:
    /// the observed version and the SELECT shadow as last written.
    pub fn debug_port_state(&self, dp: DpAddress) -> (r: Option<DpState>)
        requires
            self.wf(),
        ensures
            r matches Some(st) ==> self.spec_has_dp(dp) && st == self.spec_dp_state(dp),
            r is None ==> !self.spec_has_dp(dp),
    {
        match self.find_dp(dp) {
            Some(i) => Some(self.dps[i].1),
            None => None,
        }
    }

    /// The position of the cached entry for `dp`, if one exists.
    fn find_dp(&self, dp: DpAddress) -> (r: Option<usize>)
        requires
            self.wf(),
        ensures
            match r {
                Some(i) => self.spec_has_dp(dp) && i == self.dp_index(dp)
                    && i < self.spec_dps().len() && self.spec_dps()[i as int].0 == dp,
                None => !self.spec_has_dp(dp),
            },
    {
        let mut i: usize = 0;
        while i < self.dps.len()
            invariant
                self.wf(),
                i <= self.dps.len(),
                forall|j: int| 0 <= j < i ==> self.spec_dps()[j].0 != dp,
            decreases self.dps.len() - i,
        {
            if self.dps[i].0 == dp {
                proof {
                    assert(self.spec_has_dp(dp));
                    let k = self.dp_index(dp);
                    if k != i {
                        assert(self.spec_dps()[k].0 != self.spec_dps()[i as int].0);
                    }
                }
                return Some(i);
            }
            i += 1;
        }
        None
    }

    /// Informs the probe of the state of the attached core; errors from
    /// the probe are discarded, as this is purely informational.
    pub fn core_status_notification(&mut self, state: CoreStatus)
        ensures
            final(self).spec_trace() == old(self).spec_trace().push(
                ProbeEvent::StatusNotify(state),
            ),
            final(self).spec_current_dp() == old(self).spec_current_dp(),
            final(self).spec_dps() == old(self).spec_dps(),
            final(self).spec_use_overrun_detect() == old(self).spec_use_overrun_detect(),
    {
        let _ = self.probe.core_status_notification(state);
        self.trace = Ghost(self.trace@.push(ProbeEvent::StatusNotify(state)));
    }

    /// Issues one raw register read, recording it and the probe's reply
    /// in the trace.
    fn probe_read(&mut self, addr: RegisterAddress) -> (r: Result<u32, ArmError>)
        ensures
            r matches Ok(v) ==> final(self).spec_trace() == old(self).spec_trace().push(
                ProbeEvent::Read(addr, Some(v)),
            ),
            r is Err ==> final(self).spec_trace() == old(self).spec_trace().push(
                ProbeEvent::Read(addr, None),
            ),
            final(self).spec_current_dp() == old(self).spec_current_dp(),
            final(self).spec_dps() == old(self).spec_dps(),
            final(self).spec_use_overrun_detect() == old(self).spec_use_overrun_detect(),
            r matches Err(e) ==> e is Probe,
    {
        let res = self.probe.raw_read_register(addr);
        match res {
            Ok(v) => {
                self.trace = Ghost(self.trace@.push(ProbeEvent::Read(addr, Some(v))));
                Ok(v)
            }
            Err(e) => {
                self.trace = Ghost(self.trace@.push(ProbeEvent::Read(addr, None)));
                Err(ArmError::Probe(e))
            }
        }
    }

    /// Issues one raw register write, recording it in the trace.
    fn probe_write(&mut self, addr: RegisterAddress, value: u32) -> (r: Result<(), ArmError>)
        ensures
            final(self).spec_trace() == old(self).spec_trace().push(
                ProbeEvent::Write(addr, value),
            ),
            final(self).spec_current_dp() == old(self).spec_current_dp(),
            final(self).spec_dps() == old(self).spec_dps(),
            final(self).spec_use_overrun_detect() == old(self).spec_use_overrun_detect(),
            r matches Err(e) ==> e is Probe,
    {
        let res = self.probe.raw_write_register(addr, value);
        self.trace = Ghost(self.trace@.push(ProbeEvent::Write(addr, value)));
        match res {
            Ok(()) => Ok(()),
            Err(e) => Err(ArmError::Probe(e)),
        }
    }

    /// Drains the probe's write buffer, recording the attempt.
    fn probe_flush(&mut self) -> (r: Result<(), ArmError>)
        ensures
            final(self).spec_trace() == old(self).spec_trace().push(ProbeEvent::Flush),
            final(self).spec_current_dp() == old(self).spec_current_dp(),
            final(self).spec_dps() == old(self).spec_dps(),
            final(self).spec_use_overrun_detect() == old(self).spec_use_overrun_detect(),
            r matches Err(e) ==> e is Probe,
    {
        let res = self.probe.raw_flush();
        self.trace = Ghost(self.trace@.push(ProbeEvent::Flush));
        match res {
            Ok(()) => Ok(()),
            Err(e) => Err(ArmError::Probe(e)),
        }
    }

    /// The entry at a position with the right key is the entry of that DP.
    proof fn lemma_index_unique(self, dp: DpAddress, i: int)
        requires
            self.wf(),
            0 <= i < self.spec_dps().len(),
            self.spec_dps()[i].0 == dp,
        ensures
            self.spec_has_dp(dp),
            self.dp_index(dp) == i,
            self.spec_dp_state(dp) == self.spec_dps()[i].1,
    {
        assert(self.spec_has_dp(dp));
        let k = self.dp_index(dp);
        if k != i {
            if k < i {
                assert(self.spec_dps()[k].0 != self.spec_dps()[i].0);
            } else {
                assert(self.spec_dps()[i].0 != self.spec_dps()[k].0);
            }
        }
    }

    /// Moves the SELECT shadow of the current DP to the bank one DP
    /// register access needs, writing SELECT if and only if the shadow
    /// has to move; the shadow is committed only once the write went out.
    fn dp_bank_select_current(
        &mut self,
        dp: DpAddress,
        reg: DpRegisterAddress,
    ) -> (r: Result<(), ArmError>)
        requires
            old(self).wf(),
            old(self).spec_current_dp() == Some(dp),
            old(self).spec_has_dp(dp),
            reg.wf(),
        ensures
            final(self).wf(),
            final(self).spec_current_dp() == Some(dp),
            final(self).spec_use_overrun_detect() == old(self).spec_use_overrun_detect(),
            final(self).spec_dps().len() == old(self).spec_dps().len(),
            forall|j: int|
                0 <= j < old(self).spec_dps().len()
                    ==> final(self).spec_dps()[j].0 == old(self).spec_dps()[j].0,
            forall|j: int|
                0 <= j < old(self).spec_dps().len() && old(self).spec_dps()[j].0 != dp
                    ==> final(self).spec_dps()[j] == old(self).spec_dps()[j],
            final(self).spec_has_dp(dp),
            final(self).spec_dp_state(dp).debug_port_version
                == old(self).spec_dp_state(dp).debug_port_version,
            final(self).spec_trace() == old(self).spec_trace()
                + crate::select::dp_bank_writes(old(self).spec_dp_state(dp).current_select, reg),
            r is Ok ==> final(self).spec_dp_state(dp).current_select
                == crate::select::dp_bank_target(old(self).spec_dp_state(dp).current_select, reg),
            r is Err ==> final(self).spec_dp_state(dp).current_select
                == old(self).spec_dp_state(dp).current_select,
            crate::select::dp_bank_writes(old(self).spec_dp_state(dp).current_select, reg).len()
                == 0 ==> r is Ok && final(self).spec_dps() == old(self).spec_dps()
                && final(self).spec_trace() == old(self).spec_trace(),
            r matches Err(e) ==> e is Probe,
    {
        let i: usize = match self.find_dp(dp) {
            Some(i) => i,
            None => vstd::pervasive::unreached(),
        };
        let st: DpState = self.dps[i].1;
        proof {
            self.lemma_index_unique(dp, i as int);
        }
        if reg.address != 0 && reg.address != 4 {
            proof {
                assert(self.spec_trace() =~= old(self).spec_trace()
                    + crate::select::dp_bank_writes(st.current_select, reg));
            }
            return Ok(());
        }
        let bank = reg.bank_or_zero();
        if bank == st.current_select.dp_bank_sel() {
            proof {
                assert(self.spec_trace() =~= old(self).spec_trace()
                    + crate::select::dp_bank_writes(st.current_select, reg));
            }
            return Ok(());
        }
        let mut ns = st.current_select;
        ns.set_dp_bank_sel(bank);
        proof {
            crate::select::lemma_cache_dp_bank_update(st.current_select, bank);
        }
        let word: u32 = match ns {
            SelectCache::DPv1(s) => s.0,
            SelectCache::DPv3(s, _) => s.word(),
        };
        let w = self.probe_write(
            RegisterAddress::DpRegister(crate::registers::select_address()),
            word,
        );
        proof {
            assert(self.spec_trace() =~= old(self).spec_trace()
                + crate::select::dp_bank_writes(st.current_select, reg));
        }
        match w {
            Ok(()) => {
                let mut st2 = st;
                st2.current_select = ns;
                self.dps.set(i, (dp, st2));
                proof {
                    self.lemma_index_unique(dp, i as int);
                }
                Ok(())
            }
            Err(e) => {
                proof {
                    self.lemma_index_unique(dp, i as int);
                }
                Err(e)
            }
        }
    }

    /// Moves the SELECT shadow of the current DP to what one AP register
    /// access needs. Nothing is written when the shadow already agrees;
    /// otherwise SELECT is written (and, on ADIv6, SELECT1 when its half
    /// moved), each half of the shadow committed with its own write. An
    /// AP address variant that does not fit the observed DP version is
    /// rejected without traffic.
    fn ap_select_current(
        &mut self,
        ap: &crate::types::FullyQualifiedApAddress,
        address: u64,
    ) -> (r: Result<(), ArmError>)
        requires
            old(self).wf(),
            old(self).spec_current_dp() == Some(ap.dp),
            old(self).spec_has_dp(ap.dp),
            ap.ap matches crate::types::ApAddress::V2(_) ==> ap.ap.v2_base() + address
                <= u64::MAX,
        ensures
            final(self).wf(),
            final(self).spec_current_dp() == Some(ap.dp),
            final(self).spec_use_overrun_detect() == old(self).spec_use_overrun_detect(),
            final(self).spec_dps().len() == old(self).spec_dps().len(),
            forall|j: int|
                0 <= j < old(self).spec_dps().len()
                    ==> final(self).spec_dps()[j].0 == old(self).spec_dps()[j].0,
            forall|j: int|
                0 <= j < old(self).spec_dps().len() && old(self).spec_dps()[j].0 != ap.dp
                    ==> final(self).spec_dps()[j] == old(self).spec_dps()[j],
            final(self).spec_has_dp(ap.dp),
            final(self).spec_dp_state(ap.dp).debug_port_version
                == old(self).spec_dp_state(ap.dp).debug_port_version,
            r == Err::<(), ArmError>(ArmError::WrongApVersion) <==> !crate::select::variant_matches(
                old(self).spec_dp_state(ap.dp).current_select,
                ap.ap,
            ),
            !crate::select::variant_matches(old(self).spec_dp_state(ap.dp).current_select, ap.ap)
                ==> *final(self) == *old(self),
            r is Ok ==> final(self).spec_trace() == old(self).spec_trace()
                + crate::select::ap_select_writes(
                    old(self).spec_dp_state(ap.dp).current_select,
                    crate::select::ap_target(
                        old(self).spec_dp_state(ap.dp).current_select,
                        ap.ap,
                        address,
                    ),
                ),
            r is Ok ==> final(self).spec_dp_state(ap.dp).current_select
                == crate::select::ap_target(
                    old(self).spec_dp_state(ap.dp).current_select,
                    ap.ap,
                    address,
                ),
            crate::select::variant_matches(old(self).spec_dp_state(ap.dp).current_select, ap.ap)
                && crate::select::ap_select_writes(
                    old(self).spec_dp_state(ap.dp).current_select,
                    crate::select::ap_target(
                        old(self).spec_dp_state(ap.dp).current_select,
                        ap.ap,
                        address,
                    ),
                ).len() == 0 ==> r is Ok && final(self).spec_dps() == old(self).spec_dps()
                    && final(self).spec_trace() == old(self).spec_trace(),
            old(self).spec_trace().is_prefix_of(final(self).spec_trace()),
            r matches Err(e) ==> e is Probe || e is WrongApVersion,
    {
        let dp = ap.dp();
        let i: usize = match self.find_dp(dp) {
            Some(i) => i,
            None => vstd::pervasive::unreached(),
        };
        let st: DpState = self.dps[i].1;
        proof {
            self.lemma_index_unique(dp, i as int);
        }
        let ghost target = crate::select::ap_target(st.current_select, ap.ap, address);
        match (ap.ap(), st.current_select) {
            (crate::types::ApAddress::V1(port), SelectCache::DPv1(s)) => {
                let wire: u8 = (address & 0xFF) as u8;
                let bank: u8 = wire >> 4;
                proof {
                    assert(bank < 16) by (bit_vector)
                        requires bank == ((address & 0xFF) as u8) >> 4,
                    ;
                }
                let mut ns = s;
                ns.set_ap_sel(port);
                ns.set_ap_bank_sel(bank);
                if ns == s {
                    proof {
                        assert(self.spec_trace() =~= old(self).spec_trace()
                            + crate::select::ap_select_writes(st.current_select, target));
                    }
                    return Ok(());
                }
                let w = self.probe_write(
                    RegisterAddress::DpRegister(crate::registers::select_address()),
                    ns.0,
                );
                proof {
                    assert(self.spec_trace() =~= old(self).spec_trace()
                        + crate::select::ap_select_writes(st.current_select, target));
                }
                match w {
                    Ok(()) => {
                        let mut st2 = st;
                        st2.current_select = SelectCache::DPv1(ns);
                        self.dps.set(i, (dp, st2));
                        proof {
                            self.lemma_index_unique(dp, i as int);
                        }
                        Ok(())
                    }
                    Err(e) => {
                        proof {
                            self.lemma_index_unique(dp, i as int);
                        }
                        Err(e)
                    }
                }
            }
            (crate::types::ApAddress::V2(base_opt), SelectCache::DPv3(s, s1)) => {
                let base: u64 = match base_opt {
                    Some(b) => b,
                    None => 0u64,
                };
                let combined: u64 = base + address;
                let lo: u32 = ((combined >> 4) & 0xFFFF_FFFF) as u32;
                let hi: u32 = (combined >> 36) as u32;
                let t = crate::registers::SelectV3 { addr: lo, dp_bank_sel: s.dp_bank_sel };
                let t1 = crate::registers::Select1 { addr: hi };
                if t == s && t1 == s1 {
                    proof {
                        assert(self.spec_trace() =~= old(self).spec_trace()
                            + crate::select::ap_select_writes(st.current_select, target));
                    }
                    return Ok(());
                }
                let w = self.probe_write(
                    RegisterAddress::DpRegister(crate::registers::select_address()),
                    t.word(),
                );
                match w {
                    Ok(()) => {
                        let mut st2 = st;
                        st2.current_select = SelectCache::DPv3(t, s1);
                        self.dps.set(i, (dp, st2));
                        proof {
                            self.lemma_index_unique(dp, i as int);
                        }
                        if t1 == s1 {
                            proof {
                                assert(self.spec_trace() =~= old(self).spec_trace()
                                    + crate::select::ap_select_writes(st.current_select, target));
                            }
                            return Ok(());
                        }
                        let w1 = self.probe_write(
                            RegisterAddress::DpRegister(crate::registers::select1_address()),
                            t1.word(),
                        );
                        proof {
                            assert(self.spec_trace() =~= old(self).spec_trace()
                                + crate::select::ap_select_writes(st.current_select, target));
                        }
                        match w1 {
                            Ok(()) => {
                                let st3 = DpState {
                                    debug_port_version: st.debug_port_version,
                                    current_select: SelectCache::DPv3(t, t1),
                                };
                                self.dps.set(i, (dp, st3));
                                proof {
                                    self.lemma_index_unique(dp, i as int);
                                }
                                Ok(())
                            }
                            Err(e) => {
                                proof {
                                    self.lemma_index_unique(dp, i as int);
                                }
                                Err(e)
                            }
                        }
                    }
                    Err(e) => {
                        proof {
                            self.lemma_index_unique(dp, i as int);
                        }
                        Err(e)
                    }
                }
            }
            _ => Err(ArmError::WrongApVersion),
        }
    }
}

impl<P: DapProbe, S: ArmDebugSequence<P>> ArmCommunicationInterface<P, S> {
    /// Connects to `dp` if it is not the current debug port, and runs its
    /// lazy initialisation if it has never been touched.
    ///
    /// A switch flushes the probe, then runs `debug_port_setup` (first
    /// connection ever) or `debug_port_connect`, falling back to the
    /// heavier `debug_port_setup` if the lighter switch fails. A first
    /// touch inserts a fresh entry, runs `debug_port_start`, reconciles
    /// the overrun-detect bit of CTRL/STAT (one write, only on mismatch),
    /// reads DPIDR, and records the version, retagging the select shadow
    /// to its ADIv6 shape precisely when the version is DPv3.
    ///
    /// When `dp` is already current and initialised, this does nothing at
    /// all — no probe traffic, no state movement — and cannot fail.
    #[verifier::rlimit(60)]
    pub fn select_dp(&mut self, dp: DpAddress) -> (r: Result<(), ArmError>)
        requires
            old(self).wf(),
        ensures
            final(self).wf(),
            final(self).spec_use_overrun_detect() == old(self).spec_use_overrun_detect(),
            old(self).spec_trace().is_prefix_of(final(self).spec_trace()),
            r is Ok ==> final(self).spec_current_dp() == Some(dp) && final(self).spec_has_dp(dp),
            old(self).spec_current_dp() == Some(dp) && old(self).spec_has_dp(dp) ==> r is Ok
                && *final(self) == *old(self),
            forall|j: int|
                0 <= j < old(self).spec_dps().len()
                    ==> j < final(self).spec_dps().len() && final(self).spec_dps()[j].0
                    == old(self).spec_dps()[j].0,
            forall|j: int|
                0 <= j < old(self).spec_dps().len() && old(self).spec_dps()[j].0 != dp
                    ==> final(self).spec_dps()[j] == old(self).spec_dps()[j],
            final(self).spec_dps().len() == old(self).spec_dps().len()
                || final(self).spec_dps().len() == old(self).spec_dps().len() + 1,
            final(self).spec_dps().len() == old(self).spec_dps().len() + 1
                ==> !old(self).spec_has_dp(dp) && final(self).spec_dps().last().0 == dp,
            r is Ok && !old(self).spec_has_dp(dp)
                ==> final(self).spec_dp_state(dp).debug_port_version
                    == DebugPortVersion::DPv3 ==> final(self).spec_dp_state(dp).current_select
                    == DpState::spec_initial_select(DebugPortVersion::DPv3),
            // Failure leaves either everything as it was (the switch did
            // not go through) or the interface on `dp` with its entry in
            // place: the hardware is on the new DP, the error propagates,
            // and no state is erased retroactively.
            r is Err ==> (final(self).spec_current_dp() == old(self).spec_current_dp()
                && final(self).spec_dps() == old(self).spec_dps())
                || (final(self).spec_current_dp() == Some(dp)
                    && final(self).spec_has_dp(dp)),
            // A switch flushes pending writes first, then runs the setup
            // hook on a first connection and the lighter connect hook when
            // another DP was current (setup follows only as a fallback).
            r is Ok && old(self).spec_current_dp() is None ==> (old(self).spec_trace() + seq![
                ProbeEvent::Flush,
                ProbeEvent::Setup(dp),
            ]).is_prefix_of(final(self).spec_trace()),
            r is Ok && old(self).spec_current_dp() is Some && old(self).spec_current_dp()
                != Some(dp) ==> (old(self).spec_trace() + seq![
                ProbeEvent::Flush,
                ProbeEvent::Connect(dp),
            ]).is_prefix_of(final(self).spec_trace()),
            // A first touch ends its lazy initialisation with the CTRL
            // read, the reconciliation write exactly when the overrun bit
            // read back disagrees with the configuration, and the DPIDR
            // read whose version nibble is what gets recorded.
            r is Ok && !old(self).spec_has_dp(dp) ==> exists|h: Seq<ProbeEvent>, c: u32, idr: u32|
                {
                    &&& final(self).spec_trace() == old(self).spec_trace() + h + seq![
                        ProbeEvent::Read(
                            RegisterAddress::DpRegister(crate::registers::spec_ctrl_address()),
                            Some(c),
                        ),
                    ] + crate::select::ctrl_reconcile_writes(
                        c,
                        old(self).spec_use_overrun_detect(),
                    ) + seq![
                        ProbeEvent::Read(
                            RegisterAddress::DpRegister(crate::registers::spec_dpidr_address()),
                            Some(idr),
                        ),
                    ]
                    &&& final(self).spec_dp_state(dp).debug_port_version
                        == DebugPortVersion::spec_from_nibble(
                        crate::registers::spec_dpidr_version_nibble(idr),
                    )
                },
    {
        broadcast use lemma_trace_prefix_push, lemma_trace_prefix_concat,
            lemma_trace_prefix_trans;

        let was_current = self.is_current(dp);
        if !was_current {
            match self.probe_flush() {
                Ok(()) => {}
                Err(e) => {
                    return Err(e);
                }
            }
            let sequence = self.sequence.clone();
            let none_before = match self.current_dp {
                Some(_) => false,
                None => true,
            };
            if none_before {
                self.trace = Ghost(self.trace@.push(ProbeEvent::Setup(dp)));
                proof {
                    assert(self.spec_trace() =~= old(self).spec_trace() + seq![
                        ProbeEvent::Flush,
                        ProbeEvent::Setup(dp),
                    ]);
                }
                match sequence.debug_port_setup(&mut self.probe, dp) {
                    Ok(()) => {}
                    Err(e) => {
                        return Err(e);
                    }
                }
            } else {
                self.trace = Ghost(self.trace@.push(ProbeEvent::Connect(dp)));
                proof {
                    assert(self.spec_trace() =~= old(self).spec_trace() + seq![
                        ProbeEvent::Flush,
                        ProbeEvent::Connect(dp),
                    ]);
                }
                match sequence.debug_port_connect(&mut self.probe, dp) {
                    Ok(()) => {}
                    Err(_) => {
                        self.trace = Ghost(self.trace@.push(ProbeEvent::Setup(dp)));
                        match sequence.debug_port_setup(&mut self.probe, dp) {
                            Ok(()) => {}
                            Err(e) => {
                                return Err(e);
                            }
                        }
                    }
                }
            }
            self.current_dp = Some(dp);
        }
        match self.find_dp(dp) {
            None => {
                let ghost pre_push = *self;
                self.dps.push((dp, DpState::new()));
                proof {
                    assert forall|i: int, j: int|
                        0 <= i < j < self.spec_dps().len() implies self.spec_dps()[i].0
                        != self.spec_dps()[j].0 by {
                        if j == self.spec_dps().len() - 1 {
                            assert(!(0 <= i < pre_push.spec_dps().len()
                                && pre_push.spec_dps()[i].0 == dp));
                        } else {
                            assert(pre_push.spec_dps()[i].0 != pre_push.spec_dps()[j].0);
                        }
                    }
                    assert forall|i: int|
                        0 <= i < self.spec_dps().len() implies (
                        #[trigger] self.spec_dps()[i].1).wf() by {
                        if i < self.spec_dps().len() - 1 {
                            assert(pre_push.spec_dps()[i].1.wf());
                        }
                    }
                    self.lemma_index_unique(dp, self.spec_dps().len() - 1);
                }
                let sequence = self.sequence.clone();
                self.trace = Ghost(self.trace@.push(ProbeEvent::Start(dp)));
                let ghost pre_hook = *self;
                proof {
                    self.lemma_index_unique(dp, self.spec_dps().len() - 1);
                }
                match sequence.debug_port_start(self, dp) {
                    Ok(()) => {}
                    Err(e) => {
                        proof {
                            self.derive_keys_pointwise(pre_hook);
                        }
                        return Err(e);
                    }
                }
                proof {
                    self.derive_keys_pointwise(pre_hook);
                }
                let creg = crate::registers::ctrl_address();
                match self.dp_bank_select_current(dp, creg) {
                    Ok(()) => {}
                    Err(e) => {
                        return Err(e);
                    }
                }
                let ghost t_h = self.spec_trace();
                let ctrl_raw = match self.probe_read(RegisterAddress::DpRegister(creg)) {
                    Ok(v) => v,
                    Err(e) => {
                        return Err(e);
                    }
                };
                let mut ctrl = crate::registers::Ctrl(ctrl_raw);
                if ctrl.orun_detect() != self.use_overrun_detect {
                    let want = self.use_overrun_detect;
                    ctrl.set_orun_detect(want);
                    match self.probe_write(RegisterAddress::DpRegister(creg), ctrl.0) {
                        Ok(()) => {}
                        Err(e) => {
                            return Err(e);
                        }
                    }
                }
                let dreg = crate::registers::dpidr_address();
                let idr = match self.probe_read(RegisterAddress::DpRegister(dreg)) {
                    Ok(v) => v,
                    Err(e) => {
                        return Err(e);
                    }
                };
                let version = DebugPortVersion::from_nibble(
                    crate::registers::dpidr_version_nibble(idr),
                );
                let i2: usize = match self.find_dp(dp) {
                    Some(i) => i,
                    None => vstd::pervasive::unreached(),
                };
                let stc: DpState = self.dps[i2].1;
                proof {
                    self.lemma_index_unique(dp, i2 as int);
                }
                let newsel = if version == DebugPortVersion::DPv3 {
                    SelectCache::DPv3(
                        crate::registers::SelectV3 { addr: 0, dp_bank_sel: 0 },
                        crate::registers::Select1 { addr: 0 },
                    )
                } else {
                    stc.current_select
                };
                let st2 = DpState { debug_port_version: version, current_select: newsel };
                self.dps.set(i2, (dp, st2));
                proof {
                    self.lemma_index_unique(dp, i2 as int);
                    let base = old(self).spec_trace();
                    let h = t_h.subrange(base.len() as int, t_h.len() as int);
                    assert(base.is_prefix_of(t_h));
                    assert(t_h =~= base + h);
                    assert(self.spec_trace() =~= base + h + seq![
                        ProbeEvent::Read(
                            RegisterAddress::DpRegister(crate::registers::spec_ctrl_address()),
                            Some(ctrl_raw),
                        ),
                    ] + crate::select::ctrl_reconcile_writes(
                        ctrl_raw,
                        old(self).spec_use_overrun_detect(),
                    ) + seq![
                        ProbeEvent::Read(
                            RegisterAddress::DpRegister(crate::registers::spec_dpidr_address()),
                            Some(idr),
                        ),
                    ]);
                }
                Ok(())
            }
            Some(idx) => {
                if !was_current {
                    let sequence = self.sequence.clone();
                    self.trace = Ghost(self.trace@.push(ProbeEvent::Start(dp)));
                    proof {
                        self.lemma_index_unique(dp, idx as int);
                    }
                    let ghost pre_hook = *self;
                    match sequence.debug_port_start(self, dp) {
                        Ok(()) => {}
                        Err(e) => {
                            proof {
                                self.derive_keys_pointwise(pre_hook);
                            }
                            return Err(e);
                        }
                    }
                    proof {
                        self.derive_keys_pointwise(pre_hook);
                    }
                }
                Ok(())
            }
        }
    }
}

impl<P: DapProbe, S: ArmDebugSequence<P>> ArmCommunicationInterface<P, S> {
    /// Selects `dp` and then the DP register bank that `address` needs.
    ///
    /// Once `dp` is current and initialised, the bank selection is exact:
    /// it issues precisely the SELECT traffic `dp_bank_writes` names —
    /// nothing for an address outside the banked pair, nothing when the
    /// bank is already selected, one SELECT write otherwise — and when
    /// nothing is needed it cannot fail and changes nothing at all.
    pub fn select_dp_and_dp_bank(
        &mut self,
        dp: DpAddress,
        dp_register_address: &DpRegisterAddress,
    ) -> (r: Result<(), ArmError>)
        requires
            old(self).wf(),
            dp_register_address.wf(),
        ensures
            final(self).wf(),
            final(self).spec_use_overrun_detect() == old(self).spec_use_overrun_detect(),
            old(self).spec_trace().is_prefix_of(final(self).spec_trace()),
            r is Ok ==> final(self).spec_current_dp() == Some(dp) && final(self).spec_has_dp(dp),
            old(self).spec_current_dp() == Some(dp) && old(self).spec_has_dp(dp) ==> {
                &&& final(self).spec_trace() == old(self).spec_trace()
                    + crate::select::dp_bank_writes(
                        old(self).spec_dp_state(dp).current_select,
                        *dp_register_address,
                    )
                &&& (r is Ok ==> final(self).spec_dp_state(dp).current_select
                    == crate::select::dp_bank_target(
                        old(self).spec_dp_state(dp).current_select,
                        *dp_register_address,
                    ))
                // The shadow advances only with a committed write: a
                // failed SELECT write leaves it exactly where it was.
                &&& (r is Err ==> final(self).spec_dp_state(dp).current_select
                    == old(self).spec_dp_state(dp).current_select)
                &&& final(self).spec_dp_state(dp).debug_port_version
                    == old(self).spec_dp_state(dp).debug_port_version
                &&& (crate::select::dp_bank_writes(
                    old(self).spec_dp_state(dp).current_select,
                    *dp_register_address,
                ).len() == 0 ==> r is Ok && final(self).spec_dps() == old(self).spec_dps()
                    && final(self).spec_trace() == old(self).spec_trace()
                    && final(self).spec_current_dp() == old(self).spec_current_dp())
            },
    {
        broadcast use lemma_trace_prefix_push, lemma_trace_prefix_concat,
            lemma_trace_prefix_trans;

        match self.select_dp(dp) {
            Ok(()) => {}
            Err(e) => {
                return Err(e);
            }
        }
        let r = self.dp_bank_select_current(dp, *dp_register_address);
        proof {
            if old(self).spec_current_dp() == Some(dp) && old(self).spec_has_dp(dp)
                && crate::select::dp_bank_writes(
                old(self).spec_dp_state(dp).current_select,
                *dp_register_address,
            ).len() == 0 {
                assert(old(self).spec_trace() + crate::select::dp_bank_writes(
                    old(self).spec_dp_state(dp).current_select,
                    *dp_register_address,
                ) =~= old(self).spec_trace());
            }
        }
        r
    }

    /// Reads one DP register: bank selection as needed, then the raw
    /// read, whose wire address carries the register's own bits alone.
    pub fn read_raw_dp_register(
        &mut self,
        dp: DpAddress,
        address: DpRegisterAddress,
    ) -> (r: Result<u32, ArmError>)
        requires
            old(self).wf(),
            address.wf(),
        ensures
            final(self).wf(),
            final(self).spec_use_overrun_detect() == old(self).spec_use_overrun_detect(),
            old(self).spec_trace().is_prefix_of(final(self).spec_trace()),
            r is Ok ==> final(self).spec_current_dp() == Some(dp) && final(self).spec_has_dp(dp),
            old(self).spec_current_dp() == Some(dp) && old(self).spec_has_dp(dp) && r is Ok ==> {
                &&& final(self).spec_trace() == old(self).spec_trace()
                    + crate::select::dp_bank_writes(
                        old(self).spec_dp_state(dp).current_select,
                        address,
                    ) + seq![ProbeEvent::Read(RegisterAddress::DpRegister(address), Some(r->Ok_0))]
                &&& final(self).spec_dp_state(dp).current_select
                    == crate::select::dp_bank_target(
                        old(self).spec_dp_state(dp).current_select,
                        address,
                    )
                &&& final(self).spec_dp_state(dp).debug_port_version
                    == old(self).spec_dp_state(dp).debug_port_version
            },
    {
        broadcast use lemma_trace_prefix_push, lemma_trace_prefix_concat,
            lemma_trace_prefix_trans;

        match self.select_dp_and_dp_bank(dp, &address) {
            Ok(()) => {}
            Err(e) => {
                return Err(e);
            }
        }
        let ghost mid = *self;
        let v = match self.probe_read(RegisterAddress::DpRegister(address)) {
            Ok(v) => v,
            Err(e) => {
                return Err(e);
            }
        };
        proof {
            assert(self.spec_trace() =~= mid.spec_trace() + seq![
                ProbeEvent::Read(RegisterAddress::DpRegister(address), Some(v)),
            ]);
        }
        Ok(v)
    }

    /// Writes one DP register: bank selection as needed, then the raw
    /// write.
    pub fn write_raw_dp_register(
        &mut self,
        dp: DpAddress,
        address: DpRegisterAddress,
        value: u32,
    ) -> (r: Result<(), ArmError>)
        requires
            old(self).wf(),
            address.wf(),
        ensures
            final(self).wf(),
            final(self).spec_use_overrun_detect() == old(self).spec_use_overrun_detect(),
            old(self).spec_trace().is_prefix_of(final(self).spec_trace()),
            r is Ok ==> final(self).spec_current_dp() == Some(dp) && final(self).spec_has_dp(dp),
            old(self).spec_current_dp() == Some(dp) && old(self).spec_has_dp(dp) && r is Ok ==> {
                &&& final(self).spec_trace() == old(self).spec_trace()
                    + crate::select::dp_bank_writes(
                        old(self).spec_dp_state(dp).current_select,
                        address,
                    ) + seq![ProbeEvent::Write(RegisterAddress::DpRegister(address), value)]
                &&& final(self).spec_dp_state(dp).current_select
                    == crate::select::dp_bank_target(
                        old(self).spec_dp_state(dp).current_select,
                        address,
                    )
                &&& final(self).spec_dp_state(dp).debug_port_version
                    == old(self).spec_dp_state(dp).debug_port_version
            },
    {
        broadcast use lemma_trace_prefix_push, lemma_trace_prefix_concat,
            lemma_trace_prefix_trans;

        match self.select_dp_and_dp_bank(dp, &address) {
            Ok(()) => {}
            Err(e) => {
                return Err(e);
            }
        }
        let ghost mid = *self;
        match self.probe_write(RegisterAddress::DpRegister(address), value) {
            Ok(()) => {}
            Err(e) => {
                return Err(e);
            }
        }
        proof {
            assert(self.spec_trace() =~= mid.spec_trace() + seq![
                ProbeEvent::Write(RegisterAddress::DpRegister(address), value),
            ]);
        }
        Ok(())
    }

    /// Selects the DP an AP lives on, then the AP and AP register bank
    /// that one access at `ap_register_address` needs.
    ///
    /// Once the DP is current and initialised, the SELECT traffic is
    /// exact (`ap_select_writes`): nothing when the shadow already holds
    /// the needed selection, and the access cannot fail in that case.
    pub fn select_ap_and_ap_bank(
        &mut self,
        ap: &crate::types::FullyQualifiedApAddress,
        ap_register_address: u64,
    ) -> (r: Result<(), ArmError>)
        requires
            old(self).wf(),
            ap.ap matches crate::types::ApAddress::V2(_) ==> ap.ap.v2_base()
                + ap_register_address <= u64::MAX,
        ensures
            final(self).wf(),
            final(self).spec_use_overrun_detect() == old(self).spec_use_overrun_detect(),
            old(self).spec_trace().is_prefix_of(final(self).spec_trace()),
            r is Ok ==> final(self).spec_current_dp() == Some(ap.dp) && final(self).spec_has_dp(
                ap.dp,
            ),
            old(self).spec_current_dp() == Some(ap.dp) && old(self).spec_has_dp(ap.dp) ==> {
                &&& final(self).spec_current_dp() == Some(ap.dp)
                &&& final(self).spec_has_dp(ap.dp)
                &&& (r is Ok ==> {
                    &&& final(self).spec_trace() == old(self).spec_trace()
                        + crate::select::ap_select_writes(
                            old(self).spec_dp_state(ap.dp).current_select,
                            crate::select::ap_target(
                                old(self).spec_dp_state(ap.dp).current_select,
                                ap.ap,
                                ap_register_address,
                            ),
                        )
                    &&& final(self).spec_dp_state(ap.dp).current_select
                        == crate::select::ap_target(
                            old(self).spec_dp_state(ap.dp).current_select,
                            ap.ap,
                            ap_register_address,
                        )
                })
                &&& final(self).spec_dp_state(ap.dp).debug_port_version
                    == old(self).spec_dp_state(ap.dp).debug_port_version
                &&& (r == Err::<(), ArmError>(ArmError::WrongApVersion)
                    <==> !crate::select::variant_matches(
                    old(self).spec_dp_state(ap.dp).current_select,
                    ap.ap,
                ))
                &&& (crate::select::variant_matches(
                    old(self).spec_dp_state(ap.dp).current_select,
                    ap.ap,
                ) && crate::select::ap_select_writes(
                    old(self).spec_dp_state(ap.dp).current_select,
                    crate::select::ap_target(
                        old(self).spec_dp_state(ap.dp).current_select,
                        ap.ap,
                        ap_register_address,
                    ),
                ).len() == 0 ==> r is Ok && final(self).spec_dps() == old(self).spec_dps()
                    && final(self).spec_trace() == old(self).spec_trace()
                    && final(self).spec_current_dp() == old(self).spec_current_dp())
            },
    {
        broadcast use lemma_trace_prefix_push, lemma_trace_prefix_concat,
            lemma_trace_prefix_trans;

        let dp = ap.dp();
        match self.select_dp(dp) {
            Ok(()) => {}
            Err(e) => {
                return Err(e);
            }
        }
        let r = self.ap_select_current(ap, ap_register_address);
        proof {
            if old(self).spec_current_dp() == Some(dp) && old(self).spec_has_dp(dp) {
                let sel = old(self).spec_dp_state(dp).current_select;
                let target = crate::select::ap_target(sel, ap.ap, ap_register_address);
                if crate::select::variant_matches(sel, ap.ap)
                    && crate::select::ap_select_writes(sel, target).len() == 0 {
                    assert(old(self).spec_trace() + crate::select::ap_select_writes(sel, target)
                        =~= old(self).spec_trace());
                }
            }
        }
        r
    }

    /// Reads one AP register; the wire transaction carries the low 8
    /// bits of the register address, the rest went into SELECT.
    pub fn read_raw_ap_register(
        &mut self,
        ap: &crate::types::FullyQualifiedApAddress,
        address: u64,
    ) -> (r: Result<u32, ArmError>)
        requires
            old(self).wf(),
            ap.ap matches crate::types::ApAddress::V2(_) ==> ap.ap.v2_base() + address
                <= u64::MAX,
        ensures
            final(self).wf(),
            final(self).spec_use_overrun_detect() == old(self).spec_use_overrun_detect(),
            old(self).spec_trace().is_prefix_of(final(self).spec_trace()),
            r is Ok ==> final(self).spec_current_dp() == Some(ap.dp) && final(self).spec_has_dp(
                ap.dp,
            ),
            old(self).spec_current_dp() == Some(ap.dp) && old(self).spec_has_dp(ap.dp)
                ==> final(self).spec_current_dp() == Some(ap.dp)
                && final(self).spec_has_dp(ap.dp),
            old(self).spec_current_dp() == Some(ap.dp) && old(self).spec_has_dp(ap.dp) ==> (r
                == Err::<u32, ArmError>(ArmError::WrongApVersion)
                <==> !crate::select::variant_matches(
                old(self).spec_dp_state(ap.dp).current_select,
                ap.ap,
            )),
            old(self).spec_current_dp() == Some(ap.dp) && old(self).spec_has_dp(ap.dp) && r is Ok
                ==> {
                &&& final(self).spec_trace() == old(self).spec_trace()
                    + crate::select::ap_select_writes(
                        old(self).spec_dp_state(ap.dp).current_select,
                        crate::select::ap_target(
                            old(self).spec_dp_state(ap.dp).current_select,
                            ap.ap,
                            address,
                        ),
                    ) + seq![
                    ProbeEvent::Read(
                        RegisterAddress::ApRegister((address & 0xFF) as u8),
                        Some(r->Ok_0),
                    ),
                ]
                &&& final(self).spec_dp_state(ap.dp).current_select
                    == crate::select::ap_target(
                        old(self).spec_dp_state(ap.dp).current_select,
                        ap.ap,
                        address,
                    )
                &&& final(self).spec_dp_state(ap.dp).debug_port_version
                    == old(self).spec_dp_state(ap.dp).debug_port_version
            },
    {
        broadcast use lemma_trace_prefix_push, lemma_trace_prefix_concat,
            lemma_trace_prefix_trans;

        match self.select_ap_and_ap_bank(ap, address) {
            Ok(()) => {}
            Err(e) => {
                return Err(e);
            }
        }
        let ghost mid = *self;
        let v = match self.probe_read(
            RegisterAddress::ApRegister((address & 0xFF) as u8),
        ) {
            Ok(v) => v,
            Err(e) => {
                proof {
                    if mid.spec_has_dp(ap.dp) {
                        let k = mid.dp_index(ap.dp);
                        assert(self.spec_dps()[k].0 == ap.dp);
                    }
                }
                return Err(e);
            }
        };
        proof {
            if mid.spec_has_dp(ap.dp) {
                let k = mid.dp_index(ap.dp);
                assert(self.spec_dps()[k].0 == ap.dp);
            }
            assert(self.spec_trace() =~= mid.spec_trace() + seq![
                ProbeEvent::Read(RegisterAddress::ApRegister((address & 0xFF) as u8), Some(v)),
            ]);
        }
        Ok(v)
    }

    /// Writes one AP register.
    pub fn write_raw_ap_register(
        &mut self,
        ap: &crate::types::FullyQualifiedApAddress,
        address: u64,
        value: u32,
    ) -> (r: Result<(), ArmError>)
        requires
            old(self).wf(),
            ap.ap matches crate::types::ApAddress::V2(_) ==> ap.ap.v2_base() + address
                <= u64::MAX,
        ensures
            final(self).wf(),
            final(self).spec_use_overrun_detect() == old(self).spec_use_overrun_detect(),
            old(self).spec_trace().is_prefix_of(final(self).spec_trace()),
            r is Ok ==> final(self).spec_current_dp() == Some(ap.dp) && final(self).spec_has_dp(
                ap.dp,
            ),
            old(self).spec_current_dp() == Some(ap.dp) && old(self).spec_has_dp(ap.dp)
                ==> final(self).spec_current_dp() == Some(ap.dp)
                && final(self).spec_has_dp(ap.dp),
            old(self).spec_current_dp() == Some(ap.dp) && old(self).spec_has_dp(ap.dp) ==> (r
                == Err::<(), ArmError>(ArmError::WrongApVersion)
                <==> !crate::select::variant_matches(
                old(self).spec_dp_state(ap.dp).current_select,
                ap.ap,
            )),
            old(self).spec_current_dp() == Some(ap.dp) && old(self).spec_has_dp(ap.dp) && r is Ok
                ==> {
                &&& final(self).spec_trace() == old(self).spec_trace()
                    + crate::select::ap_select_writes(
                        old(self).spec_dp_state(ap.dp).current_select,
                        crate::select::ap_target(
                            old(self).spec_dp_state(ap.dp).current_select,
                            ap.ap,
                            address,
                        ),
                    ) + seq![
                    ProbeEvent::Write(RegisterAddress::ApRegister((address & 0xFF) as u8), value),
                ]
                &&& final(self).spec_dp_state(ap.dp).current_select
                    == crate::select::ap_target(
                        old(self).spec_dp_state(ap.dp).current_select,
                        ap.ap,
                        address,
                    )
                &&& final(self).spec_dp_state(ap.dp).debug_port_version
                    == old(self).spec_dp_state(ap.dp).debug_port_version
            },
    {
        broadcast use lemma_trace_prefix_push, lemma_trace_prefix_concat,
            lemma_trace_prefix_trans;

        match self.select_ap_and_ap_bank(ap, address) {
            Ok(()) => {}
            Err(e) => {
                return Err(e);
            }
        }
        let ghost mid = *self;
        match self.probe_write(RegisterAddress::ApRegister((address & 0xFF) as u8), value) {
            Ok(()) => {}
            Err(e) => {
                return Err(e);
            }
        }
        proof {
            assert(self.spec_trace() =~= mid.spec_trace() + seq![
                ProbeEvent::Write(RegisterAddress::ApRegister((address & 0xFF) as u8), value),
            ]);
        }
        Ok(())
    }

    /// Reads a block of words from one AP register, for FIFO-style
    /// accesses; the buffer keeps its length.
    pub fn read_raw_ap_register_repeated(
        &mut self,
        ap: &crate::types::FullyQualifiedApAddress,
        address: u64,
        values: &mut Vec<u32>,
    ) -> (r: Result<(), ArmError>)
        requires
            old(self).wf(),
            ap.ap matches crate::types::ApAddress::V2(_) ==> ap.ap.v2_base() + address
                <= u64::MAX,
        ensures
            final(self).wf(),
            final(self).spec_use_overrun_detect() == old(self).spec_use_overrun_detect(),
            old(self).spec_trace().is_prefix_of(final(self).spec_trace()),
            final(values)@.len() == old(values)@.len(),
            r is Ok ==> final(self).spec_current_dp() == Some(ap.dp) && final(self).spec_has_dp(
                ap.dp,
            ),
            old(self).spec_current_dp() == Some(ap.dp) && old(self).spec_has_dp(ap.dp) ==> (r
                == Err::<(), ArmError>(ArmError::WrongApVersion)
                <==> !crate::select::variant_matches(
                old(self).spec_dp_state(ap.dp).current_select,
                ap.ap,
            )),
            old(self).spec_current_dp() == Some(ap.dp) && old(self).spec_has_dp(ap.dp) && r is Ok
                ==> final(self).spec_trace() == old(self).spec_trace()
                + crate::select::ap_select_writes(
                    old(self).spec_dp_state(ap.dp).current_select,
                    crate::select::ap_target(
                        old(self).spec_dp_state(ap.dp).current_select,
                        ap.ap,
                        address,
                    ),
                ) + seq![
                ProbeEvent::ReadBlock(
                    RegisterAddress::ApRegister((address & 0xFF) as u8),
                    old(values)@.len() as usize,
                ),
            ],
    {
        broadcast use lemma_trace_prefix_push, lemma_trace_prefix_concat,
            lemma_trace_prefix_trans;

        match self.select_ap_and_ap_bank(ap, address) {
            Ok(()) => {}
            Err(e) => {
                return Err(e);
            }
        }
        let addr = RegisterAddress::ApRegister((address & 0xFF) as u8);
        let n = values.len();
        let ghost mid = *self;
        let res = self.probe.raw_read_block(addr, values);
        self.trace = Ghost(self.trace@.push(ProbeEvent::ReadBlock(addr, n)));
        proof {
            assert(self.spec_dps() == mid.spec_dps());
            if mid.spec_has_dp(ap.dp) {
                let k = mid.dp_index(ap.dp);
                assert(self.spec_dps()[k].0 == ap.dp);
            }
        }
        match res {
            Ok(()) => Ok(()),
            Err(e) => Err(ArmError::Probe(e)),
        }
    }

    /// Writes a block of words to one AP register.
    pub fn write_raw_ap_register_repeated(
        &mut self,
        ap: &crate::types::FullyQualifiedApAddress,
        address: u64,
        values: &Vec<u32>,
    ) -> (r: Result<(), ArmError>)
        requires
            old(self).wf(),
            ap.ap matches crate::types::ApAddress::V2(_) ==> ap.ap.v2_base() + address
                <= u64::MAX,
        ensures
            final(self).wf(),
            final(self).spec_use_overrun_detect() == old(self).spec_use_overrun_detect(),
            old(self).spec_trace().is_prefix_of(final(self).spec_trace()),
            r is Ok ==> final(self).spec_current_dp() == Some(ap.dp) && final(self).spec_has_dp(
                ap.dp,
            ),
            old(self).spec_current_dp() == Some(ap.dp) && old(self).spec_has_dp(ap.dp) ==> (r
                == Err::<(), ArmError>(ArmError::WrongApVersion)
                <==> !crate::select::variant_matches(
                old(self).spec_dp_state(ap.dp).current_select,
                ap.ap,
            )),
            old(self).spec_current_dp() == Some(ap.dp) && old(self).spec_has_dp(ap.dp) && r is Ok
                ==> final(self).spec_trace() == old(self).spec_trace()
                + crate::select::ap_select_writes(
                    old(self).spec_dp_state(ap.dp).current_select,
                    crate::select::ap_target(
                        old(self).spec_dp_state(ap.dp).current_select,
                        ap.ap,
                        address,
                    ),
                ) + seq![
                ProbeEvent::WriteBlock(
                    RegisterAddress::ApRegister((address & 0xFF) as u8),
                    values@.len() as usize,
                ),
            ],
    {
        broadcast use lemma_trace_prefix_push, lemma_trace_prefix_concat,
            lemma_trace_prefix_trans;

        match self.select_ap_and_ap_bank(ap, address) {
            Ok(()) => {}
            Err(e) => {
                return Err(e);
            }
        }
        let addr = RegisterAddress::ApRegister((address & 0xFF) as u8);
        let n = values.len();
        let ghost mid = *self;
        let res = self.probe.raw_write_block(addr, values);
        self.trace = Ghost(self.trace@.push(ProbeEvent::WriteBlock(addr, n)));
        proof {
            assert(self.spec_dps() == mid.spec_dps());
            if mid.spec_has_dp(ap.dp) {
                let k = mid.dp_index(ap.dp);
                assert(self.spec_dps()[k].0 == ap.dp);
            }
        }
        match res {
            Ok(()) => Ok(()),
            Err(e) => Err(ArmError::Probe(e)),
        }
    }

    /// Disconnects from every debug port: the current DP is stopped
    /// first (it may be a rescue DP with no cached state), then every
    /// other cached DP is connected and stopped — a failed connect skips
    /// only that DP's stop — and finally the probe is flushed. Failures
    /// are swallowed throughout: draining is best-effort. All cached
    /// state is released.
    fn disconnect(&mut self)
        requires
            old(self).wf(),
        ensures
            final(self).wf(),
            final(self).spec_current_dp() is None,
            final(self).spec_dps().len() == 0,
            final(self).spec_use_overrun_detect() == old(self).spec_use_overrun_detect(),
            old(self).spec_current_dp() is None ==> final(self).spec_trace()
                == old(self).spec_trace().push(ProbeEvent::Flush),
            old(self).spec_current_dp() matches Some(cur) ==> exists|mid: Seq<ProbeEvent>|
                final(self).spec_trace() == old(self).spec_trace() + seq![ProbeEvent::Stop(cur)]
                    + mid + seq![ProbeEvent::Flush]
                && disconnect_visits(mid, old(self).spec_dp_keys(), cur)
                && forall|k: int| 0 <= k < mid.len() ==> (mid[k] is Connect || mid[k] is Stop),
    {
        let cur = self.current_dp;
        self.current_dp = None;
        match cur {
            Some(cur) => {
                let sequence = self.sequence.clone();
                self.trace = Ghost(self.trace@.push(ProbeEvent::Stop(cur)));
                let _ = sequence.debug_port_stop(&mut self.probe, cur);
                let ghost mut mid: Seq<ProbeEvent> = Seq::empty();
                let ghost keys = old(self).spec_dp_keys();
                proof {
                    assert(self.spec_trace() =~= old(self).spec_trace()
                        + seq![ProbeEvent::Stop(cur)] + mid);
                    assert(self.spec_dps() == old(self).spec_dps());
                    assert(self.wf());
                    assert(keys.subrange(0, 0) =~= Seq::<DpAddress>::empty());
                }
                let mut i: usize = 0;
                while i < self.dps.len()
                    invariant
                        self.wf(),
                        self.spec_current_dp() is None,
                        self.spec_dps() == old(self).spec_dps(),
                        self.spec_use_overrun_detect() == old(self).spec_use_overrun_detect(),
                        self.spec_trace() == old(self).spec_trace()
                            + seq![ProbeEvent::Stop(cur)] + mid,
                        keys == old(self).spec_dp_keys(),
                        keys.len() == self.spec_dps().len(),
                        i <= keys.len(),
                        disconnect_visits(mid, keys.subrange(0, i as int), cur),
                        forall|k: int| 0 <= k < mid.len() ==> (mid[k] is Connect
                            || mid[k] is Stop),
                    decreases self.dps.len() - i,
                {
                    let ghost mid0 = mid;
                    let d = self.dps[i].0;
                    proof {
                        assert(keys[i as int] == self.spec_dps()[i as int].0);
                    }
                    if d != cur {
                        self.trace = Ghost(self.trace@.push(ProbeEvent::Connect(d)));
                        proof {
                            mid = mid.push(ProbeEvent::Connect(d));
                            assert(self.spec_trace() =~= old(self).spec_trace()
                                + seq![ProbeEvent::Stop(cur)] + mid);
                        }
                        match sequence.debug_port_connect(&mut self.probe, d) {
                            Ok(()) => {
                                self.trace = Ghost(self.trace@.push(ProbeEvent::Stop(d)));
                                proof {
                                    mid = mid.push(ProbeEvent::Stop(d));
                                    assert(self.spec_trace() =~= old(self).spec_trace()
                                        + seq![ProbeEvent::Stop(cur)] + mid);
                                    lemma_disconnect_visits_extend(
                                        mid0,
                                        keys.subrange(0, i as int),
                                        cur,
                                        seq![ProbeEvent::Connect(d), ProbeEvent::Stop(d)],
                                        d,
                                    );
                                    assert(mid =~= mid0 + seq![
                                        ProbeEvent::Connect(d),
                                        ProbeEvent::Stop(d),
                                    ]);
                                }
                                let _ = sequence.debug_port_stop(&mut self.probe, d);
                            }
                            Err(_) => {
                                proof {
                                    lemma_disconnect_visits_extend(
                                        mid0,
                                        keys.subrange(0, i as int),
                                        cur,
                                        seq![ProbeEvent::Connect(d)],
                                        d,
                                    );
                                    assert(mid =~= mid0 + seq![ProbeEvent::Connect(d)]);
                                }
                            }
                        }
                    } else {
                        proof {
                            lemma_disconnect_visits_extend(
                                mid0,
                                keys.subrange(0, i as int),
                                cur,
                                Seq::empty(),
                                d,
                            );
                            assert(mid =~= mid0 + Seq::<ProbeEvent>::empty());
                        }
                    }
                    proof {
                        assert(keys.subrange(0, i as int + 1) =~= keys.subrange(
                            0,
                            i as int,
                        ).push(keys[i as int]));
                    }
                    i += 1;
                }
                self.dps = Vec::new();
                let _ = self.probe.raw_flush();
                self.trace = Ghost(self.trace@.push(ProbeEvent::Flush));
                proof {
                    assert(keys.subrange(0, keys.len() as int) =~= keys);
                    assert(disconnect_visits(mid, old(self).spec_dp_keys(), cur));
                    assert(self.spec_trace() =~= old(self).spec_trace()
                        + seq![ProbeEvent::Stop(cur)] + mid + seq![ProbeEvent::Flush]);
                }
            }
            None => {
                self.dps = Vec::new();
                let _ = self.probe.raw_flush();
                self.trace = Ghost(self.trace@.push(ProbeEvent::Flush));
            }
        }
    }

    /// Runs the disconnect procedure and hands the raw probe back,
    /// together with the final trace of everything ever issued on it.
    ///
    /// Taking the interface by value is what makes the disconnect run
    /// exactly once: after `close` no handle remains through which it
    /// could run again. The trace pins the disconnect discipline: the
    /// current DP stopped first, every other cached DP connected and —
    /// when the connect went through — stopped, and a flush attempted as
    /// the last operation issued.
    pub fn close(self) -> (r: (P, Ghost<Seq<ProbeEvent>>))
        requires
            self.wf(),
        ensures
            self.spec_current_dp() is None ==> r.1@ == self.spec_trace().push(ProbeEvent::Flush),
            self.spec_current_dp() matches Some(cur) ==> exists|mid: Seq<ProbeEvent>|
                r.1@ == self.spec_trace() + seq![ProbeEvent::Stop(cur)] + mid
                    + seq![ProbeEvent::Flush]
                && disconnect_visits(mid, self.spec_dp_keys(), cur),
    {
        let mut this = self;
        this.disconnect();
        let ghost ops = this.spec_trace();
        (this.probe, Ghost(ops))
    }

    /// Tears the connection down and brings it up again: a full
    /// disconnect, then reselection of the previously current DP, whose
    /// state is rebuilt from scratch exactly as a fresh `create` followed
    /// by `select_debug_port` would build it. Between the two phases no
    /// DP is current, which re-entrant sequence hooks may observe.
    pub fn reinitialize(&mut self) -> (r: Result<(), ArmError>)
        requires
            old(self).wf(),
        ensures
            final(self).wf(),
            final(self).spec_use_overrun_detect() == old(self).spec_use_overrun_detect(),
            r is Ok ==> final(self).spec_current_dp() == old(self).spec_current_dp(),
            // With no DP current only the disconnect phase runs: the one
            // flush is attempted, no hook is invoked, and nothing can fail.
            old(self).spec_current_dp() is None ==> r is Ok && final(self).spec_trace()
                == old(self).spec_trace().push(ProbeEvent::Flush)
                && final(self).spec_current_dp() is None
                && final(self).spec_dps().len() == 0,
            // The disconnect phase always runs in full before reselection.
            old(self).spec_current_dp() matches Some(cur) ==> exists|mid: Seq<ProbeEvent>|
                (old(self).spec_trace() + seq![ProbeEvent::Stop(cur)] + mid
                    + seq![ProbeEvent::Flush]).is_prefix_of(final(self).spec_trace())
                && disconnect_visits(mid, old(self).spec_dp_keys(), cur),
            r is Ok && old(self).spec_current_dp() is None ==> final(self).spec_dps().len() == 0,
            r is Ok ==> (old(self).spec_current_dp() matches Some(dp) ==> {
                &&& final(self).spec_has_dp(dp)
                &&& final(self).spec_dps().len() == 1
                &&& (final(self).spec_dp_state(dp).debug_port_version == DebugPortVersion::DPv3
                    ==> final(self).spec_dp_state(dp).current_select
                    == DpState::spec_initial_select(DebugPortVersion::DPv3))
            }),
    {
        broadcast use lemma_trace_prefix_push, lemma_trace_prefix_concat,
            lemma_trace_prefix_trans;

        let cur = self.current_dp;
        self.disconnect();
        let ghost drained = *self;
        match cur {
            Some(dp) => {
                let r = self.select_dp(dp);
                proof {
                    let mid = choose|mid: Seq<ProbeEvent>|
                        drained.spec_trace() == old(self).spec_trace() + seq![
                            ProbeEvent::Stop(dp),
                        ] + mid + seq![ProbeEvent::Flush] && disconnect_visits(
                            mid,
                            old(self).spec_dp_keys(),
                            dp,
                        ) && forall|k: int|
                            0 <= k < mid.len() ==> (mid[k] is Connect || mid[k] is Stop);
                    assert((old(self).spec_trace() + seq![ProbeEvent::Stop(dp)] + mid + seq![
                        ProbeEvent::Flush,
                    ]).is_prefix_of(self.spec_trace()));
                }
                match r {
                    Ok(()) => Ok(()),
                    Err(e) => Err(e),
                }
            }
            None => Ok(()),
        }
    }

    /// The access ports reachable from `dp`, in the natural ascending
    /// order of their addresses — the same order on every call.
    ///
    /// On an ADIv5 debug port the AP indices are walked in order, probing
    /// each IDR; an AP is reported when its IDR reads back non-zero, and
    /// a failed probe is skipped silently. The ROM-table-driven ADIv6
    /// enumeration belongs to a separate module. A DP whose version could
    /// not be recognised is a hard error carrying the version nibble.
    pub fn access_ports(
        &mut self,
        dp: DpAddress,
    ) -> (r: Result<Vec<crate::types::FullyQualifiedApAddress>, ArmError>)
        requires
            old(self).wf(),
        ensures
            final(self).wf(),
            final(self).spec_use_overrun_detect() == old(self).spec_use_overrun_detect(),
            old(self).spec_trace().is_prefix_of(final(self).spec_trace()),
            r is Ok ==> final(self).spec_current_dp() == Some(dp) && final(self).spec_has_dp(dp),
            r matches Ok(aps) ==> {
                &&& forall|k: int|
                    0 <= k < aps@.len() ==> (#[trigger] aps@[k]).dp == dp && aps@[k].ap is V1
                &&& forall|k1: int, k2: int|
                    0 <= k1 < k2 < aps@.len() ==> aps@[k1].ap->V1_0 < aps@[k2].ap->V1_0
            },
            // With the DP current and initialised, the cached version alone
            // decides the outcome: the ADIv5 walk cannot fail (a failed
            // probe is skipped), the ADIv6 enumeration is not offered at
            // this layer, and an unrecognised version is a hard error.
            old(self).spec_current_dp() == Some(dp) && old(self).spec_has_dp(dp) ==> match old(
                self,
            ).spec_dp_state(dp).debug_port_version {
                DebugPortVersion::DPv3 => r == Err::<Vec<crate::types::FullyQualifiedApAddress>,
                    ArmError,
                >(ArmError::NotImplemented),
                DebugPortVersion::Unsupported(v) => r == Err::<
                    Vec<crate::types::FullyQualifiedApAddress>,
                    ArmError,
                >(ArmError::DebugPortVersionUnsupported(v)),
                _ => r is Ok,
            },
    {
        broadcast use lemma_trace_prefix_push, lemma_trace_prefix_concat,
            lemma_trace_prefix_trans;

        match self.select_dp(dp) {
            Ok(()) => {}
            Err(e) => {
                return Err(e);
            }
        }
        let i: usize = match self.find_dp(dp) {
            Some(i) => i,
            None => vstd::pervasive::unreached(),
        };
        let version = self.dps[i].1.debug_port_version;
        match version {
            DebugPortVersion::DPv0 | DebugPortVersion::DPv1 | DebugPortVersion::DPv2 => {
                let mut out: Vec<crate::types::FullyQualifiedApAddress> = Vec::new();
                let mut port: u16 = 0;
                while port < 256
                    invariant
                        self.wf(),
                        self.spec_current_dp() == Some(dp),
                        self.spec_has_dp(dp),
                        self.spec_use_overrun_detect()
                            == old(self).spec_use_overrun_detect(),
                        old(self).spec_trace().is_prefix_of(self.spec_trace()),
                        port <= 256,
                        forall|k: int|
                            0 <= k < out@.len() ==> (#[trigger] out@[k]).dp == dp
                                && out@[k].ap is V1 && out@[k].ap->V1_0 < port,
                        forall|k1: int, k2: int|
                            0 <= k1 < k2 < out@.len() ==> out@[k1].ap->V1_0
                                < out@[k2].ap->V1_0,
                    decreases 256 - port,
                {
                    broadcast use lemma_trace_prefix_push, lemma_trace_prefix_concat,
                        lemma_trace_prefix_trans;

                    let fq = crate::types::FullyQualifiedApAddress::v1_with_dp(
                        dp,
                        #[verifier::truncate] (port as u8),
                    );
                    match self.read_raw_ap_register(&fq, 0xFC) {
                        Ok(idr) => {
                            if idr != 0 {
                                out.push(fq);
                            }
                        }
                        Err(_) => {}
                    }
                    port += 1;
                }
                Ok(out)
            }
            DebugPortVersion::DPv3 => Err(ArmError::NotImplemented),
            DebugPortVersion::Unsupported(v) => Err(ArmError::DebugPortVersionUnsupported(v)),
        }
    }

    /// Sends a raw SWJ bit sequence through the probe, untouched by any
    /// cached state; debug sequences use this for line reset and
    /// protocol switching.
    pub fn swj_sequence(&mut self, bit_len: u8, bits: u64) -> (r: Result<
        (),
        crate::types::DebugProbeError,
    >)
        requires
            1 <= bit_len <= 64,
        ensures
            final(self).spec_trace() == old(self).spec_trace().push(
                ProbeEvent::SwjSequence(bit_len, bits),
            ),
            final(self).spec_current_dp() == old(self).spec_current_dp(),
            final(self).spec_dps() == old(self).spec_dps(),
            final(self).spec_use_overrun_detect() == old(self).spec_use_overrun_detect(),
    {
        let res = self.probe.swj_sequence(bit_len, bits);
        self.trace = Ghost(self.trace@.push(ProbeEvent::SwjSequence(bit_len, bits)));
        res
    }

    /// Drives and samples the SWJ pins through the probe, untouched by
    /// any cached state.
    pub fn swj_pins(
        &mut self,
        pin_out: u32,
        pin_select: u32,
        pin_wait: u32,
    ) -> (r: Result<u32, crate::types::DebugProbeError>)
        ensures
            final(self).spec_trace() == old(self).spec_trace().push(
                ProbeEvent::SwjPins(pin_out, pin_select, pin_wait),
            ),
            final(self).spec_current_dp() == old(self).spec_current_dp(),
            final(self).spec_dps() == old(self).spec_dps(),
            final(self).spec_use_overrun_detect() == old(self).spec_use_overrun_detect(),
    {
        let res = self.probe.swj_pins(pin_out, pin_select, pin_wait);
        self.trace = Ghost(self.trace@.push(ProbeEvent::SwjPins(pin_out, pin_select, pin_wait)));
        res
    }

    /// Starts SWO capture; a probe without the capability is refused
    /// with an architecture-required error and sees no traffic.
    pub fn enable_swo(&mut self, config: &SwoConfig) -> (r: Result<(), ArmError>)
        ensures
            !old(self).spec_probe().spec_has_swo() ==> r == Err::<(), ArmError>(
                ArmError::ArchitectureRequired,
            ) && final(self).spec_trace() == old(self).spec_trace(),
            old(self).spec_probe().spec_has_swo() ==> final(self).spec_trace()
                == old(self).spec_trace().push(ProbeEvent::SwoEnable(*config)),
            final(self).spec_current_dp() == old(self).spec_current_dp(),
            final(self).spec_dps() == old(self).spec_dps(),
            final(self).spec_use_overrun_detect() == old(self).spec_use_overrun_detect(),
    {
        if self.probe.has_swo() {
            let r = self.probe.enable_swo(config);
            self.trace = Ghost(self.trace@.push(ProbeEvent::SwoEnable(*config)));
            r
        } else {
            Err(ArmError::ArchitectureRequired)
        }
    }

    /// Stops SWO capture; a probe without the capability is refused with
    /// an architecture-required error and sees no traffic.
    pub fn disable_swo(&mut self) -> (r: Result<(), ArmError>)
        ensures
            !old(self).spec_probe().spec_has_swo() ==> r == Err::<(), ArmError>(
                ArmError::ArchitectureRequired,
            ) && final(self).spec_trace() == old(self).spec_trace(),
            old(self).spec_probe().spec_has_swo() ==> final(self).spec_trace()
                == old(self).spec_trace().push(ProbeEvent::SwoDisable),
            final(self).spec_current_dp() == old(self).spec_current_dp(),
            final(self).spec_dps() == old(self).spec_dps(),
            final(self).spec_use_overrun_detect() == old(self).spec_use_overrun_detect(),
    {
        if self.probe.has_swo() {
            let r = self.probe.disable_swo();
            self.trace = Ghost(self.trace@.push(ProbeEvent::SwoDisable));
            r
        } else {
            Err(ArmError::ArchitectureRequired)
        }
    }

    /// Reads captured SWO bytes with a bounded wait; a probe without the
    /// capability is refused with an architecture-required error and
    /// sees no traffic.
    pub fn read_swo_timeout(&mut self, timeout_millis: u64) -> (r: Result<Vec<u8>, ArmError>)
        ensures
            !old(self).spec_probe().spec_has_swo() ==> r == Err::<Vec<u8>, ArmError>(
                ArmError::ArchitectureRequired,
            ) && final(self).spec_trace() == old(self).spec_trace(),
            old(self).spec_probe().spec_has_swo() ==> final(self).spec_trace()
                == old(self).spec_trace().push(ProbeEvent::SwoRead(timeout_millis)),
            final(self).spec_current_dp() == old(self).spec_current_dp(),
            final(self).spec_dps() == old(self).spec_dps(),
            final(self).spec_use_overrun_detect() == old(self).spec_use_overrun_detect(),
    {
        if self.probe.has_swo() {
            let r = self.probe.read_swo_timeout(timeout_millis);
            self.trace = Ghost(self.trace@.push(ProbeEvent::SwoRead(timeout_millis)));
            r
        } else {
            Err(ArmError::ArchitectureRequired)
        }
    }

    /// Drains any buffered probe writes; callers must invoke this before
    /// assuming ordering against the target.
    pub fn flush(&mut self) -> (r: Result<(), ArmError>)
        ensures
            final(self).spec_trace() == old(self).spec_trace().push(ProbeEvent::Flush),
            final(self).spec_current_dp() == old(self).spec_current_dp(),
            final(self).spec_dps() == old(self).spec_dps(),
            final(self).spec_use_overrun_detect() == old(self).spec_use_overrun_detect(),
            r matches Err(e) ==> e is Probe,
    {
        self.probe_flush()
    }
}

impl<P: DapProbe, S> ArmCommunicationInterface<P, S> {
    /// Key sequences that agree under `map_values` agree pointwise.
    proof fn derive_keys_pointwise(self, pre: Self)
        requires
            pre.spec_dps().map_values(|e: (DpAddress, DpState)| e.0)
                == self.spec_dps().map_values(|e: (DpAddress, DpState)| e.0),
        ensures
            self.spec_dps().len() == pre.spec_dps().len(),
            forall|j: int|
                0 <= j < pre.spec_dps().len()
                    ==> self.spec_dps()[j].0 == pre.spec_dps()[j].0,
    {
        let f = |e: (DpAddress, DpState)| e.0;
        assert(pre.spec_dps().map_values(f).len() == pre.spec_dps().len());
        assert(self.spec_dps().map_values(f).len() == self.spec_dps().len());
        assert forall|j: int| 0 <= j < pre.spec_dps().len() implies self.spec_dps()[j].0
            == pre.spec_dps()[j].0 by {
            assert(pre.spec_dps().map_values(f)[j] == f(pre.spec_dps()[j]));
            assert(self.spec_dps().map_values(f)[j] == f(self.spec_dps()[j]));
        }
    }
}

/// Raw SWJ access as debug sequences consume it: bit sequences and pin
/// operations, passed to the probe unmodified and touching no cached
/// state.
pub trait SwdSequence {
    /// Sends a raw SWJ bit sequence of `bit_len` bits.
    fn swj_sequence(&mut self, bit_len: u8, bits: u64) -> (r: Result<
        (),
        crate::types::DebugProbeError,
    >)
        requires
            1 <= bit_len <= 64,
    ;

    /// Drives and samples the SWJ pins.
    fn swj_pins(
        &mut self,
        pin_out: u32,
        pin_select: u32,
        pin_wait: u32,
    ) -> Result<u32, crate::types::DebugProbeError>;
}

impl<P: DapProbe, S: ArmDebugSequence<P>> SwdSequence for ArmCommunicationInterface<P, S> {
    fn swj_sequence(&mut self, bit_len: u8, bits: u64) -> (r: Result<
        (),
        crate::types::DebugProbeError,
    >) {
        ArmCommunicationInterface::swj_sequence(self, bit_len, bits)
    }

    fn swj_pins(
        &mut self,
        pin_out: u32,
        pin_select: u32,
        pin_wait: u32,
    ) -> Result<u32, crate::types::DebugProbeError> {
        ArmCommunicationInterface::swj_pins(self, pin_out, pin_select, pin_wait)
    }
}

/// The operations a debugger needs from an ARM debug interface: explicit
/// DP selection, re-initialisation, AP discovery and orderly shutdown.
/// The sharp contracts live on the implementing type's own methods; the
/// trait threads the implementation's invariant through.
pub trait ArmDebugInterface<P: DapProbe>: Sized {
    /// The invariant every operation of the interface preserves.
    spec fn inv(&self) -> bool;

    /// Reinitialises the interface in place: full disconnect, then
    /// reselection of the previously current debug port.
    fn reinitialize(&mut self) -> (r: Result<(), ArmError>)
        requires
            old(self).inv(),
        ensures
            final(self).inv(),
    ;

    /// The access ports of a debug port, in a stable ascending order.
    fn access_ports(&mut self, dp: DpAddress) -> (r: Result<
        Vec<crate::types::FullyQualifiedApAddress>,
        ArmError,
    >)
        requires
            old(self).inv(),
        ensures
            final(self).inv(),
    ;

    /// Closes the interface and returns the probe it consumed.
    fn close(self) -> (r: P)
        requires
            self.inv(),
    ;

    /// Explicitly selects a debug port, connecting and lazily
    /// initialising it as needed.
    fn select_debug_port(&mut self, dp: DpAddress) -> (r: Result<(), ArmError>)
        requires
            old(self).inv(),
        ensures
            final(self).inv(),
    ;

    /// The currently connected debug port, or `None`.
    fn current_debug_port(&self) -> Option<DpAddress>;
}

impl<P: DapProbe, S: ArmDebugSequence<P>> ArmDebugInterface<P> for ArmCommunicationInterface<
    P,
    S,
> {
    open spec fn inv(&self) -> bool {
        self.wf()
    }

    fn reinitialize(&mut self) -> (r: Result<(), ArmError>) {
        ArmCommunicationInterface::reinitialize(self)
    }

    fn access_ports(&mut self, dp: DpAddress) -> (r: Result<
        Vec<crate::types::FullyQualifiedApAddress>,
        ArmError,
    >) {
        ArmCommunicationInterface::access_ports(self, dp)
    }

    fn close(self) -> (r: P) {
        ArmCommunicationInterface::close(self).0
    }

    fn select_debug_port(&mut self, dp: DpAddress) -> (r: Result<(), ArmError>) {
        match self.select_dp(dp) {
            Ok(()) => Ok(()),
            Err(e) => Err(e),
        }
    }

    fn current_debug_port(&self) -> Option<DpAddress> {
        ArmCommunicationInterface::current_debug_port(self)
    }
}

} // verus!
