use vstd::prelude::*;
use crate::types::DpRegisterAddress;

verus! {

/// The wire address of the SELECT register (unbanked, write-only).
pub open spec fn spec_select_address() -> DpRegisterAddress {
    DpRegisterAddress { bank: None, address: 8 }
}

/// The wire address of the SELECT register (unbanked, write-only).
pub fn select_address() -> (r: DpRegisterAddress)
    ensures r == spec_select_address(),
{
    DpRegisterAddress { bank: None, address: 8 }
}

/// The wire address of the SELECT1 register of an ADIv6 debug port.
pub open spec fn spec_select1_address() -> DpRegisterAddress {
    DpRegisterAddress { bank: Some(5u8), address: 4 }
}

/// The wire address of the SELECT1 register of an ADIv6 debug port.
pub fn select1_address() -> (r: DpRegisterAddress)
    ensures r == spec_select1_address(),
{
    DpRegisterAddress { bank: Some(5u8), address: 4 }
}

/// The wire address of the CTRL/STAT register.
pub open spec fn spec_ctrl_address() -> DpRegisterAddress {
    DpRegisterAddress { bank: Some(0u8), address: 4 }
}

/// The wire address of the CTRL/STAT register.
pub fn ctrl_address() -> (r: DpRegisterAddress)
    ensures r == spec_ctrl_address(),
{
    DpRegisterAddress { bank: Some(0u8), address: 4 }
}

/// The wire address of the DPIDR register.
pub open spec fn spec_dpidr_address() -> DpRegisterAddress {
    DpRegisterAddress { bank: None, address: 0 }
}

/// The wire address of the DPIDR register.
pub fn dpidr_address() -> (r: DpRegisterAddress)
    ensures r == spec_dpidr_address(),
{
    DpRegisterAddress { bank: None, address: 0 }
}

/// Shadow of the ADIv5 SELECT register: one 32-bit word holding
/// `dp_bank_sel` in bits 3..0, `ap_bank_sel` in bits 7..4 and `ap_sel`
/// in bits 31..24.
#[derive(Clone, Copy, Debug, PartialEq, Eq, Structural)]
pub struct SelectV1(pub u32);

impl SelectV1 {
    /// The DP register bank this word selects.
    pub open spec fn spec_dp_bank_sel(self) -> u8 {
        (self.0 & 0xF) as u8
    }

    /// The DP register bank this word selects.
    pub fn dp_bank_sel(&self) -> (r: u8)
        ensures r == self.spec_dp_bank_sel(),
    {
        (self.0 & 0xF) as u8
    }

    /// The AP register bank this word selects.
    pub open spec fn spec_ap_bank_sel(self) -> u8 {
        ((self.0 >> 4) & 0xF) as u8
    }

    /// The AP register bank this word selects.
    pub fn ap_bank_sel(&self) -> (r: u8)
        ensures r == self.spec_ap_bank_sel(),
    {
        ((self.0 >> 4) & 0xF) as u8
    }

    /// The AP port number this word selects.
    pub open spec fn spec_ap_sel(self) -> u8 {
        ((self.0 >> 24) & 0xFF) as u8
    }

    /// The AP port number this word selects.
    pub fn ap_sel(&self) -> (r: u8)
        ensures r == self.spec_ap_sel(),
    {
        ((self.0 >> 24) & 0xFF) as u8
    }

    /// The word with the DP bank field replaced.
    pub open spec fn spec_with_dp_bank(self, bank: u8) -> SelectV1 {
        SelectV1((self.0 & 0xFFFF_FFF0) | (bank as u32))
    }

    /// Replaces the DP bank field.
    pub fn set_dp_bank_sel(&mut self, bank: u8)
        requires bank < 16,
        ensures *final(self) == old(self).spec_with_dp_bank(bank),
    {
        self.0 = (self.0 & 0xFFFF_FFF0) | (bank as u32);
    }

    /// The word with the AP bank field replaced.
    pub open spec fn spec_with_ap_bank(self, bank: u8) -> SelectV1 {
        SelectV1((self.0 & 0xFFFF_FF0F) | ((bank as u32) << 4))
    }

    /// Replaces the AP bank field.
    pub fn set_ap_bank_sel(&mut self, bank: u8)
        requires bank < 16,
        ensures *final(self) == old(self).spec_with_ap_bank(bank),
    {
        self.0 = (self.0 & 0xFFFF_FF0F) | ((bank as u32) << 4);
    }

    /// The word with the AP port field replaced.
    pub open spec fn spec_with_ap_sel(self, port: u8) -> SelectV1 {
        SelectV1((self.0 & 0x00FF_FFFF) | ((port as u32) << 24))
    }

    /// Replaces the AP port field.
    pub fn set_ap_sel(&mut self, port: u8)
        ensures *final(self) == old(self).spec_with_ap_sel(port),
    {
        self.0 = (self.0 & 0x00FF_FFFF) | ((port as u32) << 24);
    }
}

/// Replacing the DP bank leaves the AP fields alone and lands the bank.
pub proof fn lemma_v1_dp_bank_update(s: SelectV1, bank: u8)
    requires bank < 16,
    ensures
        s.spec_with_dp_bank(bank).spec_dp_bank_sel() == bank,
        s.spec_with_dp_bank(bank).spec_ap_bank_sel() == s.spec_ap_bank_sel(),
        s.spec_with_dp_bank(bank).spec_ap_sel() == s.spec_ap_sel(),
{
    let w = s.0;
    assert(bank < 16 ==> (
        ((w & 0xFFFF_FFF0) | (bank as u32)) & 0xF == bank as u32
        && (((w & 0xFFFF_FFF0) | (bank as u32)) >> 4) & 0xF == (w >> 4) & 0xF
        && (((w & 0xFFFF_FFF0) | (bank as u32)) >> 24) & 0xFF == (w >> 24) & 0xFF
    )) by (bit_vector);
}

/// Setting the AP port and then the AP bank lands both fields and leaves
/// the DP bank alone.
pub proof fn lemma_v1_ap_update(s: SelectV1, port: u8, bank: u8)
    requires bank < 16,
    ensures
        s.spec_with_ap_sel(port).spec_with_ap_bank(bank).spec_ap_sel() == port,
        s.spec_with_ap_sel(port).spec_with_ap_bank(bank).spec_ap_bank_sel() == bank,
        s.spec_with_ap_sel(port).spec_with_ap_bank(bank).spec_dp_bank_sel()
            == s.spec_dp_bank_sel(),
{
    let w = s.0;
    assert(bank < 16 ==> (
        (((((w & 0x00FF_FFFF) | ((port as u32) << 24)) & 0xFFFF_FF0F)
            | ((bank as u32) << 4)) >> 24) & 0xFF == port as u32
        && ((((((w & 0x00FF_FFFF) | ((port as u32) << 24)) & 0xFFFF_FF0F)
            | ((bank as u32) << 4)) >> 4) & 0xF == bank as u32)
        && (((((w & 0x00FF_FFFF) | ((port as u32) << 24)) & 0xFFFF_FF0F)
            | ((bank as u32) << 4)) & 0xF == w & 0xF)
    )) by (bit_vector);
}

/// Shadow of the ADIv6 SELECT register: a 4-bit DP bank and the low part
/// of the combined AP register address (its bits 4..36).
#[derive(Clone, Copy, Debug, PartialEq, Eq, Structural)]
pub struct SelectV3 {
    /// Bits 4..36 of the combined AP register address.
    pub addr: u32,
    /// The selected DP register bank (4 bits).
    pub dp_bank_sel: u8,
}

impl SelectV3 {
    /// The wire word: the address bits above the 4-bit bank field.
    pub open spec fn spec_word(self) -> u32 {
        ((self.addr & 0x0FFF_FFFF) << 4) | (self.dp_bank_sel as u32)
    }

    /// The wire word: the address bits above the 4-bit bank field.
    pub fn word(&self) -> (r: u32)
        requires self.dp_bank_sel < 16,
        ensures r == self.spec_word(),
    {
        ((self.addr & 0x0FFF_FFFF) << 4) | (self.dp_bank_sel as u32)
    }
}

/// Shadow of the ADIv6 SELECT1 register: the high part of the combined
/// AP register address (its bits 36 and above).
#[derive(Clone, Copy, Debug, PartialEq, Eq, Structural)]
pub struct Select1 {
    /// Bits 36 and above of the combined AP register address.
    pub addr: u32,
}

impl Select1 {
    /// The wire word.
    pub open spec fn spec_word(self) -> u32 {
        self.addr
    }

    /// The wire word.
    pub fn word(&self) -> (r: u32)
        ensures r == self.spec_word(),
    {
        self.addr
    }
}

/// Shadow of the CTRL/STAT register; only the overrun-detect bit matters
/// to this layer.
#[derive(Clone, Copy, Debug, PartialEq, Eq, Structural)]
pub struct Ctrl(pub u32);

impl Ctrl {
    /// Whether overrun detection is switched on (bit 0).
    pub open spec fn spec_orun_detect(self) -> bool {
        self.0 & 1 == 1
    }

    /// Whether overrun detection is switched on (bit 0).
    pub fn orun_detect(&self) -> (r: bool)
        ensures r == self.spec_orun_detect(),
    {
        self.0 & 1 == 1
    }

    /// The word with the overrun-detect bit replaced.
    pub open spec fn spec_with_orun_detect(self, on: bool) -> Ctrl {
        if on {
            Ctrl(self.0 | 1)
        } else {
            Ctrl(self.0 & 0xFFFF_FFFE)
        }
    }

    /// Replaces the overrun-detect bit.
    pub fn set_orun_detect(&mut self, on: bool)
        ensures *final(self) == old(self).spec_with_orun_detect(on),
    {
        if on {
            self.0 = self.0 | 1;
        } else {
            self.0 = self.0 & 0xFFFF_FFFE;
        }
    }
}

/// Setting the overrun-detect bit makes the register report exactly that bit.
pub proof fn lemma_ctrl_orun_update(c: Ctrl, on: bool)
    ensures c.spec_with_orun_detect(on).spec_orun_detect() == on,
{
    let w = c.0;
    assert((w | 1) & 1 == 1) by (bit_vector);
    assert((w & 0xFFFF_FFFE) & 1 == 0) by (bit_vector);
}

/// The version nibble of a DPIDR word: its bits 12..16.
pub open spec fn spec_dpidr_version_nibble(dpidr: u32) -> u8 {
    ((dpidr >> 12) & 0xF) as u8
}

/// The version nibble of a DPIDR word: its bits 12..16.
pub fn dpidr_version_nibble(dpidr: u32) -> (r: u8)
    ensures r == spec_dpidr_version_nibble(dpidr),
{
    ((dpidr >> 12) & 0xF) as u8
}

} // verus!
