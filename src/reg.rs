#![allow(non_snake_case, non_camel_case_types)]

use vstd::prelude::*;

verus! {

/// Field-detect behaviour when the field goes off (two bits).
#[derive(Debug, PartialEq, Eq, Clone, Copy, Structural)]
pub enum FdOff {
    Nothing,
    TagHalted,
    LastNdefRead,
    HostDone,
}

/// Field-detect behaviour when the field comes on (two bits).
#[derive(Debug, PartialEq, Eq, Clone, Copy, Structural)]
pub enum FdOn {
    FieldOn,
    ValidSoC,
    TagSelected,
    NfcDone,
}

/// Direction of a pass-through transfer (one bit).
#[derive(Debug, PartialEq, Eq, Clone, Copy, Structural)]
pub enum TransferDir {
    HostToNfc,
    NfcToHost,
}

pub open spec fn fd_off_code(v: FdOff) -> u8 {
    match v {
        FdOff::Nothing => 0,
        FdOff::TagHalted => 1,
        FdOff::LastNdefRead => 2,
        FdOff::HostDone => 3,
    }
}

pub open spec fn fd_on_code(v: FdOn) -> u8 {
    match v {
        FdOn::FieldOn => 0,
        FdOn::ValidSoC => 1,
        FdOn::TagSelected => 2,
        FdOn::NfcDone => 3,
    }
}

pub open spec fn dir_code(v: TransferDir) -> u8 {
    match v {
        TransferDir::HostToNfc => 0,
        TransferDir::NfcToHost => 1,
    }
}

/// Bit `k` of a register byte; fields are packed from the least significant bit.
pub open spec fn bit(b: u8, k: u8) -> bool {
    (b >> k) & 1u8 == 1u8
}

fn get_bit(b: u8, k: u8) -> (r: bool)
    requires
        k < 8,
    ensures
        r == bit(b, k),
{
    (b >> k) & 1u8 == 1u8
}

fn with_bit(b: u8, k: u8, v: bool) -> (r: u8)
    requires
        k < 8,
    ensures
        bit(r, k) == v,
        forall|j: u8| j < 8 && j != k ==> bit(r, j) == bit(b, j),
{
    let m: u8 = 1u8 << k;
    let r: u8 = if v { b | m } else { b & !m };
    assert(forall|j: u8| j < 8 && j != k ==> ((r >> j) & 1u8 == 1u8) == ((b >> j) & 1u8 == 1u8)) by (bit_vector)
        requires
            k < 8,
            m == 1u8 << k,
            r == if v { b | m } else { b & !m };
    assert(((r >> k) & 1u8 == 1u8) == v) by (bit_vector)
        requires
            k < 8,
            m == 1u8 << k,
            r == if v { b | m } else { b & !m };
    r
}

/// The session configuration register of the NFC chip.
#[derive(Debug, Clone, Copy, PartialEq, Eq, Structural)]
pub struct NC_REG {
    pub byte: u8,
}

impl NC_REG {
    pub fn new() -> (r: Self)
        ensures
            r.byte == 0,
    {
        NC_REG { byte: 0 }
    }

    pub fn from_bytes(bytes: [u8; 1]) -> (r: Self)
        ensures
            r.byte == bytes@[0],
    {
        NC_REG { byte: bytes[0] }
    }

    pub fn into_bytes(self) -> (r: [u8; 1])
        ensures
            r@ == seq![self.byte],
    {
        let r = [self.byte];
        assert(r@ =~= seq![self.byte]);
        r
    }

    pub fn TRANSFER_DIR(&self) -> (r: TransferDir)
        ensures
            dir_code(r) == (if bit(self.byte, 0) { 1u8 } else { 0u8 }),
    {
        if get_bit(self.byte, 0) { TransferDir::NfcToHost } else { TransferDir::HostToNfc }
    }

    pub fn SRAM_MIRROR_ON_OFF(&self) -> (r: bool)
        ensures
            r == bit(self.byte, 1),
    {
        get_bit(self.byte, 1)
    }

    pub fn FD_ON(&self) -> (r: FdOn)
        ensures
            fd_on_code(r) == (if bit(self.byte, 2) { 1u8 } else { 0u8 }) + (if bit(self.byte, 3) { 2u8 } else { 0u8 }),
    {
        let b = self.byte;
        match (get_bit(b, 2), get_bit(b, 3)) {
            (false, false) => FdOn::FieldOn,
            (true, false) => FdOn::ValidSoC,
            (false, true) => FdOn::TagSelected,
            (true, true) => FdOn::NfcDone,
        }
    }

    pub fn FD_OFF(&self) -> (r: FdOff)
        ensures
            fd_off_code(r) == (if bit(self.byte, 4) { 1u8 } else { 0u8 }) + (if bit(self.byte, 5) { 2u8 } else { 0u8 }),
    {
        let b = self.byte;
        match (get_bit(b, 4), get_bit(b, 5)) {
            (false, false) => FdOff::Nothing,
            (true, false) => FdOff::TagHalted,
            (false, true) => FdOff::LastNdefRead,
            (true, true) => FdOff::HostDone,
        }
    }

    pub fn PTHRU_ON_OFF(&self) -> (r: bool)
        ensures
            r == bit(self.byte, 6),
    {
        get_bit(self.byte, 6)
    }

    pub fn NFCS_I2C_RST_ON_OFF(&self) -> (r: bool)
        ensures
            r == bit(self.byte, 7),
    {
        get_bit(self.byte, 7)
    }

    pub fn with_TRANSFER_DIR(self, v: TransferDir) -> (r: Self)
        ensures
            r.TRANSFER_DIR_spec() == v,
            forall|j: u8| 1 <= j < 8 ==> bit(r.byte, j) == bit(self.byte, j),
    {
        let b = with_bit(self.byte, 0, v == TransferDir::NfcToHost);
        NC_REG { byte: b }
    }

    pub fn with_SRAM_MIRROR_ON_OFF(self, v: bool) -> (r: Self)
        ensures
            bit(r.byte, 1) == v,
            forall|j: u8| j < 8 && j != 1 ==> bit(r.byte, j) == bit(self.byte, j),
    {
        NC_REG { byte: with_bit(self.byte, 1, v) }
    }

    pub fn with_FD_ON(self, v: FdOn) -> (r: Self)
        ensures
            r.FD_ON_spec() == v,
            forall|j: u8| j < 8 && j != 2 && j != 3 ==> bit(r.byte, j) == bit(self.byte, j),
    {
        let (lo, hi) = match v {
            FdOn::FieldOn => (false, false),
            FdOn::ValidSoC => (true, false),
            FdOn::TagSelected => (false, true),
            FdOn::NfcDone => (true, true),
        };
        let b = with_bit(with_bit(self.byte, 2, lo), 3, hi);
        NC_REG { byte: b }
    }

    pub fn with_FD_OFF(self, v: FdOff) -> (r: Self)
        ensures
            r.FD_OFF_spec() == v,
            forall|j: u8| j < 8 && j != 4 && j != 5 ==> bit(r.byte, j) == bit(self.byte, j),
    {
        let (lo, hi) = match v {
            FdOff::Nothing => (false, false),
            FdOff::TagHalted => (true, false),
            FdOff::LastNdefRead => (false, true),
            FdOff::HostDone => (true, true),
        };
        let b = with_bit(with_bit(self.byte, 4, lo), 5, hi);
        NC_REG { byte: b }
    }

    pub fn with_PTHRU_ON_OFF(self, v: bool) -> (r: Self)
        ensures
            bit(r.byte, 6) == v,
            forall|j: u8| j < 8 && j != 6 ==> bit(r.byte, j) == bit(self.byte, j),
    {
        NC_REG { byte: with_bit(self.byte, 6, v) }
    }

    pub fn with_NFCS_I2C_RST_ON_OFF(self, v: bool) -> (r: Self)
        ensures
            bit(r.byte, 7) == v,
            forall|j: u8| j < 7 ==> bit(r.byte, j) == bit(self.byte, j),
    {
        NC_REG { byte: with_bit(self.byte, 7, v) }
    }

    pub open spec fn TRANSFER_DIR_spec(&self) -> TransferDir {
        if bit(self.byte, 0) { TransferDir::NfcToHost } else { TransferDir::HostToNfc }
    }

    pub open spec fn FD_ON_spec(&self) -> FdOn {
        match (bit(self.byte, 2), bit(self.byte, 3)) {
            (false, false) => FdOn::FieldOn,
            (true, false) => FdOn::ValidSoC,
            (false, true) => FdOn::TagSelected,
            (true, true) => FdOn::NfcDone,
        }
    }

    pub open spec fn FD_OFF_spec(&self) -> FdOff {
        match (bit(self.byte, 4), bit(self.byte, 5)) {
            (false, false) => FdOff::Nothing,
            (true, false) => FdOff::TagHalted,
            (false, true) => FdOff::LastNdefRead,
            (true, true) => FdOff::HostDone,
        }
    }
}

/// The I2C clock-stretching register.
#[derive(Debug, Clone, Copy, PartialEq, Eq, Structural)]
pub struct I2C_CLOCK_STR {
    pub byte: u8,
}

impl I2C_CLOCK_STR {
    pub fn from_bytes(bytes: [u8; 1]) -> (r: Self)
        ensures
            r.byte == bytes@[0],
    {
        I2C_CLOCK_STR { byte: bytes[0] }
    }

    pub fn I2C_CLOCK_STR(&self) -> (r: bool)
        ensures
            r == bit(self.byte, 0),
    {
        get_bit(self.byte, 0)
    }
}

/// The register lock register.
#[derive(Debug, Clone, Copy, PartialEq, Eq, Structural)]
pub struct REG_LOCK {
    pub byte: u8,
}

impl REG_LOCK {
    pub fn from_bytes(bytes: [u8; 1]) -> (r: Self)
        ensures
            r.byte == bytes@[0],
    {
        REG_LOCK { byte: bytes[0] }
    }

    pub fn REG_LOCK_NFC(&self) -> (r: bool)
        ensures
            r == bit(self.byte, 0),
    {
        get_bit(self.byte, 0)
    }

    pub fn REG_LOCK_I2C(&self) -> (r: bool)
        ensures
            r == bit(self.byte, 1),
    {
        get_bit(self.byte, 1)
    }
}

/// The session status register of the NFC chip.
#[derive(Debug, Clone, Copy, PartialEq, Eq, Structural)]
pub struct NS_REG {
    pub byte: u8,
}

impl NS_REG {
    pub fn from_bytes(bytes: [u8; 1]) -> (r: Self)
        ensures
            r.byte == bytes@[0],
    {
        NS_REG { byte: bytes[0] }
    }

    pub fn RF_FIELD_PRESENT(&self) -> (r: bool)
        ensures
            r == bit(self.byte, 0),
    {
        get_bit(self.byte, 0)
    }

    pub fn EEPROM_WR_BUSY(&self) -> (r: bool)
        ensures
            r == bit(self.byte, 1),
    {
        get_bit(self.byte, 1)
    }

    pub fn EEPROM_WR_ERR(&self) -> (r: bool)
        ensures
            r == bit(self.byte, 2),
    {
        get_bit(self.byte, 2)
    }

    pub fn SRAM_RF_READY(&self) -> (r: bool)
        ensures
            r == bit(self.byte, 3),
    {
        get_bit(self.byte, 3)
    }

    pub fn SRAM_I2C_READY(&self) -> (r: bool)
        ensures
            r == bit(self.byte, 4),
    {
        get_bit(self.byte, 4)
    }

    pub fn RF_LOCKED(&self) -> (r: bool)
        ensures
            r == bit(self.byte, 5),
    {
        get_bit(self.byte, 5)
    }

    pub fn I2C_LOCKED(&self) -> (r: bool)
        ensures
            r == bit(self.byte, 6),
    {
        get_bit(self.byte, 6)
    }

    pub fn NDEF_DATA_READ(&self) -> (r: bool)
        ensures
            r == bit(self.byte, 7),
    {
        get_bit(self.byte, 7)
    }
}

} // verus!
