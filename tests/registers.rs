use portal_signer::reg::{FdOff, FdOn, TransferDir, NC_REG, NS_REG, REG_LOCK};

#[test]
fn nc_reg_fields_from_byte() {
    let r = NC_REG::from_bytes([0b0110_0101]);
    assert_eq!(r.TRANSFER_DIR(), TransferDir::NfcToHost);
    assert!(!r.SRAM_MIRROR_ON_OFF());
    assert_eq!(r.FD_ON(), FdOn::ValidSoC);
    assert_eq!(r.FD_OFF(), FdOff::LastNdefRead);
    assert!(r.PTHRU_ON_OFF());
    assert!(!r.NFCS_I2C_RST_ON_OFF());
}

#[test]
fn nc_reg_builder_sets_only_its_field() {
    let r = NC_REG::new().with_FD_OFF(FdOff::HostDone).with_PTHRU_ON_OFF(true);
    assert_eq!(r.into_bytes(), [0b0111_0000]);
    let r = NC_REG::from_bytes([0xFF]).with_FD_ON(FdOn::FieldOn).with_TRANSFER_DIR(TransferDir::HostToNfc);
    assert_eq!(r.into_bytes(), [0b1111_0010]);
    let r = NC_REG::new().with_SRAM_MIRROR_ON_OFF(true).with_NFCS_I2C_RST_ON_OFF(true);
    assert_eq!(r.into_bytes(), [0b1000_0010]);
}

#[test]
fn status_and_lock_registers() {
    let s = NS_REG::from_bytes([0b1000_1001]);
    assert!(s.RF_FIELD_PRESENT());
    assert!(!s.EEPROM_WR_BUSY());
    assert!(s.SRAM_RF_READY());
    assert!(s.NDEF_DATA_READ());
    assert!(!s.I2C_LOCKED());
    let l = REG_LOCK::from_bytes([0b10]);
    assert!(!l.REG_LOCK_NFC());
    assert!(l.REG_LOCK_I2C());
}
