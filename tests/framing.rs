use portal_signer::emulator::{CardMessage, EmulatorMessage};
use portal_signer::flash::{decode_page, encode_page, erase_page, BankStatus, BankToFlash, FlashBank, FlashError, PAGE_SIZE};
use portal_signer::keys::KeychainKind;
use portal_signer::write_buffer::WriteBuffer;

#[test]
fn card_display_frame() {
    let bytes = CardMessage::Display(vec![0x1234, 0xABCD]).write_to();
    assert_eq!(bytes, vec![0x00, 0x00, 0x04, 0x12, 0x34, 0xAB, 0xCD]);
}

#[test]
fn card_payload_frames() {
    assert_eq!(CardMessage::Nfc(vec![9, 8, 7]).write_to(), vec![0x01, 0x00, 0x03, 9, 8, 7]);
    assert_eq!(CardMessage::WriteFlash(vec![0xFF; 300]).write_to()[..3], [0x03, 0x01, 0x2C]);
    assert_eq!(CardMessage::Tick.write_to(), vec![0x02]);
    assert_eq!(CardMessage::ReadFlash.write_to(), vec![0x04]);
    assert_eq!(CardMessage::FinishBoot.write_to(), vec![0x05]);
    assert_eq!(CardMessage::FlushDisplay.write_to(), vec![0x06]);
}

#[test]
fn emulator_frames() {
    assert_eq!(EmulatorMessage::Tsc(true).encode(), vec![0x01, 0x00, 0x01, 0x01]);
    assert_eq!(EmulatorMessage::Tsc(false).encode(), vec![0x01, 0x00, 0x01, 0x00]);
    assert_eq!(EmulatorMessage::Nfc(vec![0xAA, 0xBB]).encode(), vec![0x02, 0x00, 0x02, 0xAA, 0xBB]);
    assert_eq!(EmulatorMessage::FlashContent(vec![]).encode(), vec![0x03, 0x00, 0x00]);
    assert_eq!(EmulatorMessage::Reset.encode(), vec![0x04]);
}

#[test]
fn write_buffer_skips_row_heads() {
    let mut buf: WriteBuffer<4, 3, 1> = WriteBuffer::init_fields(vec![vec![0; 4]; 3]);
    buf.append(&[1, 2, 3, 4, 5]);
    let rows: Vec<Vec<u8>> = buf.get_data().into_iter().cloned().collect();
    assert_eq!(rows, vec![vec![0, 0, 1, 2], vec![0, 0, 3, 4], vec![0, 0, 5, 0]]);
}

#[test]
fn write_buffer_sends_reached_rows_and_last() {
    let mut buf: WriteBuffer<4, 4, 1> = WriteBuffer::init_fields(vec![vec![0; 4]; 4]);
    buf.append(&[7]);
    let rows: Vec<Vec<u8>> = buf.get_data().into_iter().cloned().collect();
    assert_eq!(rows, vec![vec![0, 0, 7, 0], vec![0, 0, 0, 0]]);
    buf.append(&[8, 9, 10, 11, 12, 13, 14, 15]);
    let rows: Vec<Vec<u8>> = buf.get_data().into_iter().cloned().collect();
    assert_eq!(rows, vec![vec![0, 0, 7, 8], vec![0, 0, 9, 10], vec![0, 0, 11, 12], vec![0, 0, 13, 14]]);
}

#[test]
fn keychain_kinds_differ() {
    assert_ne!(KeychainKind::External, KeychainKind::Internal);
}

#[test]
fn emulator_message_text() {
    assert_eq!(EmulatorMessage::Tsc(true).to_string(), "Tsc(true)");
    assert_eq!(EmulatorMessage::Tsc(false).to_string(), "Tsc(false)");
    assert_eq!(EmulatorMessage::Reset.to_string(), "Reset");
    assert_eq!(EmulatorMessage::Nfc(vec![0x01, 0xAB, 0x10]).to_string(), "Nfc([01, AB, 10])");
    assert_eq!(EmulatorMessage::Nfc(vec![]).to_string(), "Nfc([])");
    assert_eq!(EmulatorMessage::FlashContent(vec![1, 2]).to_string(), "FlashContent(...)");
}

#[test]
fn flash_bank_pages() {
    assert_eq!(FlashBank::Bank1.opposite(), FlashBank::Bank2);
    assert_eq!(FlashBank::Bank2.opposite(), FlashBank::Bank1);
    assert_eq!(BankToFlash::physical_bank_page(FlashBank::Bank2, 3), 259);
    let booted_second = BankToFlash::new(FlashBank::Bank2);
    assert_eq!(booted_second.get_physical_page(BankStatus::Active, 5), 5);
    assert_eq!(booted_second.get_physical_page(BankStatus::Spare, 5), 261);
    assert_eq!(erase_page(true, 10), 266);
    assert_eq!(erase_page(false, 10), 10);
}

#[test]
fn flash_page_round_trip() {
    let page = encode_page(&[5, 6, 7]).unwrap();
    assert_eq!(page.len(), PAGE_SIZE);
    assert_eq!(&page[..5], &[0, 3, 5, 6, 7]);
    assert!(page[5..].iter().all(|b| *b == 0));
    assert_eq!(decode_page(&page).unwrap(), vec![5, 6, 7]);
    assert_eq!(encode_page(&vec![1u8; PAGE_SIZE - 1]), Err(FlashError::CorruptedData));
    let mut bad = vec![0u8; PAGE_SIZE];
    bad[0] = 0x07;
    bad[1] = 0xFE;
    assert_eq!(decode_page(&bad), Err(FlashError::CorruptedData));
}
