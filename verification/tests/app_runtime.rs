use eadai::app::{bmi088_startup_enabled, crc8_update, should_skip_crtp_packet};
use eadai::app::command::ReconnectController;
use eadai::app::helpers::{hex_preview, next_sleep_slice, outbound_payload};
use eadai::cli::ParserKind;
use eadai::protocols::crtp::{CrtpPacket, CrtpPort};
use eadai::protocols::self_describing::SELF_DESCRIBING_CRTP_CHANNEL;

#[test]
fn bmi088_startup_is_only_enabled_for_explicit_bmi088_parser() {
    assert!(bmi088_startup_enabled(ParserKind::Bmi088));
    assert!(!bmi088_startup_enabled(ParserKind::Auto));
    assert!(!bmi088_startup_enabled(ParserKind::Crtp));
}

#[test]
fn auto_should_only_skip_duplicate_self_describing_crtp_packets() {
    let raw_packet = CrtpPacket {
        port: CrtpPort::Debug,
        channel: SELF_DESCRIBING_CRTP_CHANNEL,
        payload: vec![0x73, 0x00],
    };
    let normal_packet = CrtpPacket {
        port: CrtpPort::Console,
        channel: 0,
        payload: vec![0x01, 0x02],
    };

    assert!(should_skip_crtp_packet(true, &raw_packet));
    assert!(!should_skip_crtp_packet(true, &normal_packet));
    assert!(!should_skip_crtp_packet(false, &raw_packet));
}

#[test]
fn crc8_matches_the_sae_j1850_check_value_without_final_xor() {
    // CRC-8 with polynomial 0x1D, initial value 0 and no final xor over "123456789".
    assert_eq!(crc8_update(0, b"123456789"), 0x37);
    assert_eq!(crc8_update(0, &[]), 0);
    assert_eq!(crc8_update(0x5A, &[]), 0x5A);
}

#[test]
fn crc8_continues_over_split_data() {
    let data = [0x02u8, 0x10, 0xAA, 0x55, 0x73];
    let whole = crc8_update(0, &data);
    let first = crc8_update(0, &data[..2]);
    assert_eq!(crc8_update(first, &data[2..]), whole);
}

#[test]
fn reconnect_controller_counts_attempts_and_restarts_after_reset() {
    let mut controller = ReconnectController::new(250);
    assert_eq!(controller.start_attempt(), 1);
    assert_eq!(controller.start_attempt(), 2);
    controller.reset();
    assert_eq!(controller.start_attempt(), 1);
    assert_eq!(controller.retry_delay_ms(), 250);
}

#[test]
fn outbound_payload_strips_line_endings_only_at_the_end() {
    let payload = outbound_payload(b"AT\r\nX\r\n\n");
    assert_eq!(payload.raw, b"AT\r\nX".to_vec());
    assert_eq!(payload.text, "AT\r\nX");
    let empty = outbound_payload(b"\r\n");
    assert!(empty.raw.is_empty());
    assert_eq!(empty.text, "");
}

#[test]
fn hex_preview_marks_truncation() {
    assert_eq!(hex_preview(&[0x0A, 0xFF, 0x00], 16), "0A FF 00");
    assert_eq!(hex_preview(&[0x0A, 0xFF, 0x00], 2), "0A FF ...");
    assert_eq!(hex_preview(&[], 4), "");
}

#[test]
fn sleep_slices_are_at_most_one_hundred_milliseconds() {
    assert_eq!(next_sleep_slice(1_000), 100);
    assert_eq!(next_sleep_slice(42), 42);
    assert_eq!(next_sleep_slice(0), 0);
}

#[test]
fn attempts_count_up_one_per_call_and_keep_the_pause() {
    let mut controller = ReconnectController::new(700);
    for k in 1..=50u32 {
        assert_eq!(controller.start_attempt(), k);
        assert_eq!(controller.attempt_count(), k);
        assert_eq!(controller.retry_delay_ms(), 700);
    }
    controller.reset();
    assert_eq!(controller.attempt_count(), 0);
    assert_eq!(controller.start_attempt(), 1);
    assert_eq!(controller.retry_delay_ms(), 700);
}
