use rfid_rs::error::Error;
use rfid_rs::logic::AtqA;
use rfid_rs::sim::SimBus;
use rfid_rs::GenericUid;
use rfid_rs::Mfrc522;
use rfid_rs::Uid;

fn single_card_bus() -> SimBus {
    SimBus::with_card(vec![0x12, 0x34, 0x56, 0x78], 0x08, 0x04, 0x00)
}

#[test]
fn init_succeeds_on_healthy_bus() {
    let sim = single_card_bus();
    assert!(Mfrc522::new(sim).init().is_ok());
}

#[test]
fn init_fails_without_panic_when_bus_fails() {
    // the very first transaction (the soft reset) fails
    let mut sim = single_card_bus();
    sim.set_fail_at(1);
    match Mfrc522::new(sim).init() {
        Ok(_) => panic!("initialization cannot succeed on a dead bus"),
        Err(e) => assert!(matches!(e, Error::Spi(_))),
    }
}

#[test]
fn init_fails_when_a_later_configuration_write_fails() {
    let mut sim = single_card_bus();
    sim.set_fail_at(7);
    assert!(Mfrc522::new(sim).init().is_err());
}

#[test]
fn version_reports_the_reader() {
    let sim = single_card_bus();
    let mut d = Mfrc522::new(sim).init().unwrap();
    assert_eq!(d.version().unwrap(), 0x92);
}

#[test]
fn reqa_yields_the_atqa() {
    let sim = single_card_bus();
    let mut d = Mfrc522::new(sim).init().unwrap();
    let atqa = d.reqa().unwrap();
    assert_eq!(atqa.bytes, [0x04, 0x00]);
}

#[test]
fn wupa_yields_the_atqa() {
    let sim = single_card_bus();
    let mut d = Mfrc522::new(sim).init().unwrap();
    let atqa = d.wupa().unwrap();
    assert_eq!(atqa.bytes, [0x04, 0x00]);
}

#[test]
fn new_card_present_probes_like_reqa() {
    let sim = single_card_bus();
    let mut d = Mfrc522::new(sim).init().unwrap();
    let atqa = d.new_card_present().unwrap();
    assert_eq!(atqa.bytes, [0x04, 0x00]);
}

#[test]
fn reqa_times_out_with_no_card() {
    let sim = SimBus::new();
    let mut d = Mfrc522::new(sim).init().unwrap();
    assert!(matches!(d.reqa(), Err(Error::Timeout)));
}

#[test]
fn select_single_uid() {
    // a single-bit ATQA, a non-colliding 4-byte UID and SAK 0x08:
    // cascade-complete and not ISO 14443-4 compliant
    let sim = single_card_bus();
    let mut d = Mfrc522::new(sim).init().unwrap();
    let atqa = d.reqa().unwrap();
    let uid = d.select(&atqa).unwrap();
    assert_eq!(uid.as_bytes(), &[0x12, 0x34, 0x56, 0x78]);
    match &uid {
        Uid::Single(u) => {
            assert!(!u.is_compliant());
            assert_eq!(u.as_bytes(), &[0x12, 0x34, 0x56, 0x78]);
        }
        _ => panic!("a 4-byte UID selects as Single"),
    }
}

#[test]
fn select_double_uid_converges_in_one_round_per_level() {
    let uid_bytes = vec![0xDE, 0xAD, 0xBE, 0xEF, 0x01, 0x02, 0x03];
    let sim = SimBus::with_card(uid_bytes.clone(), 0x20, 0x44, 0x00);
    let mut d = Mfrc522::new(sim).init().unwrap();
    let atqa = d.reqa().unwrap();
    let uid = d.select(&atqa).unwrap();
    assert_eq!(uid.as_bytes(), uid_bytes.as_slice());
    assert!(matches!(uid, Uid::Double(_)));
    let (sim, _) = d.release();
    // two cascade levels, one anticollision round each
    assert_eq!(sim.anticollision_frames(), 2);
}

#[test]
fn select_triple_uid_converges_in_one_round_per_level() {
    let uid_bytes = vec![0x0A, 0x1B, 0x2C, 0x3D, 0x4E, 0x5F, 0x60, 0x71, 0x82, 0x93];
    let sim = SimBus::with_card(uid_bytes.clone(), 0x08, 0x02, 0x00);
    let mut d = Mfrc522::new(sim).init().unwrap();
    let atqa = d.reqa().unwrap();
    let uid = d.select(&atqa).unwrap();
    assert_eq!(uid.as_bytes(), uid_bytes.as_slice());
    assert!(matches!(uid, Uid::Triple(_)));
    let (sim, _) = d.release();
    assert_eq!(sim.anticollision_frames(), 3);
}

#[test]
fn select_rejects_proprietary_atqa_without_bus_traffic() {
    // two of the low 5 bits set: a proprietary anticollision scheme
    let sim = single_card_bus();
    let mut d = Mfrc522::new(sim).init().unwrap();
    let atqa = AtqA { bytes: [0x0C, 0x00] };
    assert!(matches!(d.select(&atqa), Err(Error::Proprietary)));
    let (sim, _) = d.release();
    let after_select = sim.transactions();

    // the same initialization alone costs exactly as many transactions:
    // the rejection came before anything was put on the bus
    let d2 = Mfrc522::new(single_card_bus()).init().unwrap();
    let (sim2, _) = d2.release();
    assert_eq!(after_select, sim2.transactions());
}

#[test]
fn select_survives_one_collision_and_still_resolves_the_uid() {
    // bit 3 of the first UID byte is 1, so the forced tie-break bit agrees
    // with the card and the next round completes the level
    let uid_bytes = vec![0x78, 0x9A, 0xBC, 0xDE];
    let mut sim = SimBus::with_card(uid_bytes.clone(), 0x08, 0x04, 0x00);
    sim.set_collision_plan(vec![4]);
    let mut d = Mfrc522::new(sim).init().unwrap();
    let atqa = d.reqa().unwrap();
    let uid = d.select(&atqa).unwrap();
    assert_eq!(uid.as_bytes(), uid_bytes.as_slice());
    let (sim, _) = d.release();
    // the collision round plus the completing round
    assert_eq!(sim.anticollision_frames(), 2);
}

#[test]
fn select_fails_when_a_collision_report_does_not_advance() {
    let mut sim = single_card_bus();
    // first report moves to bit 4; the second reports bit 3, no progress
    sim.set_collision_plan(vec![4, 3]);
    let mut d = Mfrc522::new(sim).init().unwrap();
    let atqa = d.reqa().unwrap();
    assert!(matches!(d.select(&atqa), Err(Error::Collision)));
}

#[test]
fn select_fails_when_the_collision_position_is_unusable() {
    let mut sim = single_card_bus();
    // bit 5 of the collision register: position not valid
    sim.set_collision_plan(vec![0x25]);
    let mut d = Mfrc522::new(sim).init().unwrap();
    let atqa = d.reqa().unwrap();
    assert!(matches!(d.select(&atqa), Err(Error::Collision)));
}

#[test]
fn hlta_succeeds_when_the_card_stays_silent() {
    let sim = single_card_bus();
    let mut d = Mfrc522::new(sim).init().unwrap();
    assert!(d.hlta().is_ok());
}

#[test]
fn hlta_reports_nak_when_the_card_answers() {
    let mut sim = single_card_bus();
    sim.set_respond_to_halt(true);
    let mut d = Mfrc522::new(sim).init().unwrap();
    assert!(matches!(d.hlta(), Err(Error::Nak)));
}

#[test]
fn mf_write_then_read_round_trip() {
    let sim = single_card_bus();
    let mut d = Mfrc522::new(sim).init().unwrap();
    let data: [u8; 16] = [9, 8, 7, 6, 5, 4, 3, 2, 1, 0, 11, 12, 13, 14, 15, 16];
    d.mf_write(4, data).unwrap();
    assert_eq!(d.mf_read(4).unwrap(), data);
}

#[test]
fn mf_read_of_untouched_block_is_blank() {
    let sim = single_card_bus();
    let mut d = Mfrc522::new(sim).init().unwrap();
    assert_eq!(d.mf_read(9).unwrap(), [0u8; 16]);
}

#[test]
fn mf_write_reports_nak_on_malformed_acknowledge() {
    let mut sim = single_card_bus();
    sim.set_nak_writes(true);
    let mut d = Mfrc522::new(sim).init().unwrap();
    assert!(matches!(d.mf_write(4, [0u8; 16]), Err(Error::Nak)));
}

#[test]
fn mf_authenticate_succeeds_with_the_selected_uid() {
    let sim = single_card_bus();
    let mut d = Mfrc522::new(sim).init().unwrap();
    let atqa = d.reqa().unwrap();
    let uid = d.select(&atqa).unwrap();
    let key: [u8; 6] = [0xFF; 6];
    assert!(d.mf_authenticate(&uid, 4, &key).is_ok());
}

#[test]
fn mf_authenticate_times_out_with_a_wrong_uid() {
    let sim = single_card_bus();
    let mut d = Mfrc522::new(sim).init().unwrap();
    let wrong = Uid::Single(GenericUid::new([1, 2, 3, 4], 0x08));
    let key: [u8; 6] = [0xFF; 6];
    assert!(matches!(d.mf_authenticate(&wrong, 4, &key), Err(Error::Timeout)));
}

#[test]
fn mf_authenticate_uses_the_final_cascade_level_bytes() {
    // a 7-byte card: authentication carries its last 4 UID bytes
    let uid_bytes = vec![0xDE, 0xAD, 0xBE, 0xEF, 0x01, 0x02, 0x03];
    let sim = SimBus::with_card(uid_bytes, 0x08, 0x04, 0x00);
    let mut d = Mfrc522::new(sim).init().unwrap();
    let atqa = d.reqa().unwrap();
    let uid = d.select(&atqa).unwrap();
    let key: [u8; 6] = [0xFF; 6];
    assert!(d.mf_authenticate(&uid, 4, &key).is_ok());
}

#[test]
fn stop_crypto1_clears_the_latch() {
    let sim = single_card_bus();
    let mut d = Mfrc522::new(sim).init().unwrap();
    assert!(d.stop_crypto1().is_ok());
}

#[test]
fn release_returns_the_bus() {
    let sim = single_card_bus();
    let d = Mfrc522::new(sim);
    let (sim, _nss) = d.release();
    assert_eq!(sim.transactions(), 0);
}

#[test]
fn generic_uid_accessors() {
    let u: GenericUid<4> = GenericUid::new([1, 2, 3, 4], 0x28);
    assert_eq!(u.as_bytes(), &[1, 2, 3, 4]);
    assert!(u.is_compliant());
    let uid = Uid::Single(u);
    assert_eq!(uid.as_bytes(), &[1, 2, 3, 4]);
    assert_eq!(uid.auth_bytes(), [1, 2, 3, 4]);
    let d7 = Uid::Double(GenericUid::new([1, 2, 3, 4, 5, 6, 7], 0x08));
    assert_eq!(d7.auth_bytes(), [4, 5, 6, 7]);
}

#[test]
fn transceive_reports_lost_communication_on_a_wedged_reader() {
    // the reader answers register accesses but never completes the
    // exchange: distinct from a card that merely stays silent
    let mut sim = single_card_bus();
    sim.set_unresponsive(true);
    let mut d = Mfrc522::new(sim).init().unwrap();
    assert!(matches!(d.reqa(), Err(Error::LostCommunication)));
}

#[test]
fn triple_uid_authenticates_with_its_last_level() {
    let t10 = Uid::Triple(GenericUid::new([1, 2, 3, 4, 5, 6, 7, 8, 9, 10], 0x08));
    assert_eq!(t10.auth_bytes(), [7, 8, 9, 10]);
    assert_eq!(t10.as_bytes(), &[1, 2, 3, 4, 5, 6, 7, 8, 9, 10]);
}
