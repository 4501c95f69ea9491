use rfid_rs::error::Error;
use rfid_rs::fifo::FifoData;
use rfid_rs::logic::ack_outcome;
use rfid_rs::logic::ack_shape;
use rfid_rs::logic::build_anticollision_frame;
use rfid_rs::logic::build_select_frame;
use rfid_rs::logic::classify_authent_poll;
use rfid_rs::logic::classify_transceive_poll;
use rfid_rs::logic::decode_sak;
use rfid_rs::logic::force_tie_break;
use rfid_rs::logic::PollVerdict;
use rfid_rs::logic::check_atqa_standard;
use rfid_rs::logic::collision_next;
use rfid_rs::logic::decode_atqa;
use rfid_rs::logic::error_flags;
use rfid_rs::logic::extract_block;
use rfid_rs::logic::halt_outcome;
use rfid_rs::picc::Sak;
use rfid_rs::register::Command;
use rfid_rs::register::Register;
use rfid_rs::sim::crc_a_exec;
use rfid_rs::sim::crc_step_exec;
use rfid_rs::sim::SimError;

#[test]
fn atqa_single_bit_patterns_are_standard() {
    assert!(check_atqa_standard(0x01));
    assert!(check_atqa_standard(0x02));
    assert!(check_atqa_standard(0x04));
    assert!(check_atqa_standard(0x08));
    assert!(check_atqa_standard(0x10));
    // upper bits do not participate in the test
    assert!(check_atqa_standard(0xE4));
}

#[test]
fn atqa_other_patterns_are_proprietary() {
    assert!(!check_atqa_standard(0x00));
    assert!(!check_atqa_standard(0x03));
    assert!(!check_atqa_standard(0x0C));
    assert!(!check_atqa_standard(0x1F));
    assert!(!check_atqa_standard(0x18));
}

#[test]
fn decode_atqa_accepts_exactly_two_whole_bytes() {
    let fifo = FifoData::new(vec![0x04, 0x00], 0);
    let a = decode_atqa::<SimError>(&fifo).unwrap();
    assert_eq!(a.bytes, [0x04, 0x00]);
}

#[test]
fn decode_atqa_rejects_other_shapes() {
    let one = FifoData::new(vec![0x04], 0);
    assert!(matches!(decode_atqa::<SimError>(&one), Err(Error::IncompleteFrame)));
    let three = FifoData::new(vec![0x04, 0x00, 0x00], 0);
    assert!(matches!(decode_atqa::<SimError>(&three), Err(Error::IncompleteFrame)));
    let bits = FifoData::new(vec![0x04, 0x00], 3);
    assert!(matches!(decode_atqa::<SimError>(&bits), Err(Error::IncompleteFrame)));
}

#[test]
fn halt_outcome_inverts_timeout() {
    assert!(halt_outcome::<SimError>(Err(Error::Timeout)).is_ok());
}

#[test]
fn halt_outcome_turns_answers_into_nak() {
    let answered = FifoData::new(vec![0x00], 0);
    assert!(matches!(halt_outcome::<SimError>(Ok(answered)), Err(Error::Nak)));
}

#[test]
fn halt_outcome_passes_other_errors_through() {
    assert!(matches!(halt_outcome::<SimError>(Err(Error::Crc)), Err(Error::Crc)));
    assert!(matches!(
        halt_outcome::<SimError>(Err(Error::Spi(SimError))),
        Err(Error::Spi(SimError))
    ));
}

#[test]
fn collision_next_advances_strictly() {
    assert!(matches!(collision_next::<SimError>(4, 0), Ok(4)));
    assert!(matches!(collision_next::<SimError>(31, 30), Ok(31)));
    // a collision register of 0 encodes position 32
    assert!(matches!(collision_next::<SimError>(0x40, 31), Ok(32)));
}

#[test]
fn collision_next_rejects_no_progress() {
    assert!(matches!(collision_next::<SimError>(4, 4), Err(Error::Collision)));
    assert!(matches!(collision_next::<SimError>(3, 4), Err(Error::Collision)));
    assert!(matches!(collision_next::<SimError>(0x40, 32), Err(Error::Collision)));
}

#[test]
fn collision_next_rejects_invalid_position_flag() {
    // bit 5: the reader could not locate the collision
    assert!(matches!(collision_next::<SimError>(0x25, 0), Err(Error::Collision)));
}

#[test]
fn error_flags_priority_order() {
    assert!(error_flags::<SimError>(0x00).is_ok());
    assert!(matches!(error_flags::<SimError>(0x01), Err(Error::Protocol)));
    // protocol beats parity when both flags are set
    assert!(matches!(error_flags::<SimError>(0x03), Err(Error::Protocol)));
    assert!(matches!(error_flags::<SimError>(0x02), Err(Error::Parity)));
    assert!(matches!(error_flags::<SimError>(0x04), Err(Error::Crc)));
    assert!(matches!(error_flags::<SimError>(0x08), Err(Error::Collision)));
    assert!(matches!(error_flags::<SimError>(0x10), Err(Error::BufferOverflow)));
    assert!(matches!(error_flags::<SimError>(0x40), Err(Error::Overheating)));
    assert!(matches!(error_flags::<SimError>(0x80), Err(Error::Wr)));
    // an unused flag bit alone maps to no error
    assert!(error_flags::<SimError>(0x20).is_ok());
}

#[test]
fn ack_shape_is_one_byte_of_four_bits() {
    assert!(ack_shape(&FifoData::new(vec![0x0A], 4)));
    assert!(!ack_shape(&FifoData::new(vec![0x0A], 0)));
    assert!(!ack_shape(&FifoData::new(vec![0x0A, 0x00], 4)));
    assert!(!ack_shape(&FifoData::new(vec![], 0)));
}

#[test]
fn extract_block_checks_trailing_bytes() {
    let mut rx: Vec<u8> = (0u8..16).collect();
    rx.push(0xAB);
    rx.push(0xCD);
    let good = FifoData::new(rx.clone(), 0);
    let out = extract_block::<SimError>(&good, &[0xAB, 0xCD]).unwrap();
    assert_eq!(out.to_vec(), (0u8..16).collect::<Vec<u8>>());
    assert!(matches!(
        extract_block::<SimError>(&good, &[0xAB, 0xCE]),
        Err(Error::Crc)
    ));
    let short = FifoData::new(vec![1, 2, 3], 0);
    assert!(matches!(
        extract_block::<SimError>(&short, &[0xAB, 0xCD]),
        Err(Error::IncompleteFrame)
    ));
}

#[test]
fn crc_a_known_vector() {
    // the halt frame 50 00 carries the check bytes 57 CD on the wire
    let crc = crc_a_exec(&vec![0x50, 0x00], 2);
    assert_eq!(crc & 0xFF, 0x57);
    assert_eq!(crc >> 8, 0xCD);
}

#[test]
fn crc_a_deterministic_and_empty_preset() {
    let a = crc_a_exec(&vec![1, 2, 3, 4], 4);
    let b = crc_a_exec(&vec![1, 2, 3, 4], 4);
    assert_eq!(a, b);
    assert_eq!(crc_a_exec(&vec![], 0), 0x6363);
    let step1 = crc_step_exec(0x6363, 0x50);
    let step2 = crc_step_exec(step1, 0x00);
    assert_eq!(step2, crc_a_exec(&vec![0x50, 0x00], 2));
}

#[test]
fn copy_bits_to_whole_bytes() {
    let fifo = FifoData::new(vec![0xAB, 0xCD], 0);
    let mut dst = vec![0u8, 0, 0];
    let r = fifo.copy_bits_to(&mut dst, 0);
    assert_eq!(dst, vec![0xAB, 0xCD, 0x00]);
    assert_eq!(r, 8);
}

#[test]
fn copy_bits_to_merges_partial_first_byte() {
    // 4 bits already known in the destination; the received byte carries
    // the upper 4 bits
    let fifo = FifoData::new(vec![0xF0], 4);
    let mut dst = vec![0x0Au8, 0x00];
    let r = fifo.copy_bits_to(&mut dst, 4);
    assert_eq!(dst, vec![0xFA, 0x00]);
    assert_eq!(r, 8);
}

#[test]
fn copy_bits_to_at_byte_offset() {
    let fifo = FifoData::new(vec![0x11, 0x22], 0);
    let mut dst = vec![0xEEu8, 0x00, 0x00, 0x77];
    let r = fifo.copy_bits_to(&mut dst, 8);
    assert_eq!(dst, vec![0xEE, 0x11, 0x22, 0x77]);
    assert_eq!(r, 16);
}

#[test]
fn copy_bits_to_empty_leaves_destination() {
    let fifo = FifoData::new(vec![], 0);
    let mut dst = vec![0x55u8, 0x66];
    let r = fifo.copy_bits_to(&mut dst, 5);
    assert_eq!(dst, vec![0x55, 0x66]);
    assert_eq!(r, 5);
}

#[test]
fn register_wire_addresses() {
    // read: address shifted left with bit 7 set; write: bit 7 clear
    assert_eq!(Register::CommandReg.read_address(), 0x82);
    assert_eq!(Register::CommandReg.write_address(), 0x02);
    assert_eq!(Register::FIFODataReg.read_address(), 0x92);
    assert_eq!(Register::FIFODataReg.write_address(), 0x12);
    assert_eq!(Register::VersionReg.read_address(), 0xEE);
    assert_eq!(Register::VersionReg.write_address(), 0x6E);
}

#[test]
fn command_opcodes() {
    assert_eq!(Command::Idle.code(), 0b0000);
    assert_eq!(Command::CalcCRC.code(), 0b0011);
    assert_eq!(Command::Transceive.code(), 0b1100);
    assert_eq!(Command::MFAuthent.code(), 0b1110);
    assert_eq!(Command::SoftReset.code(), 0b1111);
}

#[test]
fn sak_flags() {
    let complete = Sak::from_byte(0x08);
    assert!(complete.is_complete());
    assert!(!complete.is_compliant());
    let cascade = Sak::from_byte(0x04);
    assert!(!cascade.is_complete());
    let compliant = Sak::from_byte(0x20);
    assert!(compliant.is_compliant());
}

#[test]
fn decode_sak_accepts_matching_three_byte_answer() {
    let rx = FifoData::new(vec![0x08, 0xAA, 0xBB], 0);
    let sak = decode_sak::<SimError>(&rx, &[0xAA, 0xBB]).unwrap();
    assert_eq!(sak.byte, 0x08);
}

#[test]
fn decode_sak_rejects_wrong_shape_and_wrong_check() {
    let short = FifoData::new(vec![0x08, 0xAA], 0);
    assert!(matches!(
        decode_sak::<SimError>(&short, &[0xAA, 0xBB]),
        Err(Error::IncompleteFrame)
    ));
    let bits = FifoData::new(vec![0x08, 0xAA, 0xBB], 2);
    assert!(matches!(
        decode_sak::<SimError>(&bits, &[0xAA, 0xBB]),
        Err(Error::IncompleteFrame)
    ));
    let rx = FifoData::new(vec![0x08, 0xAA, 0xBB], 0);
    assert!(matches!(decode_sak::<SimError>(&rx, &[0xAA, 0xBC]), Err(Error::Crc)));
}

#[test]
fn transceive_poll_classification() {
    // receive, error or idle complete the exchange, whatever else is set
    assert_eq!(classify_transceive_poll(0x20, 0), PollVerdict::Complete);
    assert_eq!(classify_transceive_poll(0x02, 0), PollVerdict::Complete);
    assert_eq!(classify_transceive_poll(0x10, 0), PollVerdict::Complete);
    assert_eq!(classify_transceive_poll(0x21, 11), PollVerdict::Complete);
    // otherwise a fired timer is the card's timeout
    assert_eq!(classify_transceive_poll(0x01, 0), PollVerdict::CardTimeout);
    // otherwise a spent empty-poll budget means the reader is lost
    assert_eq!(classify_transceive_poll(0x00, 11), PollVerdict::ReaderLost);
    assert_eq!(classify_transceive_poll(0x00, 10), PollVerdict::Again);
    assert_eq!(classify_transceive_poll(0x40, 11), PollVerdict::ReaderLost);
}

#[test]
fn authent_poll_classification() {
    assert_eq!(classify_authent_poll(0x10, 0), PollVerdict::Complete);
    assert_eq!(classify_authent_poll(0x02, 71), PollVerdict::Complete);
    assert_eq!(classify_authent_poll(0x01, 0), PollVerdict::CardTimeout);
    assert_eq!(classify_authent_poll(0x00, 71), PollVerdict::CardTimeout);
    assert_eq!(classify_authent_poll(0x00, 70), PollVerdict::Again);
}

#[test]
fn anticollision_frame_prefix_and_nvb() {
    let uid5 = vec![0xAB, 0xCD, 0xEF, 0x12, 0x34];
    // nothing known yet: 2 whole bytes, no leftover bits
    assert_eq!(build_anticollision_frame(0x93, 0, &uid5), vec![0x93, 0x20]);
    // 4 known bits: 2 whole bytes plus 4 bits, one partial byte follows
    assert_eq!(build_anticollision_frame(0x93, 4, &uid5), vec![0x93, 0x24, 0xAB]);
    // 12 known bits: 3 whole bytes plus 4 bits
    assert_eq!(
        build_anticollision_frame(0x95, 12, &uid5),
        vec![0x95, 0x34, 0xAB, 0xCD]
    );
    // the whole level known: 6 whole bytes, no leftover bits
    assert_eq!(
        build_anticollision_frame(0x97, 32, &uid5),
        vec![0x97, 0x60, 0xAB, 0xCD, 0xEF, 0x12]
    );
}

#[test]
fn select_frame_carries_block_check_character() {
    let uid5 = vec![0x12, 0x34, 0x56, 0x78, 0x00];
    let bcc = 0x12 ^ 0x34 ^ 0x56 ^ 0x78;
    assert_eq!(
        build_select_frame(0x93, &uid5),
        vec![0x93, 0x70, 0x12, 0x34, 0x56, 0x78, bcc]
    );
}

#[test]
fn tie_break_forces_exactly_the_collision_bit() {
    let mut uid5 = vec![0x00u8, 0x00, 0x00, 0x00, 0x00];
    force_tie_break(&mut uid5, 4);
    assert_eq!(uid5, vec![0x08, 0x00, 0x00, 0x00, 0x00]);
    force_tie_break(&mut uid5, 9);
    assert_eq!(uid5, vec![0x08, 0x01, 0x00, 0x00, 0x00]);
    force_tie_break(&mut uid5, 32);
    assert_eq!(uid5, vec![0x08, 0x01, 0x00, 0x80, 0x00]);
}

#[test]
fn ack_outcome_accepts_only_the_four_bit_shape() {
    assert!(ack_outcome::<SimError>(&FifoData::new(vec![0x0A], 4)).is_ok());
    // even a wrong nibble value passes: only the shape is checked
    assert!(ack_outcome::<SimError>(&FifoData::new(vec![0x05], 4)).is_ok());
    assert!(matches!(
        ack_outcome::<SimError>(&FifoData::new(vec![0x0A], 0)),
        Err(Error::Nak)
    ));
    assert!(matches!(
        ack_outcome::<SimError>(&FifoData::new(vec![], 0)),
        Err(Error::Nak)
    ));
    assert!(matches!(
        ack_outcome::<SimError>(&FifoData::new(vec![0x0A, 0x00], 4)),
        Err(Error::Nak)
    ));
}
