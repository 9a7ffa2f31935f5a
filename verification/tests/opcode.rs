use rlox::bytecode::Opcode;

#[test]
fn every_opcode_round_trips_through_its_byte() {
    for byte in 0u8..24 {
        let opcode = Opcode::decode(byte).expect("a defined opcode");
        assert_eq!(opcode.encode(), byte);
        assert_eq!(u8::from(opcode), byte);
    }
}

#[test]
fn bytes_beyond_the_last_opcode_fail_to_decode() {
    for byte in 24u8..=255 {
        assert!(Opcode::decode(byte).is_err());
    }
}
