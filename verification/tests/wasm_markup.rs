use bus_mapping::wasm_types::{
    digit_char_to_number, wasm_compute_section_len, ControlInstruction, ErrorCode,
    ExportDescType, ImportDescType, LimitType, MarkupError, MemSegmentType, NumType,
    NumericInstruction, ParametricInstruction, RefType, SharedState, WasmSection,
};

#[test]
fn digit_chars_map_to_their_values() {
    assert_eq!(digit_char_to_number(&'0'), 0);
    assert_eq!(digit_char_to_number(&'5'), 5);
    assert_eq!(digit_char_to_number(&'9'), 9);
}

#[test]
fn section_len_single_byte() {
    let wb = vec![0x0b, 0x04, 0xaa, 0xbb];
    assert_eq!(wasm_compute_section_len(&wb, 1), Ok((4, 1)));
}

#[test]
fn section_len_multi_byte() {
    // 0xe5 0x8e 0x26 is the canonical varint encoding of 624485
    let wb = vec![0x01, 0xe5, 0x8e, 0x26];
    assert_eq!(wasm_compute_section_len(&wb, 1), Ok((624485, 3)));
}

#[test]
fn section_len_runs_off_the_end() {
    let wb = vec![0x01, 0x80];
    assert_eq!(
        wasm_compute_section_len(&wb, 1),
        Err(MarkupError::IndexOutOfBoundsSimple)
    );
    assert_eq!(
        wasm_compute_section_len(&wb, 9),
        Err(MarkupError::IndexOutOfBoundsSimple)
    );
}

#[test]
fn section_len_rejects_overlong_encodings() {
    let wb = vec![0x80, 0x80, 0x80, 0x80, 0x80, 0x80];
    assert_eq!(wasm_compute_section_len(&wb, 0), Err(MarkupError::Leb128MaxBytes));
}

#[test]
fn section_ids_round_trip() {
    assert_eq!(WasmSection::Type.code(), 1);
    assert_eq!(WasmSection::Code.code(), 10);
    assert_eq!(WasmSection::DataCount.code(), 12);
    assert_eq!(WasmSection::from_code(11), Some(WasmSection::Data));
    assert_eq!(WasmSection::from_code(13), None);
}

#[test]
fn type_codes_round_trip() {
    assert_eq!(NumType::I32.code(), 0x7f);
    assert_eq!(NumType::from_code(0x7e), Some(NumType::I64));
    assert_eq!(NumType::from_code(0x7d), None);
    assert_eq!(RefType::FuncRef.code(), 0x70);
    assert_eq!(RefType::from_code(0x71), Some(RefType::ExternRef));
    assert_eq!(LimitType::from_code(0x01), Some(LimitType::MinMax));
    assert_eq!(LimitType::from_code(0x02), None);
    assert_eq!(MemSegmentType::from_code(0x02), Some(MemSegmentType::ActiveVariadic));
    assert_eq!(ImportDescType::from_code(0x03), Some(ImportDescType::GlobalType));
    assert_eq!(ExportDescType::from_code(0x00), Some(ExportDescType::Funcidx));
}

#[test]
fn instruction_codes_round_trip() {
    assert_eq!(NumericInstruction::I32Const.code(), 0x41);
    assert_eq!(NumericInstruction::from_code(0x6a), Some(NumericInstruction::I32Add));
    // only the constant-loading and addition opcodes are decoded
    assert_eq!(NumericInstruction::from_code(0x6b), None);
    assert_eq!(ControlInstruction::from_code(0x0c), Some(ControlInstruction::Br));
    assert_eq!(ControlInstruction::from_code(0x10), Some(ControlInstruction::Call));
    assert_eq!(ControlInstruction::from_code(0x0f), None);
    assert_eq!(ParametricInstruction::from_code(0x1a), Some(ParametricInstruction::Drop));
    assert_eq!(ErrorCode::Clear.code(), 0);
    assert_eq!(ErrorCode::Raised.code(), 1);
}

#[test]
fn shared_state_counters() {
    let mut s = SharedState::default();
    assert_eq!(s.bytecode_number, 0);
    s.reset();
    assert_eq!(s.bytecode_number, 1);
    assert_eq!(s.error_code, 0);
    s.bytecode_number_inc();
    s.bytecode_number_inc();
    assert_eq!(s.bytecode_number, 3);
    s.bytecode_number_reset();
    assert_eq!(s.bytecode_number, 1);
    s.block_level_inc();
    s.block_level_inc();
    s.block_level_dec();
    assert_eq!(s.block_level, 1);
    s.block_level_reset();
    assert_eq!(s.block_level, 0);
    s.error_code_turn_on();
    assert_eq!(s.error_code, 1);
    s.error_code_reset();
    assert_eq!(s.error_code, 0);
    s.dynamic_indexes_offset = 10;
    s.dynamic_indexes_offset_reset();
    assert_eq!(s.dynamic_indexes_offset, 0);
}
