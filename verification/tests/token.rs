use gecko_client::token::{
    process_instruction, route, AccountInfo, Handler, TokenError, TokenInstruction, TokenState,
    TAG_INITIALIZE_ACCOUNT, TAG_TRANSFER, TOKEN_STATE_LEN,
};

#[test]
fn unpack_initialize_account() {
    assert_eq!(TokenInstruction::unpack(&[0]), Ok(TokenInstruction::InitializeAccount));
}

#[test]
fn unpack_initialize_account_ignores_trailing_bytes() {
    assert_eq!(TokenInstruction::unpack(&[0, 9, 9, 9]), Ok(TokenInstruction::InitializeAccount));
}

#[test]
fn unpack_rejects_empty_input() {
    assert_eq!(TokenInstruction::unpack(&[]), Err(TokenError::InvalidInstructionData));
}

#[test]
fn unpack_rejects_unknown_tag() {
    assert_eq!(TokenInstruction::unpack(&[2]), Err(TokenError::InvalidInstructionData));
    assert_eq!(
        TokenInstruction::unpack(&[255, 0, 0, 0, 0, 0, 0, 0, 0]),
        Err(TokenError::InvalidInstructionData)
    );
}

#[test]
fn unpack_transfer_reads_little_endian_amount() {
    assert_eq!(
        TokenInstruction::unpack(&[1, 0x10, 0x27, 0, 0, 0, 0, 0, 0]),
        Ok(TokenInstruction::Transfer { amount: 10_000 })
    );
    assert_eq!(
        TokenInstruction::unpack(&[1, 1, 2, 3, 4, 5, 6, 7, 8]),
        Ok(TokenInstruction::Transfer { amount: 0x0807_0605_0403_0201 })
    );
}

#[test]
fn unpack_transfer_agrees_with_std_on_extremes() {
    let mut bytes = vec![1u8];
    bytes.extend_from_slice(&u64::MAX.to_le_bytes());
    assert_eq!(TokenInstruction::unpack(&bytes), Ok(TokenInstruction::Transfer { amount: u64::MAX }));
    let mut zero = vec![1u8];
    zero.extend_from_slice(&0u64.to_le_bytes());
    assert_eq!(TokenInstruction::unpack(&zero), Ok(TokenInstruction::Transfer { amount: 0 }));
    let high = 1u64 << 63;
    let mut top = vec![1u8];
    top.extend_from_slice(&high.to_le_bytes());
    assert_eq!(TokenInstruction::unpack(&top), Ok(TokenInstruction::Transfer { amount: high }));
}

#[test]
fn unpack_transfer_ignores_trailing_bytes() {
    assert_eq!(
        TokenInstruction::unpack(&[1, 5, 0, 0, 0, 0, 0, 0, 0, 77, 78]),
        Ok(TokenInstruction::Transfer { amount: 5 })
    );
}

#[test]
fn unpack_transfer_rejects_short_amount() {
    assert_eq!(TokenInstruction::unpack(&[1]), Err(TokenError::InvalidInstructionData));
    assert_eq!(
        TokenInstruction::unpack(&[1, 1, 2, 3, 4, 5, 6, 7]),
        Err(TokenError::InvalidInstructionData)
    );
}

#[test]
fn tags_are_zero_and_one() {
    assert_eq!(TAG_INITIALIZE_ACCOUNT, 0);
    assert_eq!(TAG_TRANSFER, 1);
    assert_eq!(TOKEN_STATE_LEN, 73);
}

#[test]
fn route_picks_the_handler_of_the_variant() {
    assert_eq!(route(TokenInstruction::InitializeAccount), Handler::InitializeAccount);
    assert_eq!(route(TokenInstruction::Transfer { amount: 42 }), Handler::Transfer { amount: 42 });
}

#[test]
fn process_instruction_succeeds_on_decodable_data() {
    let program_id = [7u8; 32];
    let accounts = [AccountInfo { key: [1u8; 32] }, AccountInfo { key: [2u8; 32] }];
    assert_eq!(process_instruction(&program_id, &accounts, &[0]), Ok(()));
    assert_eq!(process_instruction(&program_id, &accounts, &[1, 1, 0, 0, 0, 0, 0, 0, 0]), Ok(()));
    assert_eq!(process_instruction(&program_id, &[], &[0]), Ok(()));
}

#[test]
fn process_instruction_reports_the_decoding_error() {
    let program_id = [7u8; 32];
    assert_eq!(
        process_instruction(&program_id, &[], &[]),
        Err(TokenError::InvalidInstructionData)
    );
    assert_eq!(
        process_instruction(&program_id, &[], &[1, 2, 3]),
        Err(TokenError::InvalidInstructionData)
    );
    assert_eq!(
        process_instruction(&program_id, &[], &[9]),
        Err(TokenError::InvalidInstructionData)
    );
}

#[test]
fn token_state_reports_initialization() {
    let fresh = TokenState { is_initialized: false, owner: [0u8; 32], total_supply: 0 };
    let live = TokenState { is_initialized: true, owner: [3u8; 32], total_supply: 1_000 };
    assert!(!fresh.is_initialized());
    assert!(live.is_initialized());
}
