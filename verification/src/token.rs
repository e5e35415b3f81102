//! Wire format of the sample token program's instructions.
//!
//! An instruction is a tag byte followed by the operands of the tagged
//! variant. Tag `0` is `InitializeAccount` and takes no operand. Tag `1` is
//! `Transfer`; its operand is the amount as eight little-endian bytes. Bytes
//! after the operands are ignored.

use vstd::prelude::*;

verus! {

/// Tag byte of [`TokenInstruction::InitializeAccount`].
pub const TAG_INITIALIZE_ACCOUNT: u8 = 0;

/// Tag byte of [`TokenInstruction::Transfer`].
pub const TAG_TRANSFER: u8 = 1;

/// Length in bytes of a packed [`TokenState`].
pub const TOKEN_STATE_LEN: usize = 73;

/// Why a token instruction was refused.
#[derive(Clone, Copy, Debug, PartialEq, Eq, Structural)]
pub enum TokenError {
    /// The instruction bytes are empty, carry an unknown tag, or are too short
    /// for the operands of the tagged variant.
    InvalidInstructionData,
}

/// The persistent state of one token mint.
#[derive(Clone, Copy, Debug, PartialEq, Eq)]
pub struct TokenState {
    pub is_initialized: bool,
    pub owner: [u8; 32],
    pub total_supply: u64,
}

impl TokenState {
    /// Whether the state has been set up by an `InitializeAccount`.
    pub fn is_initialized(&self) -> (res: bool)
        ensures
            res == self.is_initialized,
    {
        self.is_initialized
    }
}

/// One instruction of the token program.
#[derive(Clone, Copy, Debug, PartialEq, Eq, Structural)]
pub enum TokenInstruction {
    InitializeAccount,
    Transfer { amount: u64 },
}

/// The number that eight bytes stand for when read least significant byte
/// first. Only the first eight elements of `bytes` are read. The number fits
/// in 64 bits.
pub open spec fn le_u64(bytes: Seq<u8>) -> int
    recommends
        bytes.len() >= 8,
{
    bytes[0] as int
        + bytes[1] as int * 0x100
        + bytes[2] as int * 0x1_0000
        + bytes[3] as int * 0x100_0000
        + bytes[4] as int * 0x1_0000_0000
        + bytes[5] as int * 0x100_0000_0000
        + bytes[6] as int * 0x1_0000_0000_0000
        + bytes[7] as int * 0x100_0000_0000_0000
}

/// What a byte string decodes to.
pub open spec fn spec_unpack(input: Seq<u8>) -> Result<TokenInstruction, TokenError> {
    if input.len() == 0 {
        Err(TokenError::InvalidInstructionData)
    } else if input[0] == TAG_INITIALIZE_ACCOUNT {
        Ok(TokenInstruction::InitializeAccount)
    } else if input[0] == TAG_TRANSFER && input.len() >= 9 {
        Ok(TokenInstruction::Transfer { amount: le_u64(input.skip(1)) as u64 })
    } else {
        Err(TokenError::InvalidInstructionData)
    }
}

impl TokenInstruction {
    /// Decodes one instruction from its wire form.
    pub fn unpack(input: &[u8]) -> (res: Result<TokenInstruction, TokenError>)
        ensures
            res == spec_unpack(input@),
            res matches Ok(TokenInstruction::Transfer { amount }) ==> amount == le_u64(
                input@.skip(1),
            ),
    {
        if input.len() == 0 {
            return Err(TokenError::InvalidInstructionData);
        }
        let tag: u8 = input[0];
        if tag == TAG_INITIALIZE_ACCOUNT {
            Ok(TokenInstruction::InitializeAccount)
        } else if tag == TAG_TRANSFER && input.len() >= 9 {
            let amount: u64 = input[1] as u64
                + input[2] as u64 * 0x100
                + input[3] as u64 * 0x1_0000
                + input[4] as u64 * 0x100_0000
                + input[5] as u64 * 0x1_0000_0000
                + input[6] as u64 * 0x100_0000_0000
                + input[7] as u64 * 0x1_0000_0000_0000
                + input[8] as u64 * 0x100_0000_0000_0000;
            Ok(TokenInstruction::Transfer { amount })
        } else {
            Err(TokenError::InvalidInstructionData)
        }
    }
}

/// An account handed to the token program, reduced to its address.
#[derive(Clone, Copy, Debug, PartialEq, Eq)]
pub struct AccountInfo {
    pub key: [u8; 32],
}

/// The handler that an instruction is routed to.
#[derive(Clone, Copy, Debug, PartialEq, Eq, Structural)]
pub enum Handler {
    InitializeAccount,
    Transfer { amount: u64 },
}

/// The handler that serves an instruction.
pub open spec fn spec_route(instruction: TokenInstruction) -> Handler {
    match instruction {
        TokenInstruction::InitializeAccount => Handler::InitializeAccount,
        TokenInstruction::Transfer { amount } => Handler::Transfer { amount },
    }
}

/// Picks the handler for a decoded instruction.
pub fn route(instruction: TokenInstruction) -> (res: Handler)
    ensures
        res == spec_route(instruction),
{
    match instruction {
        TokenInstruction::InitializeAccount => Handler::InitializeAccount,
        TokenInstruction::Transfer { amount } => Handler::Transfer { amount },
    }
}

fn process_initialize_account(accounts: &[AccountInfo], program_id: &[u8; 32]) -> (res: Result<
    (),
    TokenError,
>)
    ensures
        res == Ok::<(), TokenError>(()),
{
    Ok(())
}

fn process_transfer(accounts: &[AccountInfo], amount: u64, program_id: &[u8; 32]) -> (res: Result<
    (),
    TokenError,
>)
    ensures
        res == Ok::<(), TokenError>(()),
{
    Ok(())
}

/// Entry point of the token program: decodes the instruction and runs its
/// handler. It succeeds exactly when the bytes decode, and otherwise reports
/// the decoding error.
pub fn process_instruction(
    program_id: &[u8; 32],
    accounts: &[AccountInfo],
    instruction_data: &[u8],
) -> (res: Result<(), TokenError>)
    ensures
        match spec_unpack(instruction_data@) {
            Ok(_) => res == Ok::<(), TokenError>(()),
            Err(e) => res == Err::<(), TokenError>(e),
        },
{
    match TokenInstruction::unpack(instruction_data) {
        Err(e) => Err(e),
        Ok(instruction) => match route(instruction) {
            Handler::InitializeAccount => process_initialize_account(accounts, program_id),
            Handler::Transfer { amount } => process_transfer(accounts, amount, program_id),
        },
    }
}

} // verus!
