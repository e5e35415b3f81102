//! The interface model: what a program offers to its clients, free of the
//! syntax it was declared in.

use vstd::prelude::*;

verus! {

/// The type of an argument or a field.
#[derive(Debug, PartialEq, Eq)]
pub enum SemanticType {
    U8,
    U16,
    U32,
    U64,
    U128,
    I8,
    I16,
    I32,
    I64,
    I128,
    Bool,
    /// Text of any length.
    Text,
    /// A byte array of the given length.
    Bytes(u64),
    /// A 32-byte address.
    Address,
    /// Another declared type, by name.
    Named(String),
    /// A sequence of any length.
    Sequence(Box<SemanticType>),
    /// A value that may be absent.
    Optional(Box<SemanticType>),
}

/// Mathematical model of [`SemanticType`].
pub enum SemanticTypeModel {
    U8,
    U16,
    U32,
    U64,
    U128,
    I8,
    I16,
    I32,
    I64,
    I128,
    Bool,
    Text,
    Bytes(u64),
    Address,
    Named(Seq<char>),
    Sequence(Box<SemanticTypeModel>),
    Optional(Box<SemanticTypeModel>),
}

/// The model of a semantic type.
pub open spec fn semantic_type_model(t: SemanticType) -> SemanticTypeModel
    decreases t,
{
    match t {
        SemanticType::U8 => SemanticTypeModel::U8,
        SemanticType::U16 => SemanticTypeModel::U16,
        SemanticType::U32 => SemanticTypeModel::U32,
        SemanticType::U64 => SemanticTypeModel::U64,
        SemanticType::U128 => SemanticTypeModel::U128,
        SemanticType::I8 => SemanticTypeModel::I8,
        SemanticType::I16 => SemanticTypeModel::I16,
        SemanticType::I32 => SemanticTypeModel::I32,
        SemanticType::I64 => SemanticTypeModel::I64,
        SemanticType::I128 => SemanticTypeModel::I128,
        SemanticType::Bool => SemanticTypeModel::Bool,
        SemanticType::Text => SemanticTypeModel::Text,
        SemanticType::Bytes(n) => SemanticTypeModel::Bytes(n),
        SemanticType::Address => SemanticTypeModel::Address,
        SemanticType::Named(n) => SemanticTypeModel::Named(n@),
        SemanticType::Sequence(inner) => SemanticTypeModel::Sequence(
            Box::new(semantic_type_model(*inner)),
        ),
        SemanticType::Optional(inner) => SemanticTypeModel::Optional(
            Box::new(semantic_type_model(*inner)),
        ),
    }
}

impl DeepView for SemanticType {
    type V = SemanticTypeModel;

    open spec fn deep_view(&self) -> SemanticTypeModel {
        semantic_type_model(*self)
    }
}

/// One argument of an instruction.
#[derive(Debug, PartialEq, Eq)]
pub struct Argument {
    pub name: String,
    pub ty: SemanticType,
}

/// Mathematical model of [`Argument`].
pub struct ArgumentModel {
    pub name: Seq<char>,
    pub ty: SemanticTypeModel,
}

impl DeepView for Argument {
    type V = ArgumentModel;

    open spec fn deep_view(&self) -> ArgumentModel {
        ArgumentModel { name: self.name@, ty: self.ty.deep_view() }
    }
}

/// One account that an instruction works on.
#[derive(Debug, PartialEq, Eq)]
pub struct AccountRef {
    pub name: String,
    /// The declared type of the data kept in the account, if it keeps any.
    pub account_type: Option<String>,
    pub is_mut: bool,
    pub is_signer: bool,
    /// Whether the instruction creates the account.
    pub is_init: bool,
}

/// Mathematical model of [`AccountRef`].
pub struct AccountRefModel {
    pub name: Seq<char>,
    pub account_type: Option<Seq<char>>,
    pub is_mut: bool,
    pub is_signer: bool,
    pub is_init: bool,
}

impl DeepView for AccountRef {
    type V = AccountRefModel;

    open spec fn deep_view(&self) -> AccountRefModel {
        AccountRefModel {
            name: self.name@,
            account_type: self.account_type.deep_view(),
            is_mut: self.is_mut,
            is_signer: self.is_signer,
            is_init: self.is_init,
        }
    }
}

/// One entry point of a program. The order of `accounts` is the order of the
/// account list on the wire.
#[derive(Debug, PartialEq, Eq)]
pub struct Instruction {
    pub name: String,
    pub args: Vec<Argument>,
    pub accounts: Vec<AccountRef>,
}

/// Mathematical model of [`Instruction`].
pub struct InstructionModel {
    pub name: Seq<char>,
    pub args: Seq<ArgumentModel>,
    pub accounts: Seq<AccountRefModel>,
}

impl DeepView for Instruction {
    type V = InstructionModel;

    open spec fn deep_view(&self) -> InstructionModel {
        InstructionModel {
            name: self.name@,
            args: self.args.deep_view(),
            accounts: self.accounts.deep_view(),
        }
    }
}

/// One field of a stored record.
#[derive(Debug, PartialEq, Eq)]
pub struct Field {
    pub name: String,
    pub ty: SemanticType,
}

/// Mathematical model of [`Field`].
pub struct FieldModel {
    pub name: Seq<char>,
    pub ty: SemanticTypeModel,
}

impl DeepView for Field {
    type V = FieldModel;

    open spec fn deep_view(&self) -> FieldModel {
        FieldModel { name: self.name@, ty: self.ty.deep_view() }
    }
}

/// A record kept in an account. The order of `fields` is the order of their
/// bytes in the stored form.
#[derive(Debug, PartialEq, Eq)]
pub struct AccountType {
    pub name: String,
    pub fields: Vec<Field>,
    /// The length of the stored form in bytes, where every field has a fixed
    /// length.
    pub size: Option<u64>,
}

/// Mathematical model of [`AccountType`].
pub struct AccountTypeModel {
    pub name: Seq<char>,
    pub fields: Seq<FieldModel>,
    pub size: Option<u64>,
}

impl DeepView for AccountType {
    type V = AccountTypeModel;

    open spec fn deep_view(&self) -> AccountTypeModel {
        AccountTypeModel {
            name: self.name@,
            fields: self.fields.deep_view(),
            size: self.size,
        }
    }
}

/// One error that a program reports, with the number it reports it by.
#[derive(Debug, PartialEq, Eq)]
pub struct ErrorVariant {
    pub discriminant: u32,
    pub name: String,
    pub message: Option<String>,
}

/// Mathematical model of [`ErrorVariant`].
pub struct ErrorVariantModel {
    pub discriminant: u32,
    pub name: Seq<char>,
    pub message: Option<Seq<char>>,
}

impl DeepView for ErrorVariant {
    type V = ErrorVariantModel;

    open spec fn deep_view(&self) -> ErrorVariantModel {
        ErrorVariantModel {
            discriminant: self.discriminant,
            name: self.name@,
            message: self.message.deep_view(),
        }
    }
}

/// The interface of one program.
#[derive(Debug, PartialEq, Eq)]
pub struct Program {
    pub name: String,
    pub instructions: Vec<Instruction>,
    pub account_types: Vec<AccountType>,
    pub state_types: Vec<AccountType>,
    pub errors: Vec<ErrorVariant>,
}

/// Mathematical model of [`Program`].
pub struct ProgramModel {
    pub name: Seq<char>,
    pub instructions: Seq<InstructionModel>,
    pub account_types: Seq<AccountTypeModel>,
    pub state_types: Seq<AccountTypeModel>,
    pub errors: Seq<ErrorVariantModel>,
}

impl DeepView for Program {
    type V = ProgramModel;

    open spec fn deep_view(&self) -> ProgramModel {
        ProgramModel {
            name: self.name@,
            instructions: self.instructions.deep_view(),
            account_types: self.account_types.deep_view(),
            state_types: self.state_types.deep_view(),
            errors: self.errors.deep_view(),
        }
    }
}

/// Whether no two of the instructions bear the same name.
pub open spec fn instruction_names_differ(instructions: Seq<InstructionModel>) -> bool {
    forall|i: int, j: int|
        0 <= i < j < instructions.len() ==> (#[trigger] instructions[i]).name
            != (#[trigger] instructions[j]).name
}

impl ProgramModel {
    /// What holds of every program that extraction yields: no two of its
    /// instructions bear the same name.
    pub open spec fn well_formed(self) -> bool {
        instruction_names_differ(self.instructions)
    }
}

/// The interfaces of the programs of one workspace.
#[derive(Debug, PartialEq, Eq)]
pub struct Idl {
    pub programs: Vec<Program>,
}

/// Mathematical model of [`Idl`].
pub struct IdlModel {
    pub programs: Seq<ProgramModel>,
}

impl DeepView for Idl {
    type V = IdlModel;

    open spec fn deep_view(&self) -> IdlModel {
        IdlModel { programs: self.programs.deep_view() }
    }
}

} // verus!
