//! The interface extractor: from the declarations of a module to the
//! interface model of the program.
//!
//! What extraction yields is defined by [`spec_extract`]. The executable
//! [`parse_to_idl_program`] computes exactly that.

use crate::collect::{collect, lemma_collect_failure, lemma_collect_step, result_model};
use crate::conventions::{Conventions, ConventionsModel};
use crate::idl::{
    AccountRef, AccountRefModel, AccountType, AccountTypeModel, Argument, ArgumentModel,
    ErrorVariant, ErrorVariantModel, Field, FieldModel, Instruction, InstructionModel, Program,
    ProgramModel, SemanticType, SemanticTypeModel, instruction_names_differ,
};
use crate::syntax::{
    FieldDecl, FieldDeclModel, FunctionDecl, FunctionDeclModel, Item, ItemModel, Module,
    ModuleModel, ParamModel, RecordDecl, RecordDeclModel, TypeExpr, TypeExprModel, VariantDeclModel,
    type_expr_model,
};
use crate::text::{contains_text, decimal_text, push_decimal, text_is};
use vstd::prelude::*;

verus! {

/// Why a module has no interface model.
#[derive(Debug, PartialEq, Eq)]
pub enum ExtractError {
    /// A type name that is neither built in nor declared in the module,
    /// with the function or record that uses it.
    UnresolvedType { name: String, owner: String },
    /// An array of anything but bytes, with the function or record that uses
    /// it.
    UnsupportedArray { owner: String },
    /// An entry point whose context names no declared context record.
    UnknownContext { instruction: String, context: String },
    /// Two entry points of the same name, with their positions among the
    /// entry points of the module, counted from 0.
    DuplicateInstruction { name: String, first: usize, second: usize },
    /// The first error variant whose discriminant exceeds 32 bits.
    DiscriminantOverflow { variant: String },
}

/// Mathematical model of [`ExtractError`].
pub enum ExtractErrorModel {
    UnresolvedType { name: Seq<char>, owner: Seq<char> },
    UnsupportedArray { owner: Seq<char> },
    UnknownContext { instruction: Seq<char>, context: Seq<char> },
    DuplicateInstruction { name: Seq<char>, first: usize, second: usize },
    DiscriminantOverflow { variant: Seq<char> },
}

impl DeepView for ExtractError {
    type V = ExtractErrorModel;

    open spec fn deep_view(&self) -> ExtractErrorModel {
        match self {
            ExtractError::UnresolvedType { name, owner } => ExtractErrorModel::UnresolvedType {
                name: name@,
                owner: owner@,
            },
            ExtractError::UnsupportedArray { owner } => ExtractErrorModel::UnsupportedArray {
                owner: owner@,
            },
            ExtractError::UnknownContext {
                instruction,
                context,
            } => ExtractErrorModel::UnknownContext { instruction: instruction@, context: context@ },
            ExtractError::DuplicateInstruction {
                name,
                first,
                second,
            } => ExtractErrorModel::DuplicateInstruction {
                name: name@,
                first: *first,
                second: *second,
            },
            ExtractError::DiscriminantOverflow {
                variant,
            } => ExtractErrorModel::DiscriminantOverflow { variant: variant@ },
        }
    }
}

/// What a record is declared as.
#[derive(Clone, Copy, Debug, PartialEq, Eq, Structural)]
pub enum Role {
    /// The accounts of an entry point.
    Context,
    /// A record kept in an account.
    Account,
    /// A record of program state.
    State,
    /// None of these.
    Plain,
}

/// The outermost name of a type expression.
pub open spec fn head_name(t: TypeExprModel) -> Seq<char>
    decreases t,
{
    match t {
        TypeExprModel::Name(n) => n,
        TypeExprModel::Apply(n, _) => n,
        TypeExprModel::Array(elem, _) => head_name(*elem),
        TypeExprModel::Opaque(text) => text,
    }
}

/// The names of the records and enumerations that a module declares, in
/// source order. A type name resolves if it is built in or stands in this
/// table, wherever in the module its declaration stands.
pub open spec fn type_table(items: Seq<ItemModel>) -> Seq<Seq<char>>
    decreases items.len(),
{
    if items.len() == 0 {
        Seq::empty()
    } else {
        let front = type_table(items.drop_last());
        match items.last() {
            ItemModel::Record(r) => front.push(r.name),
            ItemModel::Enumeration(e) => front.push(e.name),
            _ => front,
        }
    }
}

/// The built-in type that a name stands for, if it stands for one.
pub open spec fn primitive_type(name: Seq<char>) -> Option<SemanticTypeModel> {
    if name == "u8"@ {
        Some(SemanticTypeModel::U8)
    } else if name == "u16"@ {
        Some(SemanticTypeModel::U16)
    } else if name == "u32"@ {
        Some(SemanticTypeModel::U32)
    } else if name == "u64"@ {
        Some(SemanticTypeModel::U64)
    } else if name == "u128"@ {
        Some(SemanticTypeModel::U128)
    } else if name == "i8"@ {
        Some(SemanticTypeModel::I8)
    } else if name == "i16"@ {
        Some(SemanticTypeModel::I16)
    } else if name == "i32"@ {
        Some(SemanticTypeModel::I32)
    } else if name == "i64"@ {
        Some(SemanticTypeModel::I64)
    } else if name == "i128"@ {
        Some(SemanticTypeModel::I128)
    } else if name == "bool"@ {
        Some(SemanticTypeModel::Bool)
    } else if name == "String"@ {
        Some(SemanticTypeModel::Text)
    } else if name == "Pubkey"@ {
        Some(SemanticTypeModel::Address)
    } else {
        None
    }
}

/// The semantic type that a type expression stands for. `owner` is the
/// function or record that the expression is written in.
pub open spec fn resolve_type(t: TypeExprModel, table: Seq<Seq<char>>, owner: Seq<char>) -> Result<
    SemanticTypeModel,
    ExtractErrorModel,
>
    decreases t,
{
    match t {
        TypeExprModel::Name(name) => match primitive_type(name) {
            Some(p) => Ok(p),
            None => if table.contains(name) {
                Ok(SemanticTypeModel::Named(name))
            } else {
                Err(ExtractErrorModel::UnresolvedType { name, owner })
            },
        },
        TypeExprModel::Apply(name, arg) => if name == "Vec"@ {
            match resolve_type(*arg, table, owner) {
                Ok(inner) => Ok(SemanticTypeModel::Sequence(Box::new(inner))),
                Err(e) => Err(e),
            }
        } else if name == "Option"@ {
            match resolve_type(*arg, table, owner) {
                Ok(inner) => Ok(SemanticTypeModel::Optional(Box::new(inner))),
                Err(e) => Err(e),
            }
        } else {
            Err(ExtractErrorModel::UnresolvedType { name, owner })
        },
        TypeExprModel::Array(elem, len) => if *elem == TypeExprModel::Name("u8"@) {
            Ok(SemanticTypeModel::Bytes(len))
        } else {
            Err(ExtractErrorModel::UnsupportedArray { owner })
        },
        TypeExprModel::Opaque(text) => Err(ExtractErrorModel::UnresolvedType { name: text, owner }),
    }
}

/// The argument that a parameter of the entry point `owner` declares.
pub open spec fn argument_of(p: ParamModel, table: Seq<Seq<char>>, owner: Seq<char>) -> Result<
    Option<ArgumentModel>,
    ExtractErrorModel,
> {
    match resolve_type(p.ty, table, owner) {
        Ok(ty) => Ok(Some(ArgumentModel { name: p.name, ty })),
        Err(e) => Err(e),
    }
}

/// [`argument_of`] as a step over parameters.
pub open spec fn argument_step(table: Seq<Seq<char>>, owner: Seq<char>) -> spec_fn(
    ParamModel,
) -> Result<Option<ArgumentModel>, ExtractErrorModel> {
    |p: ParamModel| argument_of(p, table, owner)
}

/// The declared record that an account of the given type keeps, if the type
/// says so. An account keeps a record where its type is the account wrapper
/// applied to the record's name.
pub open spec fn bound_record(
    t: TypeExprModel,
    table: Seq<Seq<char>>,
    conv: ConventionsModel,
    owner: Seq<char>,
) -> Result<Option<Seq<char>>, ExtractErrorModel> {
    match t {
        TypeExprModel::Apply(wrapper, arg) => if wrapper == conv.account_wrapper {
            match *arg {
                TypeExprModel::Name(name) => if table.contains(name) {
                    Ok(Some(name))
                } else {
                    Err(ExtractErrorModel::UnresolvedType { name, owner })
                },
                _ => Err(ExtractErrorModel::UnresolvedType { name: head_name(*arg), owner }),
            }
        } else {
            Ok(None)
        },
        _ => Ok(None),
    }
}

/// The account that a field of the context record `owner` declares. The
/// flags are read off the field's markers; an account of the signer type
/// signs without a marker.
pub open spec fn account_of(
    field: FieldDeclModel,
    table: Seq<Seq<char>>,
    conv: ConventionsModel,
    owner: Seq<char>,
) -> Result<Option<AccountRefModel>, ExtractErrorModel> {
    match bound_record(field.ty, table, conv, owner) {
        Err(e) => Err(e),
        Ok(account_type) => Ok(
            Some(
                AccountRefModel {
                    name: field.name,
                    account_type,
                    is_mut: field.markers.contains(conv.mutable_marker),
                    is_signer: field.markers.contains(conv.signer_marker) || head_name(field.ty)
                        == conv.signer_wrapper,
                    is_init: field.markers.contains(conv.init_marker),
                },
            ),
        ),
    }
}

/// [`account_of`] as a step over fields.
pub open spec fn account_step(
    table: Seq<Seq<char>>,
    conv: ConventionsModel,
    owner: Seq<char>,
) -> spec_fn(FieldDeclModel) -> Result<Option<AccountRefModel>, ExtractErrorModel> {
    |field: FieldDeclModel| account_of(field, table, conv, owner)
}

/// What a record is declared as. Where several tags are written, the
/// context tag goes before the account tag, and that before the state tag.
pub open spec fn record_role(r: RecordDeclModel, conv: ConventionsModel) -> Role {
    if r.tags.contains(conv.context_tag) {
        Role::Context
    } else if r.tags.contains(conv.account_tag) {
        Role::Account
    } else if r.tags.contains(conv.state_tag) {
        Role::State
    } else {
        Role::Plain
    }
}

/// Whether an item is the context record of the given name.
pub open spec fn is_context_named(item: ItemModel, name: Seq<char>, conv: ConventionsModel) -> bool {
    item matches ItemModel::Record(r) && r.name == name && record_role(r, conv) == Role::Context
}

/// The first context record of the given name.
pub open spec fn find_context(items: Seq<ItemModel>, name: Seq<char>, conv: ConventionsModel) -> Option<
    RecordDeclModel,
>
    decreases items.len(),
{
    if items.len() == 0 {
        None
    } else if is_context_named(items[0], name, conv) {
        Some(items[0]->Record_0)
    } else {
        find_context(items.drop_first(), name, conv)
    }
}

/// Whether a function is an entry point: it is public and its first
/// parameter is the context carrier applied to some type.
pub open spec fn is_entry_point(f: FunctionDeclModel, conv: ConventionsModel) -> bool {
    &&& f.is_public
    &&& f.params.len() > 0
    &&& f.params[0].ty matches TypeExprModel::Apply(carrier, _)
    &&& carrier == conv.context_carrier
}

/// The context record that an entry point names, if it names one that is
/// declared.
pub open spec fn context_of(
    f: FunctionDeclModel,
    items: Seq<ItemModel>,
    conv: ConventionsModel,
) -> Option<RecordDeclModel>
    recommends
        is_entry_point(f, conv),
{
    match f.params[0].ty {
        TypeExprModel::Apply(_, arg) => match *arg {
            TypeExprModel::Name(name) => find_context(items, name, conv),
            _ => None,
        },
        _ => None,
    }
}

/// The instruction that an item declares. An item that is no entry point
/// declares none. The arguments are the parameters after the first, in
/// order; the accounts are the fields of the context record, in order.
pub open spec fn instruction_of(
    item: ItemModel,
    items: Seq<ItemModel>,
    table: Seq<Seq<char>>,
    conv: ConventionsModel,
) -> Result<Option<InstructionModel>, ExtractErrorModel> {
    match item {
        ItemModel::Function(f) => if !is_entry_point(f, conv) {
            Ok(None)
        } else {
            match context_of(f, items, conv) {
                None => Err(
                    ExtractErrorModel::UnknownContext {
                        instruction: f.name,
                        context: head_name(*f.params[0].ty->Apply_1),
                    },
                ),
                Some(context) => match collect(f.params.skip(1), argument_step(table, f.name)) {
                    Err(e) => Err(e),
                    Ok(args) => match collect(
                        context.fields,
                        account_step(table, conv, context.name),
                    ) {
                        Err(e) => Err(e),
                        Ok(accounts) => Ok(Some(InstructionModel { name: f.name, args, accounts })),
                    },
                },
            }
        },
        _ => Ok(None),
    }
}

/// [`instruction_of`] as a step over items.
pub open spec fn instruction_step(
    items: Seq<ItemModel>,
    table: Seq<Seq<char>>,
    conv: ConventionsModel,
) -> spec_fn(ItemModel) -> Result<Option<InstructionModel>, ExtractErrorModel> {
    |item: ItemModel| instruction_of(item, items, table, conv)
}

/// Whether an instruction of the given name is among `instructions`.
pub open spec fn has_instruction(instructions: Seq<InstructionModel>, name: Seq<char>) -> bool {
    exists|i: int| 0 <= i < instructions.len() && (#[trigger] instructions[i]).name == name
}

/// The position of the first instruction of the given name; the number of
/// instructions if none bears it.
pub open spec fn position_of(instructions: Seq<InstructionModel>, name: Seq<char>) -> int
    decreases instructions.len(),
{
    if instructions.len() == 0 {
        0
    } else if instructions[0].name == name {
        0
    } else {
        1 + position_of(instructions.drop_first(), name)
    }
}

/// The positions of two instructions of one name: the later one is the
/// first instruction that bears the name of an instruction before it, the
/// earlier one is the first instruction of that name.
pub open spec fn first_repeat(instructions: Seq<InstructionModel>) -> Option<(int, int)>
    decreases instructions.len(),
{
    if instructions.len() == 0 {
        None
    } else {
        let front = instructions.drop_last();
        match first_repeat(front) {
            Some(found) => Some(found),
            None => if has_instruction(front, instructions.last().name) {
                Some((position_of(front, instructions.last().name), instructions.len() - 1))
            } else {
                None
            },
        }
    }
}

/// The field of a stored record that a declared field of the record `owner`
/// stands for.
pub open spec fn field_of(field: FieldDeclModel, table: Seq<Seq<char>>, owner: Seq<char>) -> Result<
    Option<FieldModel>,
    ExtractErrorModel,
> {
    match resolve_type(field.ty, table, owner) {
        Ok(ty) => Ok(Some(FieldModel { name: field.name, ty })),
        Err(e) => Err(e),
    }
}

/// [`field_of`] as a step over fields.
pub open spec fn field_step(table: Seq<Seq<char>>, owner: Seq<char>) -> spec_fn(
    FieldDeclModel,
) -> Result<Option<FieldModel>, ExtractErrorModel> {
    |field: FieldDeclModel| field_of(field, table, owner)
}

/// The number of bytes that a value of the type takes in stored form, where
/// every value of the type takes the same number.
pub open spec fn type_size(t: SemanticTypeModel) -> Option<nat> {
    match t {
        SemanticTypeModel::U8 | SemanticTypeModel::I8 | SemanticTypeModel::Bool => Some(1),
        SemanticTypeModel::U16 | SemanticTypeModel::I16 => Some(2),
        SemanticTypeModel::U32 | SemanticTypeModel::I32 => Some(4),
        SemanticTypeModel::U64 | SemanticTypeModel::I64 => Some(8),
        SemanticTypeModel::U128 | SemanticTypeModel::I128 => Some(16),
        SemanticTypeModel::Bytes(n) => Some(n as nat),
        SemanticTypeModel::Address => Some(32),
        _ => None,
    }
}

/// The number of bytes that the fields take together, where each takes a
/// fixed number.
pub open spec fn fields_size(fields: Seq<FieldModel>) -> Option<nat>
    decreases fields.len(),
{
    if fields.len() == 0 {
        Some(0)
    } else {
        match (fields_size(fields.drop_last()), type_size(fields.last().ty)) {
            (Some(a), Some(b)) => Some(a + b),
            _ => None,
        }
    }
}

/// The length of a stored record: the discriminator and the fields. There
/// is none where a field has no fixed length or the sum exceeds 64 bits.
pub open spec fn record_size(fields: Seq<FieldModel>, discriminator_size: u64) -> Option<u64> {
    match fields_size(fields) {
        Some(n) => if discriminator_size + n <= u64::MAX {
            Some((discriminator_size + n) as u64)
        } else {
            None
        },
        None => None,
    }
}

/// The stored record that an item declares in the given role. An item that
/// is no record of that role declares none.
pub open spec fn record_type_of(
    item: ItemModel,
    role: Role,
    table: Seq<Seq<char>>,
    conv: ConventionsModel,
) -> Result<Option<AccountTypeModel>, ExtractErrorModel> {
    match item {
        ItemModel::Record(r) => if record_role(r, conv) != role {
            Ok(None)
        } else {
            match collect(r.fields, field_step(table, r.name)) {
                Err(e) => Err(e),
                Ok(fields) => Ok(
                    Some(
                        AccountTypeModel {
                            name: r.name,
                            fields,
                            size: record_size(fields, conv.discriminator_size),
                        },
                    ),
                ),
            }
        },
        _ => Ok(None),
    }
}

/// [`record_type_of`] as a step over items.
pub open spec fn record_step(role: Role, table: Seq<Seq<char>>, conv: ConventionsModel) -> spec_fn(
    ItemModel,
) -> Result<Option<AccountTypeModel>, ExtractErrorModel> {
    |item: ItemModel| record_type_of(item, role, table, conv)
}

/// The variants of the error enumerations of a module, in source order.
pub open spec fn error_variants(items: Seq<ItemModel>, conv: ConventionsModel) -> Seq<
    VariantDeclModel,
>
    decreases items.len(),
{
    if items.len() == 0 {
        Seq::empty()
    } else {
        let front = error_variants(items.drop_last(), conv);
        match items.last() {
            ItemModel::Enumeration(e) => if e.tags.contains(conv.error_tag) {
                front + e.variants
            } else {
                front
            },
            _ => front,
        }
    }
}

/// The error at position `i` of the declared variants.
pub open spec fn numbered_variant(variants: Seq<VariantDeclModel>, base: u32, i: int) -> ErrorVariantModel {
    ErrorVariantModel {
        discriminant: (base + i) as u32,
        name: variants[i].name,
        message: variants[i].message,
    }
}

/// The declared variants with their discriminants: the variant at position
/// `i` gets `base + i`. Where a discriminant exceeds 32 bits, the first
/// variant that it happens to is reported.
pub open spec fn number_variants(variants: Seq<VariantDeclModel>, base: u32) -> Result<
    Seq<ErrorVariantModel>,
    ExtractErrorModel,
> {
    if base + variants.len() <= u32::MAX + 1 {
        Ok(Seq::new(variants.len(), |i: int| numbered_variant(variants, base, i)))
    } else {
        Err(
            ExtractErrorModel::DiscriminantOverflow {
                variant: variants[u32::MAX - base + 1].name,
            },
        )
    }
}

/// The interface model of a module, or the first reason why it has none.
/// Instructions are looked at first, then the records kept in accounts, the
/// records of program state, and the errors.
pub open spec fn spec_extract(name: Seq<char>, module: ModuleModel, conv: ConventionsModel) -> Result<
    ProgramModel,
    ExtractErrorModel,
> {
    let items = module.items;
    let table = type_table(items);
    match collect(items, instruction_step(items, table, conv)) {
        Err(e) => Err(e),
        Ok(instructions) => match first_repeat(instructions) {
            Some(found) => Err(
                ExtractErrorModel::DuplicateInstruction {
                    name: instructions[found.1].name,
                    first: found.0 as usize,
                    second: found.1 as usize,
                },
            ),
            None => match collect(items, record_step(Role::Account, table, conv)) {
                Err(e) => Err(e),
                Ok(account_types) => match collect(items, record_step(Role::State, table, conv)) {
                    Err(e) => Err(e),
                    Ok(state_types) => match number_variants(
                        error_variants(items, conv),
                        conv.error_base,
                    ) {
                        Err(e) => Err(e),
                        Ok(errors) => Ok(
                            ProgramModel { name, instructions, account_types, state_types, errors },
                        ),
                    },
                },
            },
        },
    }
}

/// The built-in type that a name stands for, if it stands for one.
fn primitive(name: &String) -> (res: Option<SemanticType>)
    ensures
        res.deep_view() == primitive_type(name@),
{
    if text_is(name, "u8") {
        Some(SemanticType::U8)
    } else if text_is(name, "u16") {
        Some(SemanticType::U16)
    } else if text_is(name, "u32") {
        Some(SemanticType::U32)
    } else if text_is(name, "u64") {
        Some(SemanticType::U64)
    } else if text_is(name, "u128") {
        Some(SemanticType::U128)
    } else if text_is(name, "i8") {
        Some(SemanticType::I8)
    } else if text_is(name, "i16") {
        Some(SemanticType::I16)
    } else if text_is(name, "i32") {
        Some(SemanticType::I32)
    } else if text_is(name, "i64") {
        Some(SemanticType::I64)
    } else if text_is(name, "i128") {
        Some(SemanticType::I128)
    } else if text_is(name, "bool") {
        Some(SemanticType::Bool)
    } else if text_is(name, "String") {
        Some(SemanticType::Text)
    } else if text_is(name, "Pubkey") {
        Some(SemanticType::Address)
    } else {
        None
    }
}

/// Whether a type expression is the byte type.
fn is_byte(t: &TypeExpr) -> (res: bool)
    ensures
        res == (t.deep_view() == TypeExprModel::Name("u8"@)),
{
    match t {
        TypeExpr::Name(name) => text_is(name, "u8"),
        _ => false,
    }
}

/// The outermost name of a type expression.
fn head<'a>(t: &'a TypeExpr) -> (res: &'a String)
    ensures
        res@ == head_name(t.deep_view()),
    decreases t,
{
    match t {
        TypeExpr::Name(name) => name,
        TypeExpr::Apply(name, _) => name,
        TypeExpr::Array(elem, _) => head(elem),
        TypeExpr::Opaque(text) => text,
    }
}

/// Resolves a type expression written in the function or record `owner`
/// against the table of declared names.
pub fn resolve(t: &TypeExpr, table: &Vec<String>, owner: &String) -> (res: Result<
    SemanticType,
    ExtractError,
>)
    ensures
        result_model(res) == resolve_type(t.deep_view(), table.deep_view(), owner@),
    decreases t,
{
    match t {
        TypeExpr::Name(name) => match primitive(name) {
            Some(p) => Ok(p),
            None => if contains_text(table, name) {
                Ok(SemanticType::Named(name.clone()))
            } else {
                Err(ExtractError::UnresolvedType { name: name.clone(), owner: owner.clone() })
            },
        },
        TypeExpr::Apply(name, arg) => if text_is(name, "Vec") {
            match resolve(arg, table, owner) {
                Ok(inner) => Ok(SemanticType::Sequence(Box::new(inner))),
                Err(e) => Err(e),
            }
        } else if text_is(name, "Option") {
            match resolve(arg, table, owner) {
                Ok(inner) => Ok(SemanticType::Optional(Box::new(inner))),
                Err(e) => Err(e),
            }
        } else {
            Err(ExtractError::UnresolvedType { name: name.clone(), owner: owner.clone() })
        },
        TypeExpr::Array(elem, len) => if is_byte(elem) {
            Ok(SemanticType::Bytes(*len))
        } else {
            Err(ExtractError::UnsupportedArray { owner: owner.clone() })
        },
        TypeExpr::Opaque(text) => Err(
            ExtractError::UnresolvedType { name: text.clone(), owner: owner.clone() },
        ),
    }
}

/// Builds the table of declared names.
fn build_type_table(items: &Vec<Item>) -> (table: Vec<String>)
    ensures
        table.deep_view() == type_table(items.deep_view()),
{
    let mut table: Vec<String> = Vec::new();
    let mut i: usize = 0;
    while i < items.len()
        invariant
            i <= items.len(),
            table.deep_view() == type_table(items.deep_view().take(i as int)),
        decreases items.len() - i,
    {
        let ghost before = table.deep_view();
        proof {
            assert(items.deep_view().take(i + 1).drop_last() =~= items.deep_view().take(i as int));
        }
        match &items[i] {
            Item::Record(r) => {
                table.push(r.name.clone());
                assert(table.deep_view() =~= before.push(r.name@));
            },
            Item::Enumeration(e) => {
                table.push(e.name.clone());
                assert(table.deep_view() =~= before.push(e.name@));
            },
            _ => {},
        }
        i += 1;
    }
    proof {
        assert(items.deep_view().take(items.len() as int) =~= items.deep_view());
    }
    table
}

/// What a record is declared as.
fn role_of(r: &RecordDecl, conv: &Conventions) -> (res: Role)
    ensures
        res == record_role(r.deep_view(), conv.deep_view()),
{
    if contains_text(&r.tags, &conv.context_tag) {
        Role::Context
    } else if contains_text(&r.tags, &conv.account_tag) {
        Role::Account
    } else if contains_text(&r.tags, &conv.state_tag) {
        Role::State
    } else {
        Role::Plain
    }
}

/// Looks up the first context record of the given name.
fn find_context_record<'a>(items: &'a Vec<Item>, name: &String, conv: &Conventions) -> (res:
    Option<&'a RecordDecl>)
    ensures
        res.deep_view() == find_context(items.deep_view(), name@, conv.deep_view()),
{
    let mut i: usize = 0;
    proof {
        assert(items.deep_view().skip(0) =~= items.deep_view());
    }
    while i < items.len()
        invariant
            i <= items.len(),
            find_context(items.deep_view(), name@, conv.deep_view()) == find_context(
                items.deep_view().skip(i as int),
                name@,
                conv.deep_view(),
            ),
        decreases items.len() - i,
    {
        proof {
            assert(items.deep_view().skip(i as int).drop_first() =~= items.deep_view().skip(
                i + 1,
            ));
            assert(items.deep_view().skip(i as int)[0] == items[i as int].deep_view());
        }
        match &items[i] {
            Item::Record(r) => {
                if r.name == *name {
                    match role_of(r, conv) {
                        Role::Context => {
                            return Some(r);
                        },
                        _ => {},
                    }
                }
            },
            _ => {},
        }
        i += 1;
    }
    None
}

/// The arguments that the parameters after the first declare.
fn extract_arguments(f: &FunctionDecl, table: &Vec<String>) -> (res: Result<
    Vec<Argument>,
    ExtractError,
>)
    requires
        f.params.len() > 0,
    ensures
        result_model(res) == collect(
            f.deep_view().params.skip(1),
            argument_step(table.deep_view(), f.name@),
        ),
{
    let ghost rest = f.deep_view().params.skip(1);
    let ghost step = argument_step(table.deep_view(), f.name@);
    let mut args: Vec<Argument> = Vec::new();
    let mut i: usize = 1;
    proof {
        assert(args.deep_view() =~= Seq::empty());
    }
    while i < f.params.len()
        invariant
            1 <= i <= f.params.len(),
            rest == f.deep_view().params.skip(1),
            step == argument_step(table.deep_view(), f.name@),
            collect(rest.take(i - 1), step) == Ok::<Seq<ArgumentModel>, ExtractErrorModel>(
                args.deep_view(),
            ),
        decreases f.params.len() - i,
    {
        let ghost before = args.deep_view();
        proof {
            lemma_collect_step(rest, i - 1, step);
            assert(rest[i - 1] == f.params[i as int].deep_view());
        }
        let p = &f.params[i];
        match resolve(&p.ty, table, &f.name) {
            Err(e) => {
                proof {
                    lemma_collect_failure(rest, i as int, step);
                }
                return Err(e);
            },
            Ok(ty) => {
                args.push(Argument { name: p.name.clone(), ty });
                assert(args.deep_view() =~= before.push(
                    ArgumentModel { name: p.name@, ty: ty.deep_view() },
                ));
            },
        }
        i += 1;
    }
    proof {
        assert(rest.take(f.params.len() - 1) =~= rest);
    }
    Ok(args)
}

/// The declared record that an account of the given type keeps.
fn bind_record(t: &TypeExpr, table: &Vec<String>, conv: &Conventions, owner: &String) -> (res:
    Result<Option<String>, ExtractError>)
    ensures
        result_model(res) == bound_record(
            t.deep_view(),
            table.deep_view(),
            conv.deep_view(),
            owner@,
        ),
{
    match t {
        TypeExpr::Apply(wrapper, arg) => if *wrapper == conv.account_wrapper {
            let inner: &TypeExpr = arg;
            proof {
                reveal_with_fuel(type_expr_model, 2);
            }
            match inner {
                TypeExpr::Name(name) => if contains_text(table, name) {
                    Ok(Some(name.clone()))
                } else {
                    Err(ExtractError::UnresolvedType { name: name.clone(), owner: owner.clone() })
                },
                _ => Err(
                    ExtractError::UnresolvedType {
                        name: head(inner).clone(),
                        owner: owner.clone(),
                    },
                ),
            }
        } else {
            Ok(None)
        },
        _ => Ok(None),
    }
}

/// The account that a field of the context record `owner` declares.
fn extract_account(field: &FieldDecl, table: &Vec<String>, conv: &Conventions, owner: &String) -> (res:
    Result<AccountRef, ExtractError>)
    ensures
        match res {
            Ok(account) => account_of(
                field.deep_view(),
                table.deep_view(),
                conv.deep_view(),
                owner@,
            ) == Ok::<Option<AccountRefModel>, ExtractErrorModel>(Some(account.deep_view())),
            Err(e) => account_of(field.deep_view(), table.deep_view(), conv.deep_view(), owner@)
                == Err::<Option<AccountRefModel>, ExtractErrorModel>(e.deep_view()),
        },
{
    match bind_record(&field.ty, table, conv, owner) {
        Err(e) => Err(e),
        Ok(account_type) => {
            let is_mut = contains_text(&field.markers, &conv.mutable_marker);
            let marked_signer = contains_text(&field.markers, &conv.signer_marker);
            let is_signer = marked_signer || *head(&field.ty) == conv.signer_wrapper;
            let is_init = contains_text(&field.markers, &conv.init_marker);
            Ok(AccountRef { name: field.name.clone(), account_type, is_mut, is_signer, is_init })
        },
    }
}

/// The accounts that the fields of a context record declare.
fn extract_accounts(context: &RecordDecl, table: &Vec<String>, conv: &Conventions) -> (res: Result<
    Vec<AccountRef>,
    ExtractError,
>)
    ensures
        result_model(res) == collect(
            context.deep_view().fields,
            account_step(table.deep_view(), conv.deep_view(), context.name@),
        ),
{
    let ghost fields = context.deep_view().fields;
    let ghost step = account_step(table.deep_view(), conv.deep_view(), context.name@);
    let mut accounts: Vec<AccountRef> = Vec::new();
    let mut i: usize = 0;
    proof {
        assert(accounts.deep_view() =~= Seq::empty());
    }
    while i < context.fields.len()
        invariant
            i <= context.fields.len(),
            fields == context.deep_view().fields,
            step == account_step(table.deep_view(), conv.deep_view(), context.name@),
            collect(fields.take(i as int), step) == Ok::<Seq<AccountRefModel>, ExtractErrorModel>(
                accounts.deep_view(),
            ),
        decreases context.fields.len() - i,
    {
        let ghost before = accounts.deep_view();
        proof {
            lemma_collect_step(fields, i as int, step);
            assert(fields[i as int] == context.fields[i as int].deep_view());
        }
        match extract_account(&context.fields[i], table, conv, &context.name) {
            Err(e) => {
                proof {
                    lemma_collect_failure(fields, i + 1, step);
                }
                return Err(e);
            },
            Ok(account) => {
                let ghost added = account.deep_view();
                accounts.push(account);
                assert(accounts.deep_view() =~= before.push(added));
            },
        }
        i += 1;
    }
    proof {
        assert(fields.take(context.fields.len() as int) =~= fields);
    }
    Ok(accounts)
}

/// The instruction that an item declares, if it declares one.
fn extract_instruction(item: &Item, items: &Vec<Item>, table: &Vec<String>, conv: &Conventions) -> (res:
    Result<Option<Instruction>, ExtractError>)
    ensures
        result_model(res) == instruction_of(
            item.deep_view(),
            items.deep_view(),
            table.deep_view(),
            conv.deep_view(),
        ),
{
    match item {
        Item::Function(f) => {
            if !f.is_public || f.params.len() == 0 {
                return Ok(None);
            }
            assert(f.deep_view().params[0] == f.params[0].deep_view());
            match &f.params[0].ty {
                TypeExpr::Apply(carrier, arg) => {
                    if !(*carrier == conv.context_carrier) {
                        return Ok(None);
                    }
                    let inner: &TypeExpr = arg;
                    let context: Option<&RecordDecl> = match inner {
                        TypeExpr::Name(name) => find_context_record(items, name, conv),
                        _ => None,
                    };
                    match context {
                        None => Err(
                            ExtractError::UnknownContext {
                                instruction: f.name.clone(),
                                context: head(inner).clone(),
                            },
                        ),
                        Some(record) => match extract_arguments(f, table) {
                            Err(e) => Err(e),
                            Ok(args) => match extract_accounts(record, table, conv) {
                                Err(e) => Err(e),
                                Ok(accounts) => Ok(
                                    Some(Instruction { name: f.name.clone(), args, accounts }),
                                ),
                            },
                        },
                    }
                },
                _ => Ok(None),
            }
        },
        _ => Ok(None),
    }
}

/// The instructions that the items of a module declare.
fn extract_instructions(items: &Vec<Item>, table: &Vec<String>, conv: &Conventions) -> (res: Result<
    Vec<Instruction>,
    ExtractError,
>)
    ensures
        result_model(res) == collect(
            items.deep_view(),
            instruction_step(items.deep_view(), table.deep_view(), conv.deep_view()),
        ),
{
    let ghost model = items.deep_view();
    let ghost step = instruction_step(items.deep_view(), table.deep_view(), conv.deep_view());
    let mut instructions: Vec<Instruction> = Vec::new();
    let mut i: usize = 0;
    proof {
        assert(instructions.deep_view() =~= Seq::empty());
    }
    while i < items.len()
        invariant
            i <= items.len(),
            model == items.deep_view(),
            step == instruction_step(items.deep_view(), table.deep_view(), conv.deep_view()),
            collect(model.take(i as int), step) == Ok::<Seq<InstructionModel>, ExtractErrorModel>(
                instructions.deep_view(),
            ),
        decreases items.len() - i,
    {
        let ghost before = instructions.deep_view();
        proof {
            lemma_collect_step(model, i as int, step);
            assert(model[i as int] == items[i as int].deep_view());
        }
        match extract_instruction(&items[i], items, table, conv) {
            Err(e) => {
                proof {
                    lemma_collect_failure(model, i + 1, step);
                }
                return Err(e);
            },
            Ok(None) => {},
            Ok(Some(instruction)) => {
                let ghost added = instruction.deep_view();
                instructions.push(instruction);
                assert(instructions.deep_view() =~= before.push(added));
            },
        }
        i += 1;
    }
    proof {
        assert(model.take(items.len() as int) =~= model);
    }
    Ok(instructions)
}

/// A repeat found on a prefix is the one found on the whole.
pub proof fn lemma_first_repeat_stable(instructions: Seq<InstructionModel>, i: int)
    requires
        0 <= i <= instructions.len(),
        first_repeat(instructions.take(i)) is Some,
    ensures
        first_repeat(instructions) == first_repeat(instructions.take(i)),
    decreases instructions.len() - i,
{
    if i == instructions.len() {
        assert(instructions.take(i) =~= instructions);
    } else {
        assert(instructions.take(i + 1).drop_last() =~= instructions.take(i));
        lemma_first_repeat_stable(instructions, i + 1);
    }
}

/// The first instruction of a name that some instruction bears stands at
/// the position computed for the name.
pub proof fn lemma_position_of(instructions: Seq<InstructionModel>, name: Seq<char>)
    ensures
        0 <= position_of(instructions, name) <= instructions.len(),
        forall|k: int|
            0 <= k < position_of(instructions, name) ==> (#[trigger] instructions[k]).name != name,
        position_of(instructions, name) < instructions.len() ==> instructions[position_of(
            instructions,
            name,
        )].name == name,
    decreases instructions.len(),
{
    if instructions.len() > 0 && instructions[0].name != name {
        let rest = instructions.drop_first();
        lemma_position_of(rest, name);
        assert forall|k: int| 0 <= k < position_of(instructions, name) implies (
        #[trigger] instructions[k]).name != name by {
            if k > 0 {
                assert(rest[k - 1] == instructions[k]);
            }
        }
        if position_of(instructions, name) < instructions.len() {
            assert(rest[position_of(rest, name)] == instructions[position_of(instructions, name)]);
        }
    }
}

/// No repeat is found exactly where no two instructions bear the same
/// name; and a repeat that is found names two instructions of one name, the
/// first of that name and a later one.
pub proof fn lemma_no_repeated_name(instructions: Seq<InstructionModel>)
    ensures
        first_repeat(instructions) is None <==> instruction_names_differ(instructions),
        first_repeat(instructions) matches Some(found) ==> 0 <= found.0 < found.1
            < instructions.len() && instructions[found.0].name == instructions[found.1].name
            && forall|k: int|
            0 <= k < found.0 ==> (#[trigger] instructions[k]).name != instructions[found.1].name,
    decreases instructions.len(),
{
    if instructions.len() > 0 {
        let front = instructions.drop_last();
        let last = instructions.last();
        lemma_no_repeated_name(front);
        lemma_position_of(front, last.name);
        if first_repeat(instructions) is None {
            assert forall|i: int, j: int| 0 <= i < j < instructions.len() implies (
            #[trigger] instructions[i]).name != (#[trigger] instructions[j]).name by {
                if j < instructions.len() - 1 {
                    assert(front[i].name != front[j].name);
                } else {
                    assert(front[i] == instructions[i]);
                    assert(!has_instruction(front, last.name));
                }
            }
        }
        if instruction_names_differ(instructions) {
            assert forall|i: int, j: int| 0 <= i < j < front.len() implies (#[trigger] front[i]).name
                != (#[trigger] front[j]).name by {
                assert(instructions[i].name != instructions[j].name);
            }
            if has_instruction(front, last.name) {
                let k = choose|k: int| 0 <= k < front.len() && (#[trigger] front[k]).name
                    == last.name;
                assert(instructions[k].name != instructions[instructions.len() - 1].name);
            }
        }
        if first_repeat(instructions) is Some {
            let found = first_repeat(instructions)->0;
            if first_repeat(front) is Some {
                assert(front[found.0] == instructions[found.0]);
                assert(front[found.1] == instructions[found.1]);
                assert forall|k: int| 0 <= k < found.0 implies (#[trigger] instructions[k]).name
                    != instructions[found.1].name by {
                    assert(front[k] == instructions[k]);
                }
            } else {
                let at = position_of(front, last.name);
                let k = choose|k: int| 0 <= k < front.len() && (#[trigger] front[k]).name
                    == last.name;
                assert(at <= k);
                assert(front[at] == instructions[at]);
                assert forall|k: int| 0 <= k < found.0 implies (#[trigger] instructions[k]).name
                    != instructions[found.1].name by {
                    assert(front[k] == instructions[k]);
                }
            }
        }
    }
}

/// Looks for two instructions of one name.
fn find_repeat(instructions: &Vec<Instruction>) -> (res: Option<(usize, usize)>)
    ensures
        match res {
            Some(found) => first_repeat(instructions.deep_view()) == Some(
                (found.0 as int, found.1 as int),
            ) && found.1 < instructions.len(),
            None => first_repeat(instructions.deep_view()) is None,
        },
{
    let ghost model = instructions.deep_view();
    let mut j: usize = 0;
    while j < instructions.len()
        invariant
            j <= instructions.len(),
            model == instructions.deep_view(),
            first_repeat(model.take(j as int)) is None,
        decreases instructions.len() - j,
    {
        proof {
            assert(model.take(j + 1).drop_last() =~= model.take(j as int));
        }
        let mut i: usize = 0;
        while i < j
            invariant
                i <= j < instructions.len(),
                model == instructions.deep_view(),
                first_repeat(model.take(j as int)) is None,
                forall|k: int| 0 <= k < i ==> (#[trigger] model[k]).name != model[j as int].name,
            decreases j - i,
        {
            if instructions[i].name == instructions[j].name {
                proof {
                    let front = model.take(j as int);
                    let name = model[j as int].name;
                    assert(model.take(j + 1).drop_last() =~= front);
                    assert(front[i as int].name == name);
                    assert(has_instruction(front, name));
                    lemma_position_of(front, name);
                    let at = position_of(front, name);
                    if at < i {
                        assert(front[at] == model[at]);
                    }
                    if at > i {
                        assert(front[i as int].name != name);
                    }
                    lemma_first_repeat_stable(model, j + 1);
                }
                return Some((i, j));
            }
            i += 1;
        }
        proof {
            assert(!has_instruction(model.take(j as int), model[j as int].name)) by {
                if has_instruction(model.take(j as int), model[j as int].name) {
                    let k = choose|k: int|
                        0 <= k < model.take(j as int).len() && (#[trigger] model.take(
                            j as int,
                        )[k]).name == model[j as int].name;
                    assert(model[k].name == model[j as int].name);
                }
            }
        }
        j += 1;
    }
    proof {
        assert(model.take(instructions.len() as int) =~= model);
    }
    None
}

/// The fields of the stored record that a declared record stands for.
fn extract_fields(record: &RecordDecl, table: &Vec<String>) -> (res: Result<
    Vec<Field>,
    ExtractError,
>)
    ensures
        result_model(res) == collect(
            record.deep_view().fields,
            field_step(table.deep_view(), record.name@),
        ),
{
    let ghost declared = record.deep_view().fields;
    let ghost step = field_step(table.deep_view(), record.name@);
    let mut fields: Vec<Field> = Vec::new();
    let mut i: usize = 0;
    proof {
        assert(fields.deep_view() =~= Seq::empty());
    }
    while i < record.fields.len()
        invariant
            i <= record.fields.len(),
            declared == record.deep_view().fields,
            step == field_step(table.deep_view(), record.name@),
            collect(declared.take(i as int), step) == Ok::<Seq<FieldModel>, ExtractErrorModel>(
                fields.deep_view(),
            ),
        decreases record.fields.len() - i,
    {
        let ghost before = fields.deep_view();
        proof {
            lemma_collect_step(declared, i as int, step);
            assert(declared[i as int] == record.fields[i as int].deep_view());
        }
        let field = &record.fields[i];
        match resolve(&field.ty, table, &record.name) {
            Err(e) => {
                proof {
                    lemma_collect_failure(declared, i + 1, step);
                }
                return Err(e);
            },
            Ok(ty) => {
                fields.push(Field { name: field.name.clone(), ty });
                assert(fields.deep_view() =~= before.push(
                    FieldModel { name: field.name@, ty: ty.deep_view() },
                ));
            },
        }
        i += 1;
    }
    proof {
        assert(declared.take(record.fields.len() as int) =~= declared);
    }
    Ok(fields)
}

/// The fixed length of a value of the type, if it has one.
fn size_of_type(t: &SemanticType) -> (res: Option<u64>)
    ensures
        match res {
            Some(n) => type_size(t.deep_view()) == Some(n as nat),
            None => type_size(t.deep_view()) is None,
        },
{
    match t {
        SemanticType::U8 | SemanticType::I8 | SemanticType::Bool => Some(1),
        SemanticType::U16 | SemanticType::I16 => Some(2),
        SemanticType::U32 | SemanticType::I32 => Some(4),
        SemanticType::U64 | SemanticType::I64 => Some(8),
        SemanticType::U128 | SemanticType::I128 => Some(16),
        SemanticType::Bytes(n) => Some(*n),
        SemanticType::Address => Some(32),
        _ => None,
    }
}

/// The fields of a prefix take no more bytes than all the fields, and have
/// a fixed length wherever all the fields have one.
pub proof fn lemma_fields_size_prefix(fields: Seq<FieldModel>, i: int)
    requires
        0 <= i <= fields.len(),
        fields_size(fields) is Some,
    ensures
        fields_size(fields.take(i)) matches Some(n) && n <= fields_size(fields)->0,
    decreases fields.len() - i,
{
    if i == fields.len() {
        assert(fields.take(i) =~= fields);
    } else {
        lemma_fields_size_prefix(fields, i + 1);
        assert(fields.take(i + 1).drop_last() =~= fields.take(i));
    }
}

/// The length of a stored record with the given fields.
pub fn compute_record_size(fields: &Vec<Field>, discriminator_size: u64) -> (res: Option<u64>)
    ensures
        res == record_size(fields.deep_view(), discriminator_size),
{
    let ghost model = fields.deep_view();
    let mut total: u64 = discriminator_size;
    let mut i: usize = 0;
    while i < fields.len()
        invariant
            i <= fields.len(),
            model == fields.deep_view(),
            fields_size(model.take(i as int)) == Some((total - discriminator_size) as nat),
            discriminator_size <= total,
        decreases fields.len() - i,
    {
        proof {
            assert(model.take(i + 1).drop_last() =~= model.take(i as int));
            assert(model[i as int] == fields[i as int].deep_view());
            if fields_size(model) is Some {
                lemma_fields_size_prefix(model, i + 1);
            }
        }
        match size_of_type(&fields[i].ty) {
            None => {
                return None;
            },
            Some(n) => match total.checked_add(n) {
                None => {
                    return None;
                },
                Some(sum) => {
                    total = sum;
                },
            },
        }
        i += 1;
    }
    proof {
        assert(model.take(fields.len() as int) =~= model);
    }
    Some(total)
}

/// The stored record that an item declares in the given role, if it
/// declares one.
fn extract_record_type(item: &Item, role: Role, table: &Vec<String>, conv: &Conventions) -> (res:
    Result<Option<AccountType>, ExtractError>)
    ensures
        result_model(res) == record_type_of(
            item.deep_view(),
            role,
            table.deep_view(),
            conv.deep_view(),
        ),
{
    match item {
        Item::Record(record) => {
            if role_of(record, conv) != role {
                return Ok(None);
            }
            match extract_fields(record, table) {
                Err(e) => Err(e),
                Ok(fields) => {
                    let size = compute_record_size(&fields, conv.discriminator_size);
                    Ok(Some(AccountType { name: record.name.clone(), fields, size }))
                },
            }
        },
        _ => Ok(None),
    }
}

/// The stored records that the items of a module declare in the given
/// role.
fn extract_record_types(items: &Vec<Item>, role: Role, table: &Vec<String>, conv: &Conventions) -> (res:
    Result<Vec<AccountType>, ExtractError>)
    ensures
        result_model(res) == collect(
            items.deep_view(),
            record_step(role, table.deep_view(), conv.deep_view()),
        ),
{
    let ghost model = items.deep_view();
    let ghost step = record_step(role, table.deep_view(), conv.deep_view());
    let mut types: Vec<AccountType> = Vec::new();
    let mut i: usize = 0;
    proof {
        assert(types.deep_view() =~= Seq::empty());
    }
    while i < items.len()
        invariant
            i <= items.len(),
            model == items.deep_view(),
            step == record_step(role, table.deep_view(), conv.deep_view()),
            collect(model.take(i as int), step) == Ok::<Seq<AccountTypeModel>, ExtractErrorModel>(
                types.deep_view(),
            ),
        decreases items.len() - i,
    {
        let ghost before = types.deep_view();
        proof {
            lemma_collect_step(model, i as int, step);
            assert(model[i as int] == items[i as int].deep_view());
        }
        match extract_record_type(&items[i], role, table, conv) {
            Err(e) => {
                proof {
                    lemma_collect_failure(model, i + 1, step);
                }
                return Err(e);
            },
            Ok(None) => {},
            Ok(Some(record_type)) => {
                let ghost added = record_type.deep_view();
                types.push(record_type);
                assert(types.deep_view() =~= before.push(added));
            },
        }
        i += 1;
    }
    proof {
        assert(model.take(items.len() as int) =~= model);
    }
    Ok(types)
}

/// The error variants of a prefix of the items open the error variants of
/// all the items.
pub proof fn lemma_error_variants_prefix(items: Seq<ItemModel>, conv: ConventionsModel, i: int)
    requires
        0 <= i <= items.len(),
    ensures
        error_variants(items.take(i), conv).len() <= error_variants(items, conv).len(),
        error_variants(items, conv).take(error_variants(items.take(i), conv).len() as int)
            == error_variants(items.take(i), conv),
    decreases items.len() - i,
{
    if i == items.len() {
        assert(items.take(i) =~= items);
        assert(error_variants(items, conv).take(error_variants(items, conv).len() as int)
            =~= error_variants(items, conv));
    } else {
        lemma_error_variants_prefix(items, conv, i + 1);
        assert(items.take(i + 1).drop_last() =~= items.take(i));
        let shorter = error_variants(items.take(i), conv);
        let longer = error_variants(items.take(i + 1), conv);
        let all = error_variants(items, conv);
        assert(shorter =~= longer.take(shorter.len() as int));
        assert(all.take(shorter.len() as int) =~= all.take(longer.len() as int).take(
            shorter.len() as int,
        ));
    }
}

/// The errors that the error enumerations of a module declare.
fn extract_errors(items: &Vec<Item>, conv: &Conventions) -> (res: Result<
    Vec<ErrorVariant>,
    ExtractError,
>)
    ensures
        result_model(res) == number_variants(
            error_variants(items.deep_view(), conv.deep_view()),
            conv.error_base,
        ),
{
    let ghost model = items.deep_view();
    let ghost cm = conv.deep_view();
    let ghost all = error_variants(model, cm);
    let base: u32 = conv.error_base;
    let mut errors: Vec<ErrorVariant> = Vec::new();
    let mut i: usize = 0;
    proof {
        assert(errors.deep_view() =~= Seq::new(0, |k: int| numbered_variant(all, base, k)));
    }
    while i < items.len()
        invariant
            i <= items.len(),
            model == items.deep_view(),
            cm == conv.deep_view(),
            all == error_variants(model, cm),
            base == conv.error_base,
            errors.len() == error_variants(model.take(i as int), cm).len(),
            base + errors.len() <= u32::MAX + 1,
            errors.deep_view() == Seq::new(
                errors.len() as nat,
                |k: int| numbered_variant(all, base, k),
            ),
        decreases items.len() - i,
    {
        proof {
            assert(model.take(i + 1).drop_last() =~= model.take(i as int));
            assert(model[i as int] == items[i as int].deep_view());
            lemma_error_variants_prefix(model, cm, i + 1);
        }
        match &items[i] {
            Item::Enumeration(e) => {
                if contains_text(&e.tags, &conv.error_tag) {
                    let ghost done = error_variants(model.take(i as int), cm);
                    let ghost next = error_variants(model.take(i + 1), cm);
                    let ghost declared = e.deep_view().variants;
                    assert(next == done + declared);
                    let mut j: usize = 0;
                    while j < e.variants.len()
                        invariant
                            j <= e.variants.len(),
                            declared == e.deep_view().variants,
                            all == error_variants(items.deep_view(), conv.deep_view()),
                            next == done + declared,
                            next.len() <= all.len(),
                            all.take(next.len() as int) == next,
                            base == conv.error_base,
                            errors.len() == done.len() + j,
                            base + errors.len() <= u32::MAX + 1,
                            errors.deep_view() == Seq::new(
                                errors.len() as nat,
                                |k: int| numbered_variant(all, base, k),
                            ),
                        decreases e.variants.len() - j,
                    {
                        let ghost before = errors.deep_view();
                        let ghost position = errors.len() as int;
                        let variant = &e.variants[j];
                        proof {
                            assert(declared[j as int] == variant.deep_view());
                            assert(next[position] == declared[j as int]);
                            assert(all.take(next.len() as int)[position] == all[position]);
                        }
                        if errors.len() as u64 > (u32::MAX - base) as u64 {
                            return Err(
                                ExtractError::DiscriminantOverflow { variant: variant.name.clone() },
                            );
                        }
                        let discriminant: u32 = base + errors.len() as u32;
                        let message: Option<String> = match &variant.message {
                            Some(m) => Some(m.clone()),
                            None => None,
                        };
                        errors.push(
                            ErrorVariant { discriminant, name: variant.name.clone(), message },
                        );
                        proof {
                            assert(errors.deep_view() =~= before.push(
                                numbered_variant(all, base, position),
                            ));
                            assert(errors.deep_view() =~= Seq::new(
                                errors.len() as nat,
                                |k: int| numbered_variant(all, base, k),
                            ));
                        }
                        j += 1;
                    }
                }
            },
            _ => {},
        }
        i += 1;
    }
    proof {
        assert(model.take(items.len() as int) =~= model);
    }
    Ok(errors)
}

/// Extracts the interface model of the program `name` from the
/// declarations of its module.
pub fn parse_to_idl_program(name: String, module: &Module, conv: &Conventions) -> (res: Result<
    Program,
    ExtractError,
>)
    ensures
        result_model(res) == spec_extract(name@, module.deep_view(), conv.deep_view()),
        res matches Ok(program) ==> program.deep_view().well_formed(),
{
    let items = &module.items;
    let table = build_type_table(items);
    let instructions = match extract_instructions(items, &table, conv) {
        Err(e) => {
            return Err(e);
        },
        Ok(instructions) => instructions,
    };
    match find_repeat(&instructions) {
        Some(found) => {
            return Err(
                ExtractError::DuplicateInstruction {
                    name: instructions[found.1].name.clone(),
                    first: found.0,
                    second: found.1,
                },
            );
        },
        None => {},
    }
    let account_types = match extract_record_types(items, Role::Account, &table, conv) {
        Err(e) => {
            return Err(e);
        },
        Ok(types) => types,
    };
    let state_types = match extract_record_types(items, Role::State, &table, conv) {
        Err(e) => {
            return Err(e);
        },
        Ok(types) => types,
    };
    let errors = match extract_errors(items, conv) {
        Err(e) => {
            return Err(e);
        },
        Ok(errors) => errors,
    };
    proof {
        lemma_no_repeated_name(instructions.deep_view());
    }
    Ok(Program { name, instructions, account_types, state_types, errors })
}

impl Program {
    /// Whether no two instructions of the program bear the same name.
    pub fn is_well_formed(&self) -> (res: bool)
        ensures
            res == self.deep_view().well_formed(),
    {
        proof {
            lemma_no_repeated_name(self.instructions.deep_view());
        }
        match find_repeat(&self.instructions) {
            Some(_) => false,
            None => true,
        }
    }
}

/// What an extraction failure reads as.
pub open spec fn extract_error_text(e: ExtractErrorModel) -> Seq<char> {
    match e {
        ExtractErrorModel::UnresolvedType { name, owner } => "unresolved type `"@ + name
            + "` in `"@ + owner + "`"@,
        ExtractErrorModel::UnsupportedArray { owner } => "unsupported array type in `"@ + owner
            + "`"@,
        ExtractErrorModel::UnknownContext { instruction, context } => "entry point `"@
            + instruction + "` names the undeclared context `"@ + context + "`"@,
        ExtractErrorModel::DuplicateInstruction { name, first, second } => "duplicate instruction `"@
            + name + "`: entry points "@ + decimal_text(first as nat) + " and "@ + decimal_text(
            second as nat,
        ),
        ExtractErrorModel::DiscriminantOverflow { variant } => "discriminant of error variant `"@
            + variant + "` exceeds 32 bits"@,
    }
}

impl ExtractError {
    /// The failure in words. The text is never empty.
    pub fn message(&self) -> (res: String)
        ensures
            res@ == extract_error_text(self.deep_view()),
            res@.len() > 0,
    {
        let mut out = String::new();
        match self {
            ExtractError::UnresolvedType { name, owner } => {
                proof {
                    reveal_strlit("unresolved type `");
                }
                out.append("unresolved type `");
                out.append(name.as_str());
                out.append("` in `");
                out.append(owner.as_str());
                out.append("`");
            },
            ExtractError::UnsupportedArray { owner } => {
                proof {
                    reveal_strlit("unsupported array type in `");
                }
                out.append("unsupported array type in `");
                out.append(owner.as_str());
                out.append("`");
            },
            ExtractError::UnknownContext { instruction, context } => {
                proof {
                    reveal_strlit("entry point `");
                }
                out.append("entry point `");
                out.append(instruction.as_str());
                out.append("` names the undeclared context `");
                out.append(context.as_str());
                out.append("`");
            },
            ExtractError::DuplicateInstruction { name, first, second } => {
                proof {
                    reveal_strlit("duplicate instruction `");
                }
                out.append("duplicate instruction `");
                out.append(name.as_str());
                out.append("`: entry points ");
                push_decimal(&mut out, *first as u64);
                out.append(" and ");
                push_decimal(&mut out, *second as u64);
            },
            ExtractError::DiscriminantOverflow { variant } => {
                proof {
                    reveal_strlit("discriminant of error variant `");
                }
                out.append("discriminant of error variant `");
                out.append(variant.as_str());
                out.append("` exceeds 32 bits");
            },
        }
        proof {
            assert(out@ =~= extract_error_text(self.deep_view()));
        }
        out
    }
}

} // verus!
