//! The binding generator: from interface models to the source text of a
//! client.
//!
//! The text is defined by the spec functions of this module, down to the
//! last character; the executable functions write exactly that text. It is
//! laid out for a formatter to tidy up: every list item ends with a comma,
//! every line with a line feed.

use crate::collect::result_model;
use crate::idl::{
    AccountRef, AccountRefModel, AccountType, AccountTypeModel, Argument, ArgumentModel,
    ErrorVariant, ErrorVariantModel, Field, FieldModel, Idl, IdlModel, Instruction,
    InstructionModel, Program, ProgramModel, SemanticType, SemanticTypeModel,
};
use crate::shared_types::{
    Declared, GenerateError, GenerateErrorModel, merge_types, shared_types,
};
use crate::text::{
    concat_map, decimal_text, escaped_text, lemma_concat_map_step, push_decimal, push_escaped,
};
use vstd::prelude::*;

verus! {

/// The client's type for a semantic type. This is the one place where the
/// two are related.
pub open spec fn type_text(t: SemanticTypeModel) -> Seq<char>
    decreases t,
{
    match t {
        SemanticTypeModel::U8 => "u8"@,
        SemanticTypeModel::U16 => "u16"@,
        SemanticTypeModel::U32 => "u32"@,
        SemanticTypeModel::U64 => "u64"@,
        SemanticTypeModel::U128 => "u128"@,
        SemanticTypeModel::I8 => "i8"@,
        SemanticTypeModel::I16 => "i16"@,
        SemanticTypeModel::I32 => "i32"@,
        SemanticTypeModel::I64 => "i64"@,
        SemanticTypeModel::I128 => "i128"@,
        SemanticTypeModel::Bool => "bool"@,
        SemanticTypeModel::Text => "String"@,
        SemanticTypeModel::Bytes(n) => "[u8; "@ + decimal_text(n as nat) + "]"@,
        SemanticTypeModel::Address => "Pubkey"@,
        SemanticTypeModel::Named(name) => name,
        SemanticTypeModel::Sequence(inner) => "Vec<"@ + type_text(*inner) + ">"@,
        SemanticTypeModel::Optional(inner) => "Option<"@ + type_text(*inner) + ">"@,
    }
}

/// A truth value as the client's source writes it.
pub open spec fn bool_text(b: bool) -> Seq<char> {
    if b {
        "true"@
    } else {
        "false"@
    }
}

/// The line of one field in a record.
pub open spec fn field_line(f: FieldModel) -> Seq<char> {
    "    pub "@ + f.name + ": "@ + type_text(f.ty) + ",\n"@
}

/// [`field_line`] as a step over fields.
pub open spec fn field_line_fn() -> spec_fn(FieldModel) -> Seq<char> {
    |f: FieldModel| field_line(f)
}

/// The lines that state the stored length of a record, where it has one.
pub open spec fn size_text(name: Seq<char>, size: Option<u64>) -> Seq<char> {
    match size {
        Some(n) => "\nimpl "@ + name + " {\n    pub const LEN: usize = "@ + decimal_text(n as nat)
            + ";\n}\n"@,
        None => Seq::empty(),
    }
}

/// The text of one record: its fields in their declared order, then its
/// stored length, then an empty line.
pub open spec fn record_text(t: AccountTypeModel) -> Seq<char> {
    "pub struct "@ + t.name + " {\n"@ + concat_map(t.fields, field_line_fn()) + "}\n"@ + size_text(
        t.name,
        t.size,
    ) + "\n"@
}

/// [`record_text`] as a step over declared records.
pub open spec fn record_text_fn() -> spec_fn(Declared) -> Seq<char> {
    |d: Declared| record_text(d.0)
}

/// The line of one variant in the error enumeration.
pub open spec fn variant_line(v: ErrorVariantModel) -> Seq<char> {
    "        "@ + v.name + " = "@ + decimal_text(v.discriminant as nat) + ",\n"@
}

/// [`variant_line`] as a step over errors.
pub open spec fn variant_line_fn() -> spec_fn(ErrorVariantModel) -> Seq<char> {
    |v: ErrorVariantModel| variant_line(v)
}

/// The line that maps one numeric code back to its variant.
pub open spec fn decode_line(v: ErrorVariantModel) -> Seq<char> {
    "                "@ + decimal_text(v.discriminant as nat) + " => Some(Self::"@ + v.name
        + "),\n"@
}

/// [`decode_line`] as a step over errors.
pub open spec fn decode_line_fn() -> spec_fn(ErrorVariantModel) -> Seq<char> {
    |v: ErrorVariantModel| decode_line(v)
}

/// The message of a variant as the client's source writes it.
pub open spec fn message_text(message: Option<Seq<char>>) -> Seq<char> {
    match message {
        Some(text) => "Some(\""@ + escaped_text(text) + "\")"@,
        None => "None"@,
    }
}

/// The line that gives the message of one variant.
pub open spec fn message_line(v: ErrorVariantModel) -> Seq<char> {
    "                Self::"@ + v.name + " => "@ + message_text(v.message) + ",\n"@
}

/// [`message_line`] as a step over errors.
pub open spec fn message_line_fn() -> spec_fn(ErrorVariantModel) -> Seq<char> {
    |v: ErrorVariantModel| message_line(v)
}

/// The error enumeration of a program, with the function that maps a
/// numeric code back to its variant and the function that gives the message
/// of a variant.
pub open spec fn errors_text(errors: Seq<ErrorVariantModel>) -> Seq<char> {
    "    pub enum ErrorCode {\n"@ + concat_map(errors, variant_line_fn())
        + "    }\n\n    impl ErrorCode {\n        pub fn from_code(code: u32) -> Option<Self> {\n            match code {\n"@
        + concat_map(errors, decode_line_fn())
        + "                _ => None,\n            }\n        }\n\n        pub fn message(&self) -> Option<&'static str> {\n            match *self {\n"@
        + concat_map(errors, message_line_fn()) + "            }\n        }\n    }\n\n"@
}

/// The parameter that takes one argument of an instruction.
pub open spec fn argument_line(a: ArgumentModel) -> Seq<char> {
    "        i_"@ + a.name + ": "@ + type_text(a.ty) + ",\n"@
}

/// [`argument_line`] as a step over arguments.
pub open spec fn argument_line_fn() -> spec_fn(ArgumentModel) -> Seq<char> {
    |a: ArgumentModel| argument_line(a)
}

/// The statement that adds one argument to the payload.
pub open spec fn serialize_line(a: ArgumentModel) -> Seq<char> {
    "        i_"@ + a.name + ".serialize(&mut data)?;\n"@
}

/// [`serialize_line`] as a step over arguments.
pub open spec fn serialize_line_fn() -> spec_fn(ArgumentModel) -> Seq<char> {
    |a: ArgumentModel| serialize_line(a)
}

/// The parameter that takes the address of one account.
pub open spec fn account_line(a: AccountRefModel) -> Seq<char> {
    "        a_"@ + a.name + ": Pubkey,\n"@
}

/// [`account_line`] as a step over accounts.
pub open spec fn account_line_fn() -> spec_fn(AccountRefModel) -> Seq<char> {
    |a: AccountRefModel| account_line(a)
}

/// The entry of one account in the account list. An account is writable
/// where the instruction changes or creates it.
pub open spec fn account_entry(a: AccountRefModel) -> Seq<char> {
    "            AccountMeta { pubkey: a_"@ + a.name + ", is_signer: "@ + bool_text(a.is_signer)
        + ", is_writable: "@ + bool_text(a.is_mut || a.is_init) + " },\n"@
}

/// [`account_entry`] as a step over accounts.
pub open spec fn account_entry_fn() -> spec_fn(AccountRefModel) -> Seq<char> {
    |a: AccountRefModel| account_entry(a)
}

/// The wrapper of one instruction: it takes the program's address, the
/// arguments in their declared order and the accounts in their declared
/// order, builds the account list in that order and the payload from the
/// arguments, and sends them.
pub open spec fn instruction_text(i: InstructionModel) -> Seq<char> {
    "    pub fn "@ + i.name + "(\n        program_id: Pubkey,\n"@ + concat_map(
        i.args,
        argument_line_fn(),
    ) + concat_map(i.accounts, account_line_fn())
        + "    ) -> Result<Signature, Error> {\n        let accounts = vec![\n"@ + concat_map(
        i.accounts,
        account_entry_fn(),
    ) + "        ];\n        let mut data: Vec<u8> = Vec::new();\n"@ + concat_map(
        i.args,
        serialize_line_fn(),
    ) + "        send(program_id, \""@ + i.name + "\", accounts, data)\n    }\n\n"@
}

/// [`instruction_text`] as a step over instructions.
pub open spec fn instruction_text_fn() -> spec_fn(InstructionModel) -> Seq<char> {
    |i: InstructionModel| instruction_text(i)
}

/// The module of one program: its errors, then one wrapper for each
/// instruction, in their declared order.
pub open spec fn program_text(p: ProgramModel) -> Seq<char> {
    "pub mod "@ + p.name + " {\n    use super::*;\n\n"@ + errors_text(p.errors) + concat_map(
        p.instructions,
        instruction_text_fn(),
    ) + "}\n"@
}

/// [`program_text`] as a step over programs.
pub open spec fn program_text_fn() -> spec_fn(ProgramModel) -> Seq<char> {
    |p: ProgramModel| program_text(p)
}

/// The line of one import.
pub open spec fn import_line(import: Seq<char>) -> Seq<char> {
    import + "\n"@
}

/// [`import_line`] as a step over imports.
pub open spec fn import_line_fn() -> spec_fn(Seq<char>) -> Seq<char> {
    |import: Seq<char>| import_line(import)
}

/// Appends the client's type for a semantic type.
pub fn push_type(out: &mut String, t: &SemanticType)
    ensures
        final(out)@ == old(out)@ + type_text(t.deep_view()),
    decreases t,
{
    match t {
        SemanticType::U8 => out.append("u8"),
        SemanticType::U16 => out.append("u16"),
        SemanticType::U32 => out.append("u32"),
        SemanticType::U64 => out.append("u64"),
        SemanticType::U128 => out.append("u128"),
        SemanticType::I8 => out.append("i8"),
        SemanticType::I16 => out.append("i16"),
        SemanticType::I32 => out.append("i32"),
        SemanticType::I64 => out.append("i64"),
        SemanticType::I128 => out.append("i128"),
        SemanticType::Bool => out.append("bool"),
        SemanticType::Text => out.append("String"),
        SemanticType::Bytes(n) => {
            out.append("[u8; ");
            push_decimal(out, *n);
            out.append("]");
            assert(out@ =~= old(out)@ + type_text(t.deep_view()));
        },
        SemanticType::Address => out.append("Pubkey"),
        SemanticType::Named(name) => out.append(name.as_str()),
        SemanticType::Sequence(inner) => {
            out.append("Vec<");
            push_type(out, inner);
            out.append(">");
            assert(out@ =~= old(out)@ + type_text(t.deep_view()));
        },
        SemanticType::Optional(inner) => {
            out.append("Option<");
            push_type(out, inner);
            out.append(">");
            assert(out@ =~= old(out)@ + type_text(t.deep_view()));
        },
    }
}

/// Appends a truth value.
fn push_bool(out: &mut String, b: bool)
    ensures
        final(out)@ == old(out)@ + bool_text(b),
{
    if b {
        out.append("true");
    } else {
        out.append("false");
    }
}

/// Appends the lines of the fields of a record.
fn push_fields(out: &mut String, fields: &Vec<Field>)
    ensures
        final(out)@ == old(out)@ + concat_map(fields.deep_view(), field_line_fn()),
{
    let ghost model = fields.deep_view();
    let ghost step = field_line_fn();
    let mut i: usize = 0;
    proof {
        assert(out@ =~= old(out)@ + concat_map(model.take(0), step));
    }
    while i < fields.len()
        invariant
            i <= fields.len(),
            model == fields.deep_view(),
            step == field_line_fn(),
            out@ == old(out)@ + concat_map(model.take(i as int), step),
        decreases fields.len() - i,
    {
        let ghost before = out@;
        let f = &fields[i];
        proof {
            lemma_concat_map_step(model, i as int, step);
            assert(model[i as int] == f.deep_view());
        }
        out.append("    pub ");
        out.append(f.name.as_str());
        out.append(": ");
        push_type(out, &f.ty);
        out.append(",\n");
        proof {
            assert(out@ =~= before + field_line(f.deep_view()));
            assert(out@ =~= old(out)@ + concat_map(model.take(i + 1), step));
        }
        i += 1;
    }
    proof {
        assert(model.take(fields.len() as int) =~= model);
    }
}

/// Appends the text of one record.
pub fn push_record(out: &mut String, t: &AccountType)
    ensures
        final(out)@ == old(out)@ + record_text(t.deep_view()),
{
    out.append("pub struct ");
    out.append(t.name.as_str());
    out.append(" {\n");
    push_fields(out, &t.fields);
    out.append("}\n");
    let ghost head = out@;
    match t.size {
        Some(n) => {
            out.append("\nimpl ");
            out.append(t.name.as_str());
            out.append(" {\n    pub const LEN: usize = ");
            push_decimal(out, n);
            out.append(";\n}\n");
            assert(out@ =~= head + size_text(t.name@, t.size));
        },
        None => {
            assert(out@ =~= head + size_text(t.name@, t.size));
        },
    }
    out.append("\n");
    proof {
        assert(out@ =~= old(out)@ + record_text(t.deep_view()));
    }
}

/// Appends the variants of the error enumeration.
fn push_variants(out: &mut String, errors: &Vec<ErrorVariant>)
    ensures
        final(out)@ == old(out)@ + concat_map(errors.deep_view(), variant_line_fn()),
{
    let ghost model = errors.deep_view();
    let ghost step = variant_line_fn();
    let mut i: usize = 0;
    proof {
        assert(out@ =~= old(out)@ + concat_map(model.take(0), step));
    }
    while i < errors.len()
        invariant
            i <= errors.len(),
            model == errors.deep_view(),
            step == variant_line_fn(),
            out@ == old(out)@ + concat_map(model.take(i as int), step),
        decreases errors.len() - i,
    {
        let ghost before = out@;
        let item = &errors[i];
        proof {
            lemma_concat_map_step(model, i as int, step);
            assert(model[i as int] == item.deep_view());
        }
        out.append("        ");
        out.append(item.name.as_str());
        out.append(" = ");
        push_decimal(out, item.discriminant as u64);
        out.append(",\n");
        proof {
            assert(out@ =~= before + variant_line(item.deep_view()));
            assert(out@ =~= old(out)@ + concat_map(model.take(i + 1), step));
        }
        i += 1;
    }
    proof {
        assert(model.take(errors.len() as int) =~= model);
    }
}

/// Appends the lines that map numeric codes back to variants.
fn push_decoders(out: &mut String, errors: &Vec<ErrorVariant>)
    ensures
        final(out)@ == old(out)@ + concat_map(errors.deep_view(), decode_line_fn()),
{
    let ghost model = errors.deep_view();
    let ghost step = decode_line_fn();
    let mut i: usize = 0;
    proof {
        assert(out@ =~= old(out)@ + concat_map(model.take(0), step));
    }
    while i < errors.len()
        invariant
            i <= errors.len(),
            model == errors.deep_view(),
            step == decode_line_fn(),
            out@ == old(out)@ + concat_map(model.take(i as int), step),
        decreases errors.len() - i,
    {
        let ghost before = out@;
        let item = &errors[i];
        proof {
            lemma_concat_map_step(model, i as int, step);
            assert(model[i as int] == item.deep_view());
        }
        out.append("                ");
        push_decimal(out, item.discriminant as u64);
        out.append(" => Some(Self::");
        out.append(item.name.as_str());
        out.append("),\n");
        proof {
            assert(out@ =~= before + decode_line(item.deep_view()));
            assert(out@ =~= old(out)@ + concat_map(model.take(i + 1), step));
        }
        i += 1;
    }
    proof {
        assert(model.take(errors.len() as int) =~= model);
    }
}

/// Appends the lines that give the messages of the variants.
fn push_messages(out: &mut String, errors: &Vec<ErrorVariant>)
    ensures
        final(out)@ == old(out)@ + concat_map(errors.deep_view(), message_line_fn()),
{
    let ghost model = errors.deep_view();
    let ghost step = message_line_fn();
    let mut i: usize = 0;
    proof {
        assert(out@ =~= old(out)@ + concat_map(model.take(0), step));
    }
    while i < errors.len()
        invariant
            i <= errors.len(),
            model == errors.deep_view(),
            step == message_line_fn(),
            out@ == old(out)@ + concat_map(model.take(i as int), step),
        decreases errors.len() - i,
    {
        let ghost before = out@;
        let item = &errors[i];
        proof {
            lemma_concat_map_step(model, i as int, step);
            assert(model[i as int] == item.deep_view());
        }
        out.append("                Self::");
        out.append(item.name.as_str());
        out.append(" => ");
        let ghost head = out@;
        match &item.message {
            Some(text) => {
                out.append("Some(\"");
                push_escaped(out, text.as_str());
                out.append("\")");
                assert(out@ =~= head + message_text(item.deep_view().message));
            },
            None => {
                out.append("None");
            },
        }
        out.append(",\n");
        proof {
            assert(out@ =~= before + message_line(item.deep_view()));
            assert(out@ =~= old(out)@ + concat_map(model.take(i + 1), step));
        }
        i += 1;
    }
    proof {
        assert(model.take(errors.len() as int) =~= model);
    }
}

/// Appends the error enumeration of a program.
pub fn push_errors(out: &mut String, errors: &Vec<ErrorVariant>)
    ensures
        final(out)@ == old(out)@ + errors_text(errors.deep_view()),
{
    out.append("    pub enum ErrorCode {\n");
    push_variants(out, errors);
    out.append(
        "    }\n\n    impl ErrorCode {\n        pub fn from_code(code: u32) -> Option<Self> {\n            match code {\n",
    );
    push_decoders(out, errors);
    out.append(
        "                _ => None,\n            }\n        }\n\n        pub fn message(&self) -> Option<&'static str> {\n            match *self {\n",
    );
    push_messages(out, errors);
    out.append("            }\n        }\n    }\n\n");
    proof {
        assert(out@ =~= old(out)@ + errors_text(errors.deep_view()));
    }
}

/// Appends the parameters that take the arguments.
fn push_argument_lines(out: &mut String, args: &Vec<Argument>)
    ensures
        final(out)@ == old(out)@ + concat_map(args.deep_view(), argument_line_fn()),
{
    let ghost model = args.deep_view();
    let ghost step = argument_line_fn();
    let mut i: usize = 0;
    proof {
        assert(out@ =~= old(out)@ + concat_map(model.take(0), step));
    }
    while i < args.len()
        invariant
            i <= args.len(),
            model == args.deep_view(),
            step == argument_line_fn(),
            out@ == old(out)@ + concat_map(model.take(i as int), step),
        decreases args.len() - i,
    {
        let ghost before = out@;
        let item = &args[i];
        proof {
            lemma_concat_map_step(model, i as int, step);
            assert(model[i as int] == item.deep_view());
        }
        out.append("        i_");
        out.append(item.name.as_str());
        out.append(": ");
        push_type(out, &item.ty);
        out.append(",\n");
        proof {
            assert(out@ =~= before + argument_line(item.deep_view()));
            assert(out@ =~= old(out)@ + concat_map(model.take(i + 1), step));
        }
        i += 1;
    }
    proof {
        assert(model.take(args.len() as int) =~= model);
    }
}

/// Appends the statements that build the payload.
fn push_serialize_lines(out: &mut String, args: &Vec<Argument>)
    ensures
        final(out)@ == old(out)@ + concat_map(args.deep_view(), serialize_line_fn()),
{
    let ghost model = args.deep_view();
    let ghost step = serialize_line_fn();
    let mut i: usize = 0;
    proof {
        assert(out@ =~= old(out)@ + concat_map(model.take(0), step));
    }
    while i < args.len()
        invariant
            i <= args.len(),
            model == args.deep_view(),
            step == serialize_line_fn(),
            out@ == old(out)@ + concat_map(model.take(i as int), step),
        decreases args.len() - i,
    {
        let ghost before = out@;
        let item = &args[i];
        proof {
            lemma_concat_map_step(model, i as int, step);
            assert(model[i as int] == item.deep_view());
        }
        out.append("        i_");
        out.append(item.name.as_str());
        out.append(".serialize(&mut data)?;\n");
        proof {
            assert(out@ =~= before + serialize_line(item.deep_view()));
            assert(out@ =~= old(out)@ + concat_map(model.take(i + 1), step));
        }
        i += 1;
    }
    proof {
        assert(model.take(args.len() as int) =~= model);
    }
}

/// Appends the parameters that take the accounts.
fn push_account_lines(out: &mut String, accounts: &Vec<AccountRef>)
    ensures
        final(out)@ == old(out)@ + concat_map(accounts.deep_view(), account_line_fn()),
{
    let ghost model = accounts.deep_view();
    let ghost step = account_line_fn();
    let mut i: usize = 0;
    proof {
        assert(out@ =~= old(out)@ + concat_map(model.take(0), step));
    }
    while i < accounts.len()
        invariant
            i <= accounts.len(),
            model == accounts.deep_view(),
            step == account_line_fn(),
            out@ == old(out)@ + concat_map(model.take(i as int), step),
        decreases accounts.len() - i,
    {
        let ghost before = out@;
        let item = &accounts[i];
        proof {
            lemma_concat_map_step(model, i as int, step);
            assert(model[i as int] == item.deep_view());
        }
        out.append("        a_");
        out.append(item.name.as_str());
        out.append(": Pubkey,\n");
        proof {
            assert(out@ =~= before + account_line(item.deep_view()));
            assert(out@ =~= old(out)@ + concat_map(model.take(i + 1), step));
        }
        i += 1;
    }
    proof {
        assert(model.take(accounts.len() as int) =~= model);
    }
}

/// Appends the entries of the account list.
fn push_account_entries(out: &mut String, accounts: &Vec<AccountRef>)
    ensures
        final(out)@ == old(out)@ + concat_map(accounts.deep_view(), account_entry_fn()),
{
    let ghost model = accounts.deep_view();
    let ghost step = account_entry_fn();
    let mut i: usize = 0;
    proof {
        assert(out@ =~= old(out)@ + concat_map(model.take(0), step));
    }
    while i < accounts.len()
        invariant
            i <= accounts.len(),
            model == accounts.deep_view(),
            step == account_entry_fn(),
            out@ == old(out)@ + concat_map(model.take(i as int), step),
        decreases accounts.len() - i,
    {
        let ghost before = out@;
        let item = &accounts[i];
        proof {
            lemma_concat_map_step(model, i as int, step);
            assert(model[i as int] == item.deep_view());
        }
        out.append("            AccountMeta { pubkey: a_");
        out.append(item.name.as_str());
        out.append(", is_signer: ");
        push_bool(out, item.is_signer);
        out.append(", is_writable: ");
        push_bool(out, item.is_mut || item.is_init);
        out.append(" },\n");
        proof {
            assert(out@ =~= before + account_entry(item.deep_view()));
            assert(out@ =~= old(out)@ + concat_map(model.take(i + 1), step));
        }
        i += 1;
    }
    proof {
        assert(model.take(accounts.len() as int) =~= model);
    }
}

/// Appends the wrapper of one instruction.
pub fn push_instruction(out: &mut String, instruction: &Instruction)
    ensures
        final(out)@ == old(out)@ + instruction_text(instruction.deep_view()),
{
    out.append("    pub fn ");
    out.append(instruction.name.as_str());
    out.append("(\n        program_id: Pubkey,\n");
    push_argument_lines(out, &instruction.args);
    push_account_lines(out, &instruction.accounts);
    out.append("    ) -> Result<Signature, Error> {\n        let accounts = vec![\n");
    push_account_entries(out, &instruction.accounts);
    out.append("        ];\n        let mut data: Vec<u8> = Vec::new();\n");
    push_serialize_lines(out, &instruction.args);
    out.append("        send(program_id, \"");
    out.append(instruction.name.as_str());
    out.append("\", accounts, data)\n    }\n\n");
    proof {
        assert(out@ =~= old(out)@ + instruction_text(instruction.deep_view()));
    }
}

/// Appends the wrappers of the instructions of a program.
fn push_instructions(out: &mut String, instructions: &Vec<Instruction>)
    ensures
        final(out)@ == old(out)@ + concat_map(instructions.deep_view(), instruction_text_fn()),
{
    let ghost model = instructions.deep_view();
    let ghost step = instruction_text_fn();
    let mut i: usize = 0;
    proof {
        assert(out@ =~= old(out)@ + concat_map(model.take(0), step));
    }
    while i < instructions.len()
        invariant
            i <= instructions.len(),
            model == instructions.deep_view(),
            step == instruction_text_fn(),
            out@ == old(out)@ + concat_map(model.take(i as int), step),
        decreases instructions.len() - i,
    {
        let ghost before = out@;
        let item = &instructions[i];
        proof {
            lemma_concat_map_step(model, i as int, step);
            assert(model[i as int] == item.deep_view());
        }
        push_instruction(out, item);
        proof {
            assert(out@ =~= before + instruction_text(item.deep_view()));
            assert(out@ =~= old(out)@ + concat_map(model.take(i + 1), step));
        }
        i += 1;
    }
    proof {
        assert(model.take(instructions.len() as int) =~= model);
    }
}

/// Appends the module of one program.
pub fn push_program(out: &mut String, program: &Program)
    ensures
        final(out)@ == old(out)@ + program_text(program.deep_view()),
{
    out.append("pub mod ");
    out.append(program.name.as_str());
    out.append(" {\n    use super::*;\n\n");
    push_errors(out, &program.errors);
    push_instructions(out, &program.instructions);
    out.append("}\n");
    proof {
        assert(out@ =~= old(out)@ + program_text(program.deep_view()));
    }
}

/// Appends the modules of the programs.
fn push_programs(out: &mut String, programs: &Vec<Program>)
    ensures
        final(out)@ == old(out)@ + concat_map(programs.deep_view(), program_text_fn()),
{
    let ghost model = programs.deep_view();
    let ghost step = program_text_fn();
    let mut i: usize = 0;
    proof {
        assert(out@ =~= old(out)@ + concat_map(model.take(0), step));
    }
    while i < programs.len()
        invariant
            i <= programs.len(),
            model == programs.deep_view(),
            step == program_text_fn(),
            out@ == old(out)@ + concat_map(model.take(i as int), step),
        decreases programs.len() - i,
    {
        let ghost before = out@;
        let item = &programs[i];
        proof {
            lemma_concat_map_step(model, i as int, step);
            assert(model[i as int] == item.deep_view());
        }
        push_program(out, item);
        proof {
            assert(out@ =~= before + program_text(item.deep_view()));
            assert(out@ =~= old(out)@ + concat_map(model.take(i + 1), step));
        }
        i += 1;
    }
    proof {
        assert(model.take(programs.len() as int) =~= model);
    }
}

/// Appends the lines of the imports.
fn push_imports(out: &mut String, imports: &Vec<String>)
    ensures
        final(out)@ == old(out)@ + concat_map(imports.deep_view(), import_line_fn()),
{
    let ghost model = imports.deep_view();
    let ghost step = import_line_fn();
    let mut i: usize = 0;
    proof {
        assert(out@ =~= old(out)@ + concat_map(model.take(0), step));
    }
    while i < imports.len()
        invariant
            i <= imports.len(),
            model == imports.deep_view(),
            step == import_line_fn(),
            out@ == old(out)@ + concat_map(model.take(i as int), step),
        decreases imports.len() - i,
    {
        let ghost before = out@;
        let item = &imports[i];
        proof {
            lemma_concat_map_step(model, i as int, step);
            assert(model[i as int] == item.deep_view());
        }
        out.append(item.as_str());
        out.append("\n");
        proof {
            assert(out@ =~= before + import_line(item.deep_view()));
            assert(out@ =~= old(out)@ + concat_map(model.take(i + 1), step));
        }
        i += 1;
    }
    proof {
        assert(model.take(imports.len() as int) =~= model);
    }
}

/// Appends the texts of the shared records.
fn push_records(out: &mut String, records: &Vec<(&AccountType, &String)>)
    ensures
        final(out)@ == old(out)@ + concat_map(records.deep_view(), record_text_fn()),
{
    let ghost model = records.deep_view();
    let ghost step = record_text_fn();
    let mut i: usize = 0;
    proof {
        assert(out@ =~= old(out)@ + concat_map(model.take(0), step));
    }
    while i < records.len()
        invariant
            i <= records.len(),
            model == records.deep_view(),
            step == record_text_fn(),
            out@ == old(out)@ + concat_map(model.take(i as int), step),
        decreases records.len() - i,
    {
        let ghost before = out@;
        let item: &AccountType = records[i].0;
        proof {
            lemma_concat_map_step(model, i as int, step);
            assert(model[i as int].0 == item.deep_view());
        }
        push_record(out, item);
        proof {
            assert(out@ =~= old(out)@ + concat_map(model.take(i + 1), step));
        }
        i += 1;
    }
    proof {
        assert(model.take(records.len() as int) =~= model);
    }
}

/// The source text of the client of a workspace: the imports, an empty
/// line, the shared records, and the module of each program, in the order
/// given. There is no text where two different records bear one name.
pub open spec fn spec_generate(idl: IdlModel, imports: Seq<Seq<char>>) -> Result<
    Seq<char>,
    GenerateErrorModel,
> {
    match shared_types(idl.programs) {
        Err(e) => Err(e),
        Ok(shared) => Ok(
            concat_map(imports, import_line_fn()) + "\n"@ + concat_map(shared, record_text_fn())
                + concat_map(idl.programs, program_text_fn()),
        ),
    }
}

/// Generates the source text of the client of a workspace. `use_modules`
/// are the import lines that the text starts with.
pub fn generate_source_code(idl: &Idl, use_modules: &Vec<String>) -> (res: Result<
    String,
    GenerateError,
>)
    ensures
        result_model(res) == spec_generate(idl.deep_view(), use_modules.deep_view()),
{
    let shared = match merge_types(&idl.programs) {
        Err(e) => {
            return Err(e);
        },
        Ok(shared) => shared,
    };
    let mut out = String::new();
    push_imports(&mut out, use_modules);
    out.append("\n");
    push_records(&mut out, &shared);
    push_programs(&mut out, &idl.programs);
    proof {
        assert(out@ =~= concat_map(use_modules.deep_view(), import_line_fn()) + "\n"@ + concat_map(
            shared.deep_view(),
            record_text_fn(),
        ) + concat_map(idl.deep_view().programs, program_text_fn()));
    }
    Ok(out)
}

} // verus!
