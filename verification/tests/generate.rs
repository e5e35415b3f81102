use gecko_client::idl::{
    AccountRef, AccountType, Argument, ErrorVariant, Field, Idl, Instruction, Program,
    SemanticType,
};
use gecko_client::program_client_generator::{
    generate_source_code, push_errors, push_instruction, push_program, push_record, push_type,
};
use gecko_client::text::push_escaped;
use gecko_client::shared_types::{
    absorb_types, merge_types, same_fields, same_record, same_type, GenerateError,
};

fn t(text: &str) -> String {
    text.to_string()
}

fn type_text(ty: &SemanticType) -> String {
    let mut out = String::new();
    push_type(&mut out, ty);
    out
}

fn typed_field(name: &str, ty: SemanticType) -> Field {
    Field { name: t(name), ty }
}

fn stored_record(name: &str, fields: Vec<Field>, size: Option<u64>) -> AccountType {
    AccountType { name: t(name), fields, size }
}

fn plain_account(name: &str, is_mut: bool, is_signer: bool, is_init: bool) -> AccountRef {
    AccountRef { name: t(name), account_type: None, is_mut, is_signer, is_init }
}

fn program(name: &str) -> Program {
    Program {
        name: t(name),
        instructions: vec![],
        account_types: vec![],
        state_types: vec![],
        errors: vec![],
    }
}

fn deposit_instruction() -> Instruction {
    Instruction {
        name: t("deposit"),
        args: vec![Argument { name: t("amount"), ty: SemanticType::U64 }],
        accounts: vec![plain_account("vault", true, false, false), plain_account("depositor", false, true, false)],
    }
}

fn deposit_text() -> String {
    [
        "    pub fn deposit(\n",
        "        program_id: Pubkey,\n",
        "        i_amount: u64,\n",
        "        a_vault: Pubkey,\n",
        "        a_depositor: Pubkey,\n",
        "    ) -> Result<Signature, Error> {\n",
        "        let accounts = vec![\n",
        "            AccountMeta { pubkey: a_vault, is_signer: false, is_writable: true },\n",
        "            AccountMeta { pubkey: a_depositor, is_signer: true, is_writable: false },\n",
        "        ];\n",
        "        let mut data: Vec<u8> = Vec::new();\n",
        "        i_amount.serialize(&mut data)?;\n",
        "        send(program_id, \"deposit\", accounts, data)\n",
        "    }\n",
        "\n",
    ]
    .concat()
}

fn empty_errors_text() -> String {
    [
        "    pub enum ErrorCode {\n",
        "    }\n",
        "\n",
        "    impl ErrorCode {\n",
        "        pub fn from_code(code: u32) -> Option<Self> {\n",
        "            match code {\n",
        "                _ => None,\n",
        "            }\n",
        "        }\n",
        "\n",
        "        pub fn message(&self) -> Option<&'static str> {\n",
        "            match *self {\n",
        "            }\n",
        "        }\n",
        "    }\n",
        "\n",
    ]
    .concat()
}

#[test]
fn every_semantic_type_has_its_client_type() {
    let cases = vec![
        (SemanticType::U8, "u8"),
        (SemanticType::U16, "u16"),
        (SemanticType::U32, "u32"),
        (SemanticType::U64, "u64"),
        (SemanticType::U128, "u128"),
        (SemanticType::I8, "i8"),
        (SemanticType::I16, "i16"),
        (SemanticType::I32, "i32"),
        (SemanticType::I64, "i64"),
        (SemanticType::I128, "i128"),
        (SemanticType::Bool, "bool"),
        (SemanticType::Text, "String"),
        (SemanticType::Bytes(32), "[u8; 32]"),
        (SemanticType::Bytes(0), "[u8; 0]"),
        (SemanticType::Address, "Pubkey"),
        (SemanticType::Named(t("ProjectInfo")), "ProjectInfo"),
        (SemanticType::Sequence(Box::new(SemanticType::U8)), "Vec<u8>"),
        (SemanticType::Optional(Box::new(SemanticType::Address)), "Option<Pubkey>"),
        (
            SemanticType::Sequence(Box::new(SemanticType::Optional(Box::new(
                SemanticType::Named(t("Vault")),
            )))),
            "Vec<Option<Vault>>",
        ),
    ];
    for (ty, expected) in cases {
        assert_eq!(type_text(&ty), expected);
    }
}

#[test]
fn record_text_lists_fields_in_declared_order() {
    let vault = stored_record(
        "Vault",
        vec![typed_field("owner", SemanticType::Address), typed_field("balance", SemanticType::U64)],
        Some(48),
    );
    let mut out = String::new();
    push_record(&mut out, &vault);
    let expected = [
        "pub struct Vault {\n",
        "    pub owner: Pubkey,\n",
        "    pub balance: u64,\n",
        "}\n",
        "\n",
        "impl Vault {\n",
        "    pub const LEN: usize = 48;\n",
        "}\n",
        "\n",
    ]
    .concat();
    assert_eq!(out, expected);
    let swapped = stored_record(
        "Vault",
        vec![typed_field("balance", SemanticType::U64), typed_field("owner", SemanticType::Address)],
        Some(48),
    );
    let mut other = String::new();
    push_record(&mut other, &swapped);
    assert!(other.find("balance").unwrap() < other.find("owner").unwrap());
    assert!(out.find("owner").unwrap() < out.find("balance").unwrap());
}

#[test]
fn record_without_fixed_length_has_no_length_constant() {
    let note = stored_record("Note", vec![typed_field("body", SemanticType::Text)], None);
    let mut out = String::new();
    push_record(&mut out, &note);
    assert_eq!(out, "pub struct Note {\n    pub body: String,\n}\n\n");
}

#[test]
fn record_without_fields_is_an_empty_struct() {
    let mut out = String::from("// head\n");
    push_record(&mut out, &stored_record("Marker", vec![], Some(8)));
    assert_eq!(
        out,
        "// head\npub struct Marker {\n}\n\nimpl Marker {\n    pub const LEN: usize = 8;\n}\n\n"
    );
}

#[test]
fn error_enumeration_carries_the_extracted_discriminants() {
    let errors = vec![
        ErrorVariant { discriminant: 6000, name: t("Unauthorized"), message: None },
        ErrorVariant {
            discriminant: 6001,
            name: t("InsufficientFunds"),
            message: Some(t("not \"enough\"\n")),
        },
        ErrorVariant { discriminant: 6002, name: t("Expired"), message: None },
    ];
    let mut out = String::new();
    push_errors(&mut out, &errors);
    let expected = [
        "    pub enum ErrorCode {\n",
        "        Unauthorized = 6000,\n",
        "        InsufficientFunds = 6001,\n",
        "        Expired = 6002,\n",
        "    }\n",
        "\n",
        "    impl ErrorCode {\n",
        "        pub fn from_code(code: u32) -> Option<Self> {\n",
        "            match code {\n",
        "                6000 => Some(Self::Unauthorized),\n",
        "                6001 => Some(Self::InsufficientFunds),\n",
        "                6002 => Some(Self::Expired),\n",
        "                _ => None,\n",
        "            }\n",
        "        }\n",
        "\n",
        "        pub fn message(&self) -> Option<&'static str> {\n",
        "            match *self {\n",
        "                Self::Unauthorized => None,\n",
        "                Self::InsufficientFunds => Some(\"not \\\"enough\\\"\\n\"),\n",
        "                Self::Expired => None,\n",
        "            }\n",
        "        }\n",
        "    }\n",
        "\n",
    ]
    .concat();
    assert_eq!(out, expected);
}

#[test]
fn error_enumeration_without_variants_decodes_nothing() {
    let mut out = String::new();
    push_errors(&mut out, &vec![]);
    assert_eq!(out, empty_errors_text());
}

#[test]
fn deposit_wrapper_builds_the_account_list_in_declared_order() {
    let mut out = String::new();
    push_instruction(&mut out, &deposit_instruction());
    assert_eq!(out, deposit_text());
    let vault = out.find("AccountMeta { pubkey: a_vault").unwrap();
    let depositor = out.find("AccountMeta { pubkey: a_depositor").unwrap();
    assert!(vault < depositor);
}

#[test]
fn created_account_is_writable() {
    let instruction = Instruction {
        name: t("open"),
        args: vec![],
        accounts: vec![plain_account("fresh", false, false, true), plain_account("payer", true, true, false)],
    };
    let mut out = String::new();
    push_instruction(&mut out, &instruction);
    let expected = [
        "    pub fn open(\n",
        "        program_id: Pubkey,\n",
        "        a_fresh: Pubkey,\n",
        "        a_payer: Pubkey,\n",
        "    ) -> Result<Signature, Error> {\n",
        "        let accounts = vec![\n",
        "            AccountMeta { pubkey: a_fresh, is_signer: false, is_writable: true },\n",
        "            AccountMeta { pubkey: a_payer, is_signer: true, is_writable: true },\n",
        "        ];\n",
        "        let mut data: Vec<u8> = Vec::new();\n",
        "        send(program_id, \"open\", accounts, data)\n",
        "    }\n",
        "\n",
    ]
    .concat();
    assert_eq!(out, expected);
}

#[test]
fn wrapper_without_accounts_or_arguments_sends_empty_lists() {
    let instruction = Instruction { name: t("ping"), args: vec![], accounts: vec![] };
    let mut out = String::new();
    push_instruction(&mut out, &instruction);
    let expected = [
        "    pub fn ping(\n",
        "        program_id: Pubkey,\n",
        "    ) -> Result<Signature, Error> {\n",
        "        let accounts = vec![\n",
        "        ];\n",
        "        let mut data: Vec<u8> = Vec::new();\n",
        "        send(program_id, \"ping\", accounts, data)\n",
        "    }\n",
        "\n",
    ]
    .concat();
    assert_eq!(out, expected);
}

#[test]
fn arguments_keep_their_order_in_signature_and_payload() {
    let instruction = Instruction {
        name: t("configure"),
        args: vec![
            Argument { name: t("limit"), ty: SemanticType::U32 },
            Argument { name: t("label"), ty: SemanticType::Text },
            Argument { name: t("seed"), ty: SemanticType::Bytes(4) },
        ],
        accounts: vec![],
    };
    let mut out = String::new();
    push_instruction(&mut out, &instruction);
    let expected = [
        "    pub fn configure(\n",
        "        program_id: Pubkey,\n",
        "        i_limit: u32,\n",
        "        i_label: String,\n",
        "        i_seed: [u8; 4],\n",
        "    ) -> Result<Signature, Error> {\n",
        "        let accounts = vec![\n",
        "        ];\n",
        "        let mut data: Vec<u8> = Vec::new();\n",
        "        i_limit.serialize(&mut data)?;\n",
        "        i_label.serialize(&mut data)?;\n",
        "        i_seed.serialize(&mut data)?;\n",
        "        send(program_id, \"configure\", accounts, data)\n",
        "    }\n",
        "\n",
    ]
    .concat();
    assert_eq!(out, expected);
}

#[test]
fn program_module_holds_errors_then_wrappers() {
    let mut bank = program("bank");
    bank.instructions.push(deposit_instruction());
    let mut out = String::new();
    push_program(&mut out, &bank);
    let expected = ["pub mod bank {\n    use super::*;\n\n", &empty_errors_text(), &deposit_text(), "}\n"]
        .concat();
    assert_eq!(out, expected);
}

#[test]
fn deposit_scenario_generates_the_expected_client() {
    let mut bank = program("bank");
    bank.instructions.push(deposit_instruction());
    bank.account_types.push(stored_record("Vault", vec![typed_field("balance", SemanticType::U64)], Some(16)));
    let idl = Idl { programs: vec![bank] };
    let text = generate_source_code(&idl, &vec![t("use gecko_client::*;")]);
    let expected = [
        "use gecko_client::*;\n",
        "\n",
        "pub struct Vault {\n",
        "    pub balance: u64,\n",
        "}\n",
        "\n",
        "impl Vault {\n",
        "    pub const LEN: usize = 16;\n",
        "}\n",
        "\n",
        "pub mod bank {\n",
        "    use super::*;\n",
        "\n",
        "    pub enum ErrorCode {\n",
        "    }\n",
        "\n",
        "    impl ErrorCode {\n",
        "        pub fn from_code(code: u32) -> Option<Self> {\n",
        "            match code {\n",
        "                _ => None,\n",
        "            }\n",
        "        }\n",
        "\n",
        "        pub fn message(&self) -> Option<&'static str> {\n",
        "            match *self {\n",
        "            }\n",
        "        }\n",
        "    }\n",
        "\n",
        "    pub fn deposit(\n",
        "        program_id: Pubkey,\n",
        "        i_amount: u64,\n",
        "        a_vault: Pubkey,\n",
        "        a_depositor: Pubkey,\n",
        "    ) -> Result<Signature, Error> {\n",
        "        let accounts = vec![\n",
        "            AccountMeta { pubkey: a_vault, is_signer: false, is_writable: true },\n",
        "            AccountMeta { pubkey: a_depositor, is_signer: true, is_writable: false },\n",
        "        ];\n",
        "        let mut data: Vec<u8> = Vec::new();\n",
        "        i_amount.serialize(&mut data)?;\n",
        "        send(program_id, \"deposit\", accounts, data)\n",
        "    }\n",
        "\n",
        "}\n",
    ]
    .concat();
    assert_eq!(text, Ok(expected));
}

#[test]
fn empty_workspace_generates_only_the_separator() {
    assert_eq!(generate_source_code(&Idl { programs: vec![] }, &vec![]), Ok(t("\n")));
}

#[test]
fn imports_come_first_in_the_order_given() {
    let text = generate_source_code(
        &Idl { programs: vec![] },
        &vec![t("use gecko_client::*;"), t("use std::str::FromStr;")],
    );
    assert_eq!(text, Ok(t("use gecko_client::*;\nuse std::str::FromStr;\n\n")));
}

#[test]
fn shared_record_is_written_once() {
    let mut first = program("first");
    first.account_types.push(stored_record("Vault", vec![typed_field("balance", SemanticType::U64)], Some(16)));
    first.state_types.push(stored_record("Config", vec![], Some(8)));
    let mut second = program("second");
    second.state_types.push(stored_record("Vault", vec![typed_field("balance", SemanticType::U64)], Some(16)));
    second.account_types.push(stored_record("Extra", vec![], Some(8)));
    let idl = Idl { programs: vec![first, second] };
    let text = generate_source_code(&idl, &vec![]).expect("no collision");
    assert_eq!(text.matches("pub struct Vault {").count(), 1);
    assert_eq!(text.matches("pub struct Config {").count(), 1);
    assert_eq!(text.matches("pub struct Extra {").count(), 1);
    let vault = text.find("pub struct Vault").unwrap();
    let config = text.find("pub struct Config").unwrap();
    let extra = text.find("pub struct Extra").unwrap();
    let first_module = text.find("pub mod first").unwrap();
    let second_module = text.find("pub mod second").unwrap();
    assert!(vault < config && config < extra && extra < first_module);
    assert!(first_module < second_module);
}

#[test]
fn different_records_of_one_name_collide() {
    let mut first = program("first");
    first.account_types.push(stored_record("Vault", vec![typed_field("balance", SemanticType::U64)], Some(16)));
    let mut second = program("second");
    second.account_types.push(stored_record("Vault", vec![typed_field("balance", SemanticType::U32)], Some(12)));
    let idl = Idl { programs: vec![first, second] };
    assert_eq!(
        generate_source_code(&idl, &vec![t("use gecko_client::*;")]),
        Err(GenerateError::NameCollision {
            name: t("Vault"),
            first_program: t("first"),
            second_program: t("second"),
        })
    );
}

#[test]
fn records_of_one_name_collide_within_a_program() {
    let mut only = program("only");
    only.account_types.push(stored_record("Vault", vec![typed_field("a", SemanticType::U8)], Some(9)));
    only.state_types.push(stored_record("Vault", vec![typed_field("b", SemanticType::U8)], Some(9)));
    assert_eq!(
        generate_source_code(&Idl { programs: vec![only] }, &vec![]),
        Err(GenerateError::NameCollision {
            name: t("Vault"),
            first_program: t("only"),
            second_program: t("only"),
        })
    );
}

#[test]
fn first_collision_is_the_one_reported() {
    let mut first = program("first");
    first.account_types.push(stored_record("A", vec![], Some(8)));
    first.account_types.push(stored_record("B", vec![], Some(8)));
    let mut second = program("second");
    second.account_types.push(stored_record("B", vec![typed_field("x", SemanticType::U8)], Some(9)));
    second.account_types.push(stored_record("A", vec![typed_field("x", SemanticType::U8)], Some(9)));
    assert_eq!(
        generate_source_code(&Idl { programs: vec![first, second] }, &vec![]),
        Err(GenerateError::NameCollision {
            name: t("B"),
            first_program: t("first"),
            second_program: t("second"),
        })
    );
}

#[test]
fn collision_message_names_the_record() {
    let collision = GenerateError::NameCollision {
        name: t("Vault"),
        first_program: t("bank"),
        second_program: t("escrow"),
    };
    assert_eq!(
        collision.message(),
        "conflicting declarations of type `Vault` in `bank` and `escrow`"
    );
}

#[test]
fn merge_keeps_records_in_order_of_first_declaration() {
    let mut first = program("first");
    first.state_types.push(stored_record("S", vec![], None));
    first.account_types.push(stored_record("A", vec![], None));
    let mut second = program("second");
    second.account_types.push(stored_record("S", vec![], None));
    second.account_types.push(stored_record("B", vec![], None));
    let programs = vec![first, second];
    let kept = merge_types(&programs).expect("no collision");
    let names: Vec<(&str, &str)> =
        kept.iter().map(|(record, program)| (record.name.as_str(), program.as_str())).collect();
    assert_eq!(names, vec![("A", "first"), ("S", "first"), ("B", "second")]);
}

#[test]
fn absorb_types_adds_only_new_records() {
    let known = vec![stored_record("A", vec![], None)];
    let more = vec![stored_record("A", vec![], None), stored_record("B", vec![], None)];
    let clash = vec![stored_record("B", vec![], Some(1))];
    let (one, two, three) = (t("one"), t("two"), t("three"));
    let mut kept: Vec<(&AccountType, &String)> = Vec::new();
    assert_eq!(absorb_types(&mut kept, &known, &one), Ok(()));
    assert_eq!(absorb_types(&mut kept, &more, &two), Ok(()));
    assert_eq!(kept.len(), 2);
    assert_eq!(kept[0].1, "one");
    assert_eq!(kept[1].1, "two");
    assert_eq!(
        absorb_types(&mut kept, &clash, &three),
        Err(GenerateError::NameCollision {
            name: t("B"),
            first_program: t("two"),
            second_program: t("three"),
        })
    );
}

#[test]
fn same_type_compares_structure() {
    let seq_u8 = SemanticType::Sequence(Box::new(SemanticType::U8));
    assert!(same_type(&seq_u8, &SemanticType::Sequence(Box::new(SemanticType::U8))));
    assert!(!same_type(&seq_u8, &SemanticType::Sequence(Box::new(SemanticType::I8))));
    assert!(!same_type(&seq_u8, &SemanticType::Optional(Box::new(SemanticType::U8))));
    assert!(same_type(&SemanticType::Named(t("A")), &SemanticType::Named(t("A"))));
    assert!(!same_type(&SemanticType::Named(t("A")), &SemanticType::Named(t("B"))));
    assert!(same_type(&SemanticType::Bytes(4), &SemanticType::Bytes(4)));
    assert!(!same_type(&SemanticType::Bytes(4), &SemanticType::Bytes(5)));
    assert!(!same_type(&SemanticType::U8, &SemanticType::Bool));
    assert!(same_type(&SemanticType::Address, &SemanticType::Address));
}

#[test]
fn same_record_compares_name_fields_and_length() {
    let base = stored_record("V", vec![typed_field("a", SemanticType::U8), typed_field("b", SemanticType::U16)], Some(11));
    let twin = stored_record("V", vec![typed_field("a", SemanticType::U8), typed_field("b", SemanticType::U16)], Some(11));
    let renamed = stored_record("W", vec![typed_field("a", SemanticType::U8), typed_field("b", SemanticType::U16)], Some(11));
    let reordered = stored_record("V", vec![typed_field("b", SemanticType::U16), typed_field("a", SemanticType::U8)], Some(11));
    let shorter = stored_record("V", vec![typed_field("a", SemanticType::U8)], Some(11));
    let resized = stored_record("V", vec![typed_field("a", SemanticType::U8), typed_field("b", SemanticType::U16)], None);
    assert!(same_record(&base, &twin));
    assert!(!same_record(&base, &renamed));
    assert!(!same_record(&base, &reordered));
    assert!(!same_record(&base, &shorter));
    assert!(!same_record(&base, &resized));
    assert!(same_fields(&base.fields, &twin.fields));
    assert!(!same_fields(&base.fields, &reordered.fields));
}

#[test]
fn generating_twice_yields_the_same_text() {
    let build = || {
        let mut bank = program("bank");
        bank.instructions.push(deposit_instruction());
        bank.errors.push(ErrorVariant { discriminant: 6000, name: t("Denied"), message: None });
        Idl { programs: vec![bank] }
    };
    let first = generate_source_code(&build(), &vec![t("use a::*;")]);
    let second = generate_source_code(&build(), &vec![t("use a::*;")]);
    assert!(first.is_ok());
    assert_eq!(first, second);
}

fn escaped(text: &str) -> String {
    let mut out = String::new();
    push_escaped(&mut out, text);
    out
}

#[test]
fn plain_text_is_written_as_it_is() {
    assert_eq!(escaped(""), "");
    assert_eq!(escaped("You are not authorized."), "You are not authorized.");
    assert_eq!(escaped("pr\u{e9}cis \u{1F980}"), "pr\u{e9}cis \u{1F980}");
}

#[test]
fn quotes_backslashes_and_control_characters_are_escaped() {
    assert_eq!(escaped("\""), "\\\"");
    assert_eq!(escaped("\\"), "\\\\");
    assert_eq!(escaped("a\nb"), "a\\nb");
    assert_eq!(escaped("a\rb"), "a\\rb");
    assert_eq!(escaped("a\tb"), "a\\tb");
    assert_eq!(escaped("say \"hi\" \\ bye"), "say \\\"hi\\\" \\\\ bye");
}

#[test]
fn escaped_text_reads_back_as_the_text() {
    for text in ["", "plain", "\"quoted\"", "back\\slash", "line\nfeed\r\n", "tab\tbed", "\u{e9}\"\u{1F980}\\"] {
        let literal = escaped(text);
        let mut read = String::new();
        let mut chars = literal.chars();
        while let Some(c) = chars.next() {
            if c == '\\' {
                match chars.next() {
                    Some('n') => read.push('\n'),
                    Some('r') => read.push('\r'),
                    Some('t') => read.push('\t'),
                    Some(other) => read.push(other),
                    None => panic!("dangling backslash"),
                }
            } else {
                assert_ne!(c, '"');
                read.push(c);
            }
        }
        assert_eq!(read, text);
    }
}

#[test]
fn escaped_text_is_appended_to_what_is_there() {
    let mut out = String::from("Some(\"");
    push_escaped(&mut out, "a\"b");
    out.push_str("\")");
    assert_eq!(out, "Some(\"a\\\"b\")");
}
