use gecko_client::conventions::Conventions;
use gecko_client::extract::ExtractError;
use gecko_client::pipeline::{
    extract_all, finish, generate_client, source_of, PipelineError, Source,
};
use gecko_client::shared_types::GenerateError;
use gecko_client::syntax::{
    EnumDecl, FieldDecl, FunctionDecl, Item, Module, Param, RecordDecl, TypeExpr, VariantDecl,
};

fn w(text: &str) -> String {
    text.to_string()
}

fn words(items: &[&str]) -> Vec<String> {
    items.iter().map(|x| x.to_string()).collect()
}

fn plain(text: &str) -> TypeExpr {
    TypeExpr::Name(w(text))
}

fn wrapped(head: &str, arg: &str) -> TypeExpr {
    TypeExpr::Apply(w(head), Box::new(plain(arg)))
}

fn bank_module(balance_type: &str) -> Module {
    Module {
        items: vec![
            Item::Other,
            Item::Function(FunctionDecl {
                name: w("deposit"),
                is_public: true,
                params: vec![
                    Param { name: w("ctx"), ty: wrapped("Context", "Deposit") },
                    Param { name: w("amount"), ty: plain("u64") },
                ],
            }),
            Item::Record(RecordDecl {
                name: w("Deposit"),
                tags: words(&["Accounts"]),
                fields: vec![
                    FieldDecl {
                        name: w("vault"),
                        ty: wrapped("Account", "Vault"),
                        markers: words(&["mut"]),
                    },
                    FieldDecl { name: w("depositor"), ty: plain("Signer"), markers: vec![] },
                ],
            }),
            Item::Record(RecordDecl {
                name: w("Vault"),
                tags: words(&["account"]),
                fields: vec![FieldDecl {
                    name: w("balance"),
                    ty: plain(balance_type),
                    markers: vec![],
                }],
            }),
            Item::Enumeration(EnumDecl {
                name: w("BankError"),
                tags: words(&["error_code"]),
                variants: vec![
                    VariantDecl {
                        name: w("Unauthorized"),
                        message: Some(w("You are not authorized.")),
                    },
                    VariantDecl { name: w("InsufficientFunds"), message: None },
                    VariantDecl { name: w("Expired"), message: None },
                ],
            }),
        ],
    }
}

fn bank_client() -> String {
    [
        "use gecko_client::*;\n",
        "\n",
        "pub struct Vault {\n",
        "    pub balance: u64,\n",
        "}\n",
        "\n",
        "impl Vault {\n",
        "    pub const LEN: usize = 16;\n",
        "}\n",
        "\n",
        "pub mod bank {\n",
        "    use super::*;\n",
        "\n",
        "    pub enum ErrorCode {\n",
        "        Unauthorized = 6000,\n",
        "        InsufficientFunds = 6001,\n",
        "        Expired = 6002,\n",
        "    }\n",
        "\n",
        "    impl ErrorCode {\n",
        "        pub fn from_code(code: u32) -> Option<Self> {\n",
        "            match code {\n",
        "                6000 => Some(Self::Unauthorized),\n",
        "                6001 => Some(Self::InsufficientFunds),\n",
        "                6002 => Some(Self::Expired),\n",
        "                _ => None,\n",
        "            }\n",
        "        }\n",
        "\n",
        "        pub fn message(&self) -> Option<&'static str> {\n",
        "            match *self {\n",
        "                Self::Unauthorized => Some(\"You are not authorized.\"),\n",
        "                Self::InsufficientFunds => None,\n",
        "                Self::Expired => None,\n",
        "            }\n",
        "        }\n",
        "    }\n",
        "\n",
        "    pub fn deposit(\n",
        "        program_id: Pubkey,\n",
        "        i_amount: u64,\n",
        "        a_vault: Pubkey,\n",
        "        a_depositor: Pubkey,\n",
        "    ) -> Result<Signature, Error> {\n",
        "        let accounts = vec![\n",
        "            AccountMeta { pubkey: a_vault, is_signer: false, is_writable: true },\n",
        "            AccountMeta { pubkey: a_depositor, is_signer: true, is_writable: false },\n",
        "        ];\n",
        "        let mut data: Vec<u8> = Vec::new();\n",
        "        i_amount.serialize(&mut data)?;\n",
        "        send(program_id, \"deposit\", accounts, data)\n",
        "    }\n",
        "\n",
        "}\n",
    ]
    .concat()
}

#[test]
fn bank_module_generates_its_client() {
    let sources = vec![Source { name: w("bank"), module: bank_module("u64") }];
    let text = generate_client(&sources, &words(&["use gecko_client::*;"]), &Conventions::standard());
    assert_eq!(text, Ok(bank_client()));
}

#[test]
fn two_runs_on_the_same_source_yield_the_same_text() {
    let first = generate_client(
        &vec![Source { name: w("bank"), module: bank_module("u64") }],
        &words(&["use gecko_client::*;"]),
        &Conventions::standard(),
    );
    let second = generate_client(
        &vec![Source { name: w("bank"), module: bank_module("u64") }],
        &words(&["use gecko_client::*;"]),
        &Conventions::standard(),
    );
    assert!(first.is_ok());
    assert_eq!(first, second);
}

#[test]
fn extraction_failure_ends_the_run() {
    let sources = vec![
        Source { name: w("good"), module: bank_module("u64") },
        Source { name: w("bad"), module: bank_module("Money") },
        Source {
            name: w("worse"),
            module: Module { items: vec![Item::Function(FunctionDecl {
                name: w("f"),
                is_public: true,
                params: vec![Param { name: w("ctx"), ty: wrapped("Context", "Gone") }],
            })] },
        },
    ];
    let outcome = generate_client(&sources, &vec![], &Conventions::standard());
    assert_eq!(
        outcome,
        Err(PipelineError::Extract(ExtractError::UnresolvedType {
            name: w("Money"),
            owner: w("Vault")
        }))
    );
    assert_eq!(
        extract_all(&sources, &Conventions::standard()),
        Err(ExtractError::UnresolvedType { name: w("Money"), owner: w("Vault") })
    );
}

#[test]
fn collision_between_programs_ends_the_run() {
    let sources = vec![
        Source { name: w("one"), module: bank_module("u64") },
        Source { name: w("two"), module: bank_module("u128") },
    ];
    let outcome = generate_client(&sources, &vec![], &Conventions::standard());
    assert_eq!(
        outcome,
        Err(PipelineError::Generate(GenerateError::NameCollision {
            name: w("Vault"),
            first_program: w("one"),
            second_program: w("two"),
        }))
    );
}

#[test]
fn programs_sharing_a_record_define_it_once() {
    let sources = vec![
        Source { name: w("one"), module: bank_module("u64") },
        Source { name: w("two"), module: bank_module("u64") },
    ];
    let text = generate_client(&sources, &vec![], &Conventions::standard()).expect("generates");
    assert_eq!(text.matches("pub struct Vault {").count(), 1);
    assert_eq!(text.matches("pub fn deposit(").count(), 2);
    assert!(text.find("pub mod one {").unwrap() < text.find("pub mod two {").unwrap());
}

#[test]
fn extract_all_keeps_the_order_of_the_sources() {
    let sources = vec![
        Source { name: w("b"), module: Module { items: vec![] } },
        Source { name: w("a"), module: bank_module("u64") },
    ];
    let idl = extract_all(&sources, &Conventions::standard()).expect("extracts");
    let names: Vec<&str> = idl.programs.iter().map(|p| p.name.as_str()).collect();
    assert_eq!(names, vec!["b", "a"]);
    assert_eq!(idl.programs[0].instructions.len(), 0);
    assert_eq!(idl.programs[1].instructions.len(), 1);
}

#[test]
fn no_sources_generate_the_imports_alone() {
    let text = generate_client(&vec![], &words(&["use x::*;"]), &Conventions::standard());
    assert_eq!(text, Ok(w("use x::*;\n\n")));
}

#[test]
fn finish_hands_on_the_formatted_text() {
    assert_eq!(finish(w("fn  a ( ) { }"), Ok(w("fn a() {}\n"))), Ok(w("fn a() {}\n")));
}

#[test]
fn finish_keeps_the_unformatted_text_on_failure() {
    let outcome = finish(w("fn  a ( ) { }"), Err(w("exit status 1")));
    assert_eq!(
        outcome,
        Err(PipelineError::Format { unformatted: w("fn  a ( ) { }"), message: w("exit status 1") })
    );
}

#[test]
fn pipeline_errors_read_as_non_empty_messages() {
    let format = PipelineError::Format { unformatted: w("x"), message: w("exit status 1") };
    assert_eq!(format.message(), "formatter failed: exit status 1");
    let silent = PipelineError::Format { unformatted: String::new(), message: String::new() };
    assert!(!silent.message().is_empty());
    let extract = PipelineError::Extract(ExtractError::DuplicateInstruction {
        name: w("run"),
        first: 1,
        second: 4,
    });
    assert_eq!(extract.message(), "duplicate instruction `run`: entry points 1 and 4");
    let generate = PipelineError::Generate(GenerateError::NameCollision {
        name: w("Vault"),
        first_program: w("one"),
        second_program: w("two"),
    });
    assert_eq!(generate.message(), "conflicting declarations of type `Vault` in `one` and `two`");
}

#[test]
fn parsed_module_becomes_a_source() {
    let source = source_of(w("bank"), Ok(bank_module("u64")));
    assert_eq!(source, Ok(Source { name: w("bank"), module: bank_module("u64") }));
}

#[test]
fn parse_failure_becomes_the_failure_of_the_run() {
    let outcome = source_of(w("bank"), Err(w("expected `;` at line 3 column 7")));
    assert_eq!(
        outcome,
        Err(PipelineError::Parse {
            program: w("bank"),
            message: w("expected `;` at line 3 column 7")
        })
    );
    let error = outcome.unwrap_err();
    assert_eq!(error.message(), "cannot parse `bank`: expected `;` at line 3 column 7");
    let bare = PipelineError::Parse { program: String::new(), message: String::new() };
    assert!(!bare.message().is_empty());
}
