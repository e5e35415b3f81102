//! What holds of extraction and generation on every input.

use crate::collect::{
    lemma_collect_all, lemma_collect_keeps_order, lemma_collect_none, lemma_collect_ok,
    yielding_positions,
};
use crate::conventions::ConventionsModel;
use crate::extract::{
    ExtractErrorModel, Role, account_of, account_step, argument_of, argument_step, context_of,
    error_variants, field_of, field_step, instruction_of, instruction_step, is_entry_point,
    lemma_no_repeated_name, number_variants, record_role, record_step, record_type_of, spec_extract,
    type_table,
};
use crate::idl::{
    AccountRefModel, AccountTypeModel, ErrorVariantModel, FieldModel, IdlModel, InstructionModel,
    ProgramModel,
};
use crate::pipeline::{PipelineErrorModel, SourceModel, spec_client};
use crate::program_client_generator::{
    account_entry, account_entry_fn, field_line, field_line_fn, spec_generate,
};
use crate::shared_types::{
    GenerateErrorModel, collide, declared_types, find_type, lemma_collision_has_witnesses,
    lemma_merge_keeps_each_once, lemma_merge_keeps_every_record, shared_types,
};
use crate::syntax::{FunctionDeclModel, ItemModel, ModuleModel, RecordDeclModel, VariantDeclModel};
use crate::text::{concat_map, lemma_concat_map_split};
use vstd::prelude::*;

verus! {

/// Generation is a function of what its input reads as: two runs on sources,
/// imports and conventions that read the same end the same way, with the
/// same text or the same failure.
pub proof fn law_runs_agree(
    first_sources: Seq<SourceModel>,
    first_imports: Seq<Seq<char>>,
    first_conv: ConventionsModel,
    first_outcome: Result<Seq<char>, PipelineErrorModel>,
    second_sources: Seq<SourceModel>,
    second_imports: Seq<Seq<char>>,
    second_conv: ConventionsModel,
    second_outcome: Result<Seq<char>, PipelineErrorModel>,
)
    requires
        first_sources == second_sources,
        first_imports == second_imports,
        first_conv == second_conv,
        first_outcome == spec_client(first_sources, first_imports, first_conv),
        second_outcome == spec_client(second_sources, second_imports, second_conv),
    ensures
        first_outcome == second_outcome,
{
}

/// The accounts of an instruction are the fields of its context record, one
/// for one and in the declared order; its arguments are the parameters after
/// the first, one for one and in the declared order.
pub proof fn law_instruction_keeps_declared_order(
    f: FunctionDeclModel,
    items: Seq<ItemModel>,
    conv: ConventionsModel,
    instruction: InstructionModel,
)
    requires
        instruction_of(ItemModel::Function(f), items, type_table(items), conv) == Ok::<
            Option<InstructionModel>,
            ExtractErrorModel,
        >(Some(instruction)),
    ensures
        is_entry_point(f, conv),
        context_of(f, items, conv) matches Some(context) && instruction.accounts.len()
            == context.fields.len() && forall|j: int|
            0 <= j < context.fields.len() ==> (#[trigger] instruction.accounts[j]).name
                == context.fields[j].name,
        instruction.args.len() == f.params.len() - 1,
        forall|j: int|
            0 <= j < instruction.args.len() ==> (#[trigger] instruction.args[j]).name == f.params[j
                + 1].name,
{
    let table = type_table(items);
    let context = context_of(f, items, conv)->0;
    let rest = f.params.skip(1);
    let on_params = argument_step(table, f.name);
    let on_fields = account_step(table, conv, context.name);
    lemma_collect_ok(rest, on_params);
    lemma_collect_ok(context.fields, on_fields);
    assert forall|j: int| 0 <= j < rest.len() implies (#[trigger] on_params(rest[j])) matches Ok(
        Some(_),
    ) by {
        assert(on_params(rest[j]) == argument_of(rest[j], table, f.name));
    }
    assert forall|j: int| 0 <= j < context.fields.len() implies (#[trigger] on_fields(
        context.fields[j],
    )) matches Ok(Some(_)) by {
        assert(on_fields(context.fields[j]) == account_of(
            context.fields[j],
            table,
            conv,
            context.name,
        ));
    }
    lemma_collect_all(rest, on_params);
    lemma_collect_all(context.fields, on_fields);
    assert forall|j: int| 0 <= j < instruction.args.len() implies (#[trigger] instruction.args[j]).name
        == f.params[j + 1].name by {
        assert(on_params(rest[j]) == argument_of(rest[j], table, f.name));
        assert(rest[j] == f.params[j + 1]);
    }
    assert forall|j: int| 0 <= j < context.fields.len() implies (#[trigger] instruction.accounts[j]).name
        == context.fields[j].name by {
        assert(on_fields(context.fields[j]) == account_of(
            context.fields[j],
            table,
            conv,
            context.name,
        ));
    }
}

/// The fields of a stored record are the declared fields, one for one and
/// in the declared order.
pub proof fn law_record_keeps_declared_order(
    r: RecordDeclModel,
    role: Role,
    table: Seq<Seq<char>>,
    conv: ConventionsModel,
    record: AccountTypeModel,
)
    requires
        record_type_of(ItemModel::Record(r), role, table, conv) == Ok::<
            Option<AccountTypeModel>,
            ExtractErrorModel,
        >(Some(record)),
    ensures
        record.name == r.name,
        record.fields.len() == r.fields.len(),
        forall|j: int|
            0 <= j < r.fields.len() ==> (#[trigger] record.fields[j]).name == r.fields[j].name,
{
    let on_fields = field_step(table, r.name);
    lemma_collect_ok(r.fields, on_fields);
    assert forall|j: int| 0 <= j < r.fields.len() implies (#[trigger] on_fields(r.fields[j])) matches Ok(
        Some(_),
    ) by {
        assert(on_fields(r.fields[j]) == field_of(r.fields[j], table, r.name));
    }
    lemma_collect_all(r.fields, on_fields);
    assert forall|j: int| 0 <= j < r.fields.len() implies (#[trigger] record.fields[j]).name
        == r.fields[j].name by {
        assert(on_fields(r.fields[j]) == field_of(r.fields[j], table, r.name));
    }
}

/// In the account list that a wrapper builds, the entry of account `j`
/// stands after the entries of exactly the accounts declared before it, and
/// before the entries of exactly those declared after it.
pub proof fn law_account_list_in_declared_order(accounts: Seq<AccountRefModel>, j: int)
    requires
        0 <= j < accounts.len(),
    ensures
        concat_map(accounts, account_entry_fn()) == concat_map(
            accounts.take(j),
            account_entry_fn(),
        ) + account_entry(accounts[j]) + concat_map(accounts.skip(j + 1), account_entry_fn()),
{
    lemma_concat_map_split(accounts, j, account_entry_fn());
}

/// In the text of a record, the line of field `j` stands after the lines of
/// exactly the fields declared before it, and before the lines of exactly
/// those declared after it.
pub proof fn law_fields_in_declared_order(fields: Seq<FieldModel>, j: int)
    requires
        0 <= j < fields.len(),
    ensures
        concat_map(fields, field_line_fn()) == concat_map(fields.take(j), field_line_fn())
            + field_line(fields[j]) + concat_map(fields.skip(j + 1), field_line_fn()),
{
    lemma_concat_map_split(fields, j, field_line_fn());
}

/// Numbering succeeds exactly where every discriminant fits in 32 bits, and
/// then the variant declared at position `i` keeps its name and message and
/// gets the discriminant `base + i`.
pub proof fn law_discriminants_count_from_base(variants: Seq<VariantDeclModel>, base: u32)
    ensures
        number_variants(variants, base) is Ok <==> base + variants.len() <= u32::MAX + 1,
        number_variants(variants, base) matches Ok(errors) ==> errors.len() == variants.len()
            && forall|i: int|
            0 <= i < variants.len() ==> (#[trigger] errors[i]).discriminant == base + i
                && errors[i].name == variants[i].name && errors[i].message == variants[i].message,
{
}

/// The errors of an extracted program count from the base of the
/// conventions, in the order of declaration.
pub proof fn law_program_errors_count_from_base(
    name: Seq<char>,
    module: ModuleModel,
    conv: ConventionsModel,
    program: ProgramModel,
)
    requires
        spec_extract(name, module, conv) == Ok::<ProgramModel, ExtractErrorModel>(program),
    ensures
        program.errors.len() == error_variants(module.items, conv).len(),
        forall|i: int|
            0 <= i < program.errors.len() ==> (#[trigger] program.errors[i]).discriminant
                == conv.error_base + i && program.errors[i].name == error_variants(
                module.items,
                conv,
            )[i].name,
{
    law_discriminants_count_from_base(error_variants(module.items, conv), conv.error_base);
}

/// Whether an item is none of what extraction recognizes: no entry point,
/// no record kept in an account or of state, no enumeration of errors.
pub open spec fn is_unrecognized(item: ItemModel, conv: ConventionsModel) -> bool {
    match item {
        ItemModel::Function(f) => !is_entry_point(f, conv),
        ItemModel::Record(r) => record_role(r, conv) != Role::Account && record_role(r, conv)
            != Role::State,
        ItemModel::Enumeration(e) => !e.tags.contains(conv.error_tag),
        ItemModel::Other => true,
    }
}

/// A module without a recognized item, an empty module among them, has an
/// interface model, and the model is empty.
pub proof fn law_unrecognized_module_is_empty_program(
    name: Seq<char>,
    module: ModuleModel,
    conv: ConventionsModel,
)
    requires
        forall|i: int| 0 <= i < module.items.len() ==> is_unrecognized(#[trigger] module.items[i], conv),
    ensures
        spec_extract(name, module, conv) == Ok::<ProgramModel, ExtractErrorModel>(
            ProgramModel {
                name,
                instructions: Seq::empty(),
                account_types: Seq::empty(),
                state_types: Seq::empty(),
                errors: Seq::empty(),
            },
        ),
{
    let items = module.items;
    let table = type_table(items);
    let on_functions = instruction_step(items, table, conv);
    let on_accounts = record_step(Role::Account, table, conv);
    let on_states = record_step(Role::State, table, conv);
    assert forall|i: int| 0 <= i < items.len() implies (#[trigger] on_functions(items[i])) == Ok::<
        Option<InstructionModel>,
        ExtractErrorModel,
    >(None) by {
        assert(is_unrecognized(items[i], conv));
        assert(on_functions(items[i]) == instruction_of(items[i], items, table, conv));
    }
    assert forall|i: int| 0 <= i < items.len() implies (#[trigger] on_accounts(items[i])) == Ok::<
        Option<AccountTypeModel>,
        ExtractErrorModel,
    >(None) by {
        assert(is_unrecognized(items[i], conv));
        assert(on_accounts(items[i]) == record_type_of(items[i], Role::Account, table, conv));
    }
    assert forall|i: int| 0 <= i < items.len() implies (#[trigger] on_states(items[i])) == Ok::<
        Option<AccountTypeModel>,
        ExtractErrorModel,
    >(None) by {
        assert(is_unrecognized(items[i], conv));
        assert(on_states(items[i]) == record_type_of(items[i], Role::State, table, conv));
    }
    lemma_collect_none(items, on_functions);
    lemma_collect_none(items, on_accounts);
    lemma_collect_none(items, on_states);
    lemma_no_error_variants(items, conv);
    assert(number_variants(Seq::<VariantDeclModel>::empty(), conv.error_base)->Ok_0
        =~= Seq::<ErrorVariantModel>::empty());
}

/// Where no item is an enumeration of errors, there are no error variants.
proof fn lemma_no_error_variants(items: Seq<ItemModel>, conv: ConventionsModel)
    requires
        forall|i: int| 0 <= i < items.len() ==> is_unrecognized(#[trigger] items[i], conv),
    ensures
        error_variants(items, conv) == Seq::<VariantDeclModel>::empty(),
    decreases items.len(),
{
    if items.len() > 0 {
        let front = items.drop_last();
        assert forall|i: int| 0 <= i < front.len() implies is_unrecognized(
            #[trigger] front[i],
            conv,
        ) by {
            assert(front[i] == items[i]);
        }
        lemma_no_error_variants(front, conv);
        assert(is_unrecognized(items[items.len() - 1], conv));
    }
}

/// No two instructions of an extracted program bear the same name.
pub proof fn law_instruction_names_are_unique(
    name: Seq<char>,
    module: ModuleModel,
    conv: ConventionsModel,
    program: ProgramModel,
)
    requires
        spec_extract(name, module, conv) == Ok::<ProgramModel, ExtractErrorModel>(program),
    ensures
        program.well_formed(),
{
    lemma_no_repeated_name(program.instructions);
}

/// A name stands in the table of declared names exactly where some record
/// or enumeration of the module bears it, wherever in the module that is.
pub proof fn law_type_table_holds_every_declaration(items: Seq<ItemModel>, name: Seq<char>)
    ensures
        type_table(items).contains(name) <==> exists|i: int|
            0 <= i < items.len() && match #[trigger] items[i] {
                ItemModel::Record(r) => r.name == name,
                ItemModel::Enumeration(e) => e.name == name,
                _ => false,
            },
    decreases items.len(),
{
    let declares = |item: ItemModel|
        match item {
            ItemModel::Record(r) => r.name == name,
            ItemModel::Enumeration(e) => e.name == name,
            _ => false,
        };
    if items.len() > 0 {
        let front = items.drop_last();
        let last = items.last();
        law_type_table_holds_every_declaration(front, name);
        let table = type_table(items);
        let before = type_table(front);
        if table.contains(name) {
            let k = choose|k: int| 0 <= k < table.len() && table[k] == name;
            if k < before.len() {
                assert(before[k] == name);
                assert(before.contains(name));
                let i = choose|i: int| 0 <= i < front.len() && declares(#[trigger] front[i]);
                assert(items[i] == front[i]);
            } else {
                assert(declares(items[items.len() - 1]));
            }
        }
        if exists|i: int| 0 <= i < items.len() && declares(#[trigger] items[i]) {
            let i = choose|i: int| 0 <= i < items.len() && declares(#[trigger] items[i]);
            if i < front.len() {
                assert(front[i] == items[i]);
                assert(before.contains(name));
                let k = choose|k: int| 0 <= k < before.len() && before[k] == name;
                assert(table[k] == name);
            } else {
                assert(table[table.len() - 1] == name);
            }
        }
    }
}

/// Two different records declared under one name leave the workspace
/// without a client: the merge ends in a collision, whichever programs
/// declare them, and never keeps one of the two in place of the other.
pub proof fn law_collision_is_reported(idl: IdlModel, imports: Seq<Seq<char>>, i: int, j: int)
    requires
        0 <= i < declared_types(idl.programs).len(),
        0 <= j < declared_types(idl.programs).len(),
        declared_types(idl.programs)[i].0.name == declared_types(idl.programs)[j].0.name,
        declared_types(idl.programs)[i].0 != declared_types(idl.programs)[j].0,
    ensures
        shared_types(idl.programs) matches Err(GenerateErrorModel::NameCollision { .. }),
        spec_generate(idl, imports) matches Err(GenerateErrorModel::NameCollision { .. }),
{
    let all = declared_types(idl.programs);
    if shared_types(idl.programs) is Ok {
        lemma_merge_keeps_every_record(all);
        let kept = shared_types(idl.programs)->Ok_0;
        assert(find_type(kept, all[i].0.name) matches Some(known) && known.0 == all[i].0);
        assert(find_type(kept, all[j].0.name) matches Some(known) && known.0 == all[j].0);
    }
}

/// The instructions and records of an extracted program stand in the order
/// of the items that declare them: instruction `k` is the instruction of the
/// `k`-th entry point of the module, and likewise for the records kept in
/// accounts and the records of state.
pub proof fn law_program_keeps_source_order(
    name: Seq<char>,
    module: ModuleModel,
    conv: ConventionsModel,
    program: ProgramModel,
)
    requires
        spec_extract(name, module, conv) == Ok::<ProgramModel, ExtractErrorModel>(program),
    ensures
        ({
            let items = module.items;
            let table = type_table(items);
            let entry_points = yielding_positions(items, instruction_step(items, table, conv));
            let accounts = yielding_positions(items, record_step(Role::Account, table, conv));
            let states = yielding_positions(items, record_step(Role::State, table, conv));
            &&& program.instructions.len() == entry_points.len()
            &&& program.account_types.len() == accounts.len()
            &&& program.state_types.len() == states.len()
            &&& forall|j: int, k: int|
                0 <= j < k < entry_points.len() ==> (#[trigger] entry_points[j])
                    < (#[trigger] entry_points[k])
            &&& forall|j: int, k: int|
                0 <= j < k < accounts.len() ==> (#[trigger] accounts[j]) < (#[trigger] accounts[k])
            &&& forall|j: int, k: int|
                0 <= j < k < states.len() ==> (#[trigger] states[j]) < (#[trigger] states[k])
            &&& forall|k: int|
                0 <= k < entry_points.len() ==> instruction_of(
                    items[#[trigger] entry_points[k]],
                    items,
                    table,
                    conv,
                ) == Ok::<Option<InstructionModel>, ExtractErrorModel>(
                    Some(program.instructions[k]),
                )
            &&& forall|k: int|
                0 <= k < accounts.len() ==> record_type_of(
                    items[#[trigger] accounts[k]],
                    Role::Account,
                    table,
                    conv,
                ) == Ok::<Option<AccountTypeModel>, ExtractErrorModel>(
                    Some(program.account_types[k]),
                )
            &&& forall|k: int|
                0 <= k < states.len() ==> record_type_of(
                    items[#[trigger] states[k]],
                    Role::State,
                    table,
                    conv,
                ) == Ok::<Option<AccountTypeModel>, ExtractErrorModel>(
                    Some(program.state_types[k]),
                )
        }),
{
    let items = module.items;
    let table = type_table(items);
    let on_functions = instruction_step(items, table, conv);
    let on_accounts = record_step(Role::Account, table, conv);
    let on_states = record_step(Role::State, table, conv);
    lemma_collect_keeps_order(items, on_functions);
    lemma_collect_keeps_order(items, on_accounts);
    lemma_collect_keeps_order(items, on_states);
    let entry_points = yielding_positions(items, on_functions);
    let accounts = yielding_positions(items, on_accounts);
    let states = yielding_positions(items, on_states);
    assert forall|k: int| 0 <= k < entry_points.len() implies instruction_of(
        items[#[trigger] entry_points[k]],
        items,
        table,
        conv,
    ) == Ok::<Option<InstructionModel>, ExtractErrorModel>(Some(program.instructions[k])) by {
        assert(on_functions(items[entry_points[k]]) == instruction_of(
            items[entry_points[k]],
            items,
            table,
            conv,
        ));
    }
    assert forall|k: int| 0 <= k < accounts.len() implies record_type_of(
        items[#[trigger] accounts[k]],
        Role::Account,
        table,
        conv,
    ) == Ok::<Option<AccountTypeModel>, ExtractErrorModel>(Some(program.account_types[k])) by {
        assert(on_accounts(items[accounts[k]]) == record_type_of(
            items[accounts[k]],
            Role::Account,
            table,
            conv,
        ));
    }
    assert forall|k: int| 0 <= k < states.len() implies record_type_of(
        items[#[trigger] states[k]],
        Role::State,
        table,
        conv,
    ) == Ok::<Option<AccountTypeModel>, ExtractErrorModel>(Some(program.state_types[k])) by {
        assert(on_states(items[states[k]]) == record_type_of(
            items[states[k]],
            Role::State,
            table,
            conv,
        ));
    }
}

/// The client of a workspace defines every declared record, and defines it
/// once: no two of the shared records bear the same name, each of them is a
/// declared record, and every declared record is the same as the one shared
/// under its name.
pub proof fn law_shared_records_are_the_declared_ones(programs: Seq<ProgramModel>)
    requires
        shared_types(programs) is Ok,
    ensures
        ({
            let shared = shared_types(programs)->Ok_0;
            let declared = declared_types(programs);
            &&& forall|a: int, b: int|
                0 <= a < b < shared.len() ==> (#[trigger] shared[a]).0.name != (
                #[trigger] shared[b]).0.name
            &&& forall|k: int| 0 <= k < shared.len() ==> declared.contains(#[trigger] shared[k])
            &&& forall|i: int|
                0 <= i < declared.len() ==> (find_type(shared, (#[trigger] declared[i]).0.name) matches Some(
                    known,
                ) && known.0 == declared[i].0)
        }),
{
    lemma_merge_keeps_each_once(declared_types(programs));
    lemma_merge_keeps_every_record(declared_types(programs));
}


/// A collision is never reported without cause: the name reported is borne
/// by two different declared records, the earlier one declared by the first
/// program reported and the later one by the second.
pub proof fn law_collision_is_genuine(programs: Seq<ProgramModel>)
    requires
        shared_types(programs) is Err,
    ensures
        shared_types(programs) matches Err(
            GenerateErrorModel::NameCollision { name, first_program, second_program },
        ) && collide(declared_types(programs), name, first_program, second_program),
{
    lemma_collision_has_witnesses(declared_types(programs));
}

} // verus!
