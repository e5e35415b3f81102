//! The records that the programs of a workspace share.
//!
//! Every declared record is written once into the client. Programs may
//! declare the same record; they may not declare two different records under
//! one name.

use crate::idl::{AccountType, AccountTypeModel, Field, Program, ProgramModel, SemanticType};
use vstd::prelude::*;

verus! {

/// Why no client can be generated.
#[derive(Debug, PartialEq, Eq)]
pub enum GenerateError {
    /// Two different records are declared under this name: one in the
    /// program `first_program`, and later one in the program
    /// `second_program`.
    NameCollision { name: String, first_program: String, second_program: String },
}

/// Mathematical model of [`GenerateError`].
pub enum GenerateErrorModel {
    NameCollision { name: Seq<char>, first_program: Seq<char>, second_program: Seq<char> },
}

impl DeepView for GenerateError {
    type V = GenerateErrorModel;

    open spec fn deep_view(&self) -> GenerateErrorModel {
        match self {
            GenerateError::NameCollision {
                name,
                first_program,
                second_program,
            } => GenerateErrorModel::NameCollision {
                name: name@,
                first_program: first_program@,
                second_program: second_program@,
            },
        }
    }
}

/// What a generation failure reads as.
pub open spec fn generate_error_text(e: GenerateErrorModel) -> Seq<char> {
    match e {
        GenerateErrorModel::NameCollision {
            name,
            first_program,
            second_program,
        } => "conflicting declarations of type `"@ + name + "` in `"@ + first_program
            + "` and `"@ + second_program + "`"@,
    }
}

impl GenerateError {
    /// The failure in words. The text is never empty.
    pub fn message(&self) -> (res: String)
        ensures
            res@ == generate_error_text(self.deep_view()),
            res@.len() > 0,
    {
        let mut out = String::new();
        match self {
            GenerateError::NameCollision { name, first_program, second_program } => {
                proof {
                    reveal_strlit("conflicting declarations of type `");
                }
                out.append("conflicting declarations of type `");
                out.append(name.as_str());
                out.append("` in `");
                out.append(first_program.as_str());
                out.append("` and `");
                out.append(second_program.as_str());
                out.append("`");
            },
        }
        proof {
            assert(out@ =~= generate_error_text(self.deep_view()));
        }
        out
    }
}

/// A declared record, with the name of the program that declares it.
pub type Declared = (AccountTypeModel, Seq<char>);

/// The records kept so far, each with the program that declared it first,
/// or the collision that ended the merge.
pub type Merge = Result<Seq<Declared>, GenerateErrorModel>;

/// The first of the records that bears the given name.
pub open spec fn find_type(kept: Seq<Declared>, name: Seq<char>) -> Option<Declared>
    decreases kept.len(),
{
    if kept.len() == 0 {
        None
    } else if kept[0].0.name == name {
        Some(kept[0])
    } else {
        find_type(kept.drop_first(), name)
    }
}

/// Takes one more record into the merge. A record of a new name is kept
/// after the others, a record that is already kept changes nothing, and a
/// record that differs from the one kept under its name is a collision
/// between the program that declared the kept one and the program that
/// declares this one.
pub open spec fn absorb(state: Merge, d: Declared) -> Merge {
    match state {
        Err(e) => Err(e),
        Ok(kept) => match find_type(kept, d.0.name) {
            None => Ok(kept.push(d)),
            Some(known) => if known.0 == d.0 {
                Ok(kept)
            } else {
                Err(
                    GenerateErrorModel::NameCollision {
                        name: d.0.name,
                        first_program: known.1,
                        second_program: d.1,
                    },
                )
            },
        },
    }
}

/// Takes the records into the merge one by one, in order.
pub open spec fn absorb_all(state: Merge, types: Seq<Declared>) -> Merge
    decreases types.len(),
{
    if types.len() == 0 {
        state
    } else {
        absorb(absorb_all(state, types.drop_last()), types.last())
    }
}

/// The records of one list, as declared by the given program.
pub open spec fn declared_by(types: Seq<AccountTypeModel>, program: Seq<char>) -> Seq<Declared> {
    Seq::new(types.len(), |i: int| (types[i], program))
}

/// All records that the programs declare, program by program; within a
/// program the records kept in accounts go before the records of state.
pub open spec fn declared_types(programs: Seq<ProgramModel>) -> Seq<Declared>
    decreases programs.len(),
{
    if programs.len() == 0 {
        Seq::empty()
    } else {
        declared_types(programs.drop_last()) + declared_by(
            programs.last().account_types,
            programs.last().name,
        ) + declared_by(programs.last().state_types, programs.last().name)
    }
}

/// The records that the client defines: each declared record once, in the
/// order of first declaration; or the first collision.
pub open spec fn shared_types(programs: Seq<ProgramModel>) -> Merge {
    absorb_all(Ok(Seq::empty()), declared_types(programs))
}

/// A collision on a prefix is the outcome of the whole.
pub proof fn lemma_absorb_all_failure(state: Merge, types: Seq<Declared>, i: int)
    requires
        0 <= i <= types.len(),
        absorb_all(state, types.take(i)) is Err,
    ensures
        absorb_all(state, types) == absorb_all(state, types.take(i)),
    decreases types.len() - i,
{
    if i == types.len() {
        assert(types.take(i) =~= types);
    } else {
        assert(types.take(i + 1).drop_last() =~= types.take(i));
        lemma_absorb_all_failure(state, types, i + 1);
    }
}

/// Merging two runs of records one after the other is merging their
/// concatenation.
pub proof fn lemma_absorb_all_append(state: Merge, a: Seq<Declared>, b: Seq<Declared>)
    ensures
        absorb_all(state, a + b) == absorb_all(absorb_all(state, a), b),
    decreases b.len(),
{
    if b.len() == 0 {
        assert(a + b =~= a);
    } else {
        lemma_absorb_all_append(state, a, b.drop_last());
        assert((a + b).drop_last() =~= a + b.drop_last());
    }
}

/// Whether two semantic types are the same.
pub fn same_type(a: &SemanticType, b: &SemanticType) -> (res: bool)
    ensures
        res == (a.deep_view() == b.deep_view()),
    decreases a,
{
    match (a, b) {
        (SemanticType::U8, SemanticType::U8) => true,
        (SemanticType::U16, SemanticType::U16) => true,
        (SemanticType::U32, SemanticType::U32) => true,
        (SemanticType::U64, SemanticType::U64) => true,
        (SemanticType::U128, SemanticType::U128) => true,
        (SemanticType::I8, SemanticType::I8) => true,
        (SemanticType::I16, SemanticType::I16) => true,
        (SemanticType::I32, SemanticType::I32) => true,
        (SemanticType::I64, SemanticType::I64) => true,
        (SemanticType::I128, SemanticType::I128) => true,
        (SemanticType::Bool, SemanticType::Bool) => true,
        (SemanticType::Text, SemanticType::Text) => true,
        (SemanticType::Bytes(m), SemanticType::Bytes(n)) => *m == *n,
        (SemanticType::Address, SemanticType::Address) => true,
        (SemanticType::Named(m), SemanticType::Named(n)) => *m == *n,
        (SemanticType::Sequence(x), SemanticType::Sequence(y)) => same_type(x, y),
        (SemanticType::Optional(x), SemanticType::Optional(y)) => same_type(x, y),
        _ => false,
    }
}

/// Whether two lists of fields are the same: the same names and types in
/// the same order.
pub fn same_fields(a: &Vec<Field>, b: &Vec<Field>) -> (res: bool)
    ensures
        res == (a.deep_view() == b.deep_view()),
{
    if a.len() != b.len() {
        assert(a.deep_view().len() != b.deep_view().len());
        return false;
    }
    let mut i: usize = 0;
    while i < a.len()
        invariant
            i <= a.len(),
            a.len() == b.len(),
            forall|k: int| 0 <= k < i ==> a.deep_view()[k] == b.deep_view()[k],
        decreases a.len() - i,
    {
        let same = a[i].name == b[i].name && same_type(&a[i].ty, &b[i].ty);
        if !same {
            assert(a.deep_view()[i as int] != b.deep_view()[i as int]);
            return false;
        }
        i += 1;
    }
    assert(a.deep_view() =~= b.deep_view());
    true
}

/// Whether two records are the same: the same name, fields and stored
/// length.
pub fn same_record(a: &AccountType, b: &AccountType) -> (res: bool)
    ensures
        res == (a.deep_view() == b.deep_view()),
{
    let same_size = match (a.size, b.size) {
        (Some(m), Some(n)) => m == n,
        (None, None) => true,
        _ => false,
    };
    same_size && a.name == b.name && same_fields(&a.fields, &b.fields)
}

/// Looks up the first kept record of the given name.
fn find_kept(kept: &Vec<(&AccountType, &String)>, name: &String) -> (res: Option<usize>)
    ensures
        match res {
            Some(k) => k < kept.len() && find_type(kept.deep_view(), name@) == Some(
                kept.deep_view()[k as int],
            ),
            None => find_type(kept.deep_view(), name@) is None,
        },
{
    let ghost model = kept.deep_view();
    let mut i: usize = 0;
    proof {
        assert(model.skip(0) =~= model);
    }
    while i < kept.len()
        invariant
            i <= kept.len(),
            model == kept.deep_view(),
            find_type(model, name@) == find_type(model.skip(i as int), name@),
        decreases kept.len() - i,
    {
        proof {
            assert(model.skip(i as int).drop_first() =~= model.skip(i + 1));
            assert(model.skip(i as int)[0] == model[i as int]);
        }
        if kept[i].0.name == *name {
            return Some(i);
        }
        i += 1;
    }
    None
}

/// Takes the records that the program `program` declares in one list into
/// the merge.
pub fn absorb_types<'a>(
    kept: &mut Vec<(&'a AccountType, &'a String)>,
    types: &'a Vec<AccountType>,
    program: &'a String,
) -> (res: Result<(), GenerateError>)
    ensures
        match res {
            Ok(_) => absorb_all(
                Ok(old(kept).deep_view()),
                declared_by(types.deep_view(), program@),
            ) == Ok::<Seq<Declared>, GenerateErrorModel>(final(kept).deep_view()),
            Err(e) => absorb_all(
                Ok(old(kept).deep_view()),
                declared_by(types.deep_view(), program@),
            ) == Err::<Seq<Declared>, GenerateErrorModel>(e.deep_view()),
        },
{
    let ghost start: Merge = Ok(old(kept).deep_view());
    let ghost model = declared_by(types.deep_view(), program@);
    let mut i: usize = 0;
    while i < types.len()
        invariant
            i <= types.len(),
            start == Ok::<Seq<Declared>, GenerateErrorModel>(old(kept).deep_view()),
            model == declared_by(types.deep_view(), program@),
            absorb_all(start, model.take(i as int)) == Ok::<Seq<Declared>, GenerateErrorModel>(
                kept.deep_view(),
            ),
        decreases types.len() - i,
    {
        let ghost before = kept.deep_view();
        let t = &types[i];
        proof {
            assert(model.take(i + 1).drop_last() =~= model.take(i as int));
            assert(model[i as int] == (t.deep_view(), program@));
        }
        match find_kept(kept, &t.name) {
            None => {
                kept.push((t, program));
                assert(kept.deep_view() =~= before.push((t.deep_view(), program@)));
            },
            Some(k) => {
                let known = kept[k];
                if !same_record(known.0, t) {
                    proof {
                        lemma_absorb_all_failure(start, model, i + 1);
                    }
                    return Err(
                        GenerateError::NameCollision {
                            name: t.name.clone(),
                            first_program: known.1.clone(),
                            second_program: program.clone(),
                        },
                    );
                }
            },
        }
        i += 1;
    }
    proof {
        assert(model.take(types.len() as int) =~= model);
    }
    Ok(())
}

/// Merges the records that the programs declare. Each kept record comes
/// with the name of the program that declared it first.
pub fn merge_types<'a>(programs: &'a Vec<Program>) -> (res: Result<
    Vec<(&'a AccountType, &'a String)>,
    GenerateError,
>)
    ensures
        match res {
            Ok(kept) => shared_types(programs.deep_view()) == Ok::<
                Seq<Declared>,
                GenerateErrorModel,
            >(kept.deep_view()),
            Err(e) => shared_types(programs.deep_view()) == Err::<
                Seq<Declared>,
                GenerateErrorModel,
            >(e.deep_view()),
        },
{
    let ghost model = programs.deep_view();
    let ghost start: Merge = Ok(Seq::empty());
    let mut kept: Vec<(&'a AccountType, &'a String)> = Vec::new();
    let mut p: usize = 0;
    proof {
        assert(kept.deep_view() =~= Seq::empty());
    }
    while p < programs.len()
        invariant
            p <= programs.len(),
            model == programs.deep_view(),
            start == Ok::<Seq<Declared>, GenerateErrorModel>(Seq::empty()),
            absorb_all(start, declared_types(model.take(p as int))) == Ok::<
                Seq<Declared>,
                GenerateErrorModel,
            >(kept.deep_view()),
        decreases programs.len() - p,
    {
        let program = &programs[p];
        let ghost done = declared_types(model.take(p as int));
        let ghost accounts = declared_by(program.deep_view().account_types, program.name@);
        let ghost states = declared_by(program.deep_view().state_types, program.name@);
        proof {
            assert(model.take(p + 1).drop_last() =~= model.take(p as int));
            assert(model[p as int] == program.deep_view());
            assert(declared_types(model.take(p + 1)) == done + accounts + states);
            lemma_absorb_all_append(start, done, accounts);
            lemma_absorb_all_append(start, done + accounts, states);
            lemma_declared_types_prefix(model, p + 1);
        }
        match absorb_types(&mut kept, &program.account_types, &program.name) {
            Err(e) => {
                proof {
                    lemma_absorb_all_failure(absorb_all(start, done + accounts), states, 0);
                    lemma_absorb_all_failure(
                        start,
                        declared_types(model),
                        declared_types(model.take(p + 1)).len() as int,
                    );
                }
                return Err(e);
            },
            Ok(_) => {},
        }
        match absorb_types(&mut kept, &program.state_types, &program.name) {
            Err(e) => {
                proof {
                    lemma_absorb_all_failure(
                        start,
                        declared_types(model),
                        declared_types(model.take(p + 1)).len() as int,
                    );
                }
                return Err(e);
            },
            Ok(_) => {},
        }
        p += 1;
    }
    proof {
        assert(model.take(programs.len() as int) =~= model);
    }
    Ok(kept)
}

/// The records of a prefix of the programs open the records of all the
/// programs.
pub proof fn lemma_declared_types_prefix(programs: Seq<ProgramModel>, i: int)
    requires
        0 <= i <= programs.len(),
    ensures
        declared_types(programs.take(i)).len() <= declared_types(programs).len(),
        declared_types(programs).take(declared_types(programs.take(i)).len() as int)
            == declared_types(programs.take(i)),
    decreases programs.len() - i,
{
    if i == programs.len() {
        assert(programs.take(i) =~= programs);
        assert(declared_types(programs).take(declared_types(programs).len() as int)
            =~= declared_types(programs));
    } else {
        lemma_declared_types_prefix(programs, i + 1);
        assert(programs.take(i + 1).drop_last() =~= programs.take(i));
        let shorter = declared_types(programs.take(i));
        let longer = declared_types(programs.take(i + 1));
        let all = declared_types(programs);
        assert(shorter =~= longer.take(shorter.len() as int));
        assert(all.take(shorter.len() as int) =~= all.take(longer.len() as int).take(
            shorter.len() as int,
        ));
    }
}

/// Appending a record to the kept ones changes no lookup that found one,
/// and answers with the new record the lookups of its name that found none.
pub proof fn lemma_find_type_push(kept: Seq<Declared>, d: Declared, name: Seq<char>)
    ensures
        find_type(kept.push(d), name) == match find_type(kept, name) {
            Some(known) => Some(known),
            None => if d.0.name == name {
                Some(d)
            } else {
                None
            },
        },
    decreases kept.len(),
{
    if kept.len() == 0 {
        assert(kept.push(d).drop_first() =~= kept);
    } else {
        assert(kept.push(d).drop_first() =~= kept.drop_first().push(d));
        lemma_find_type_push(kept.drop_first(), d, name);
    }
}

/// Where the merge of some records succeeds, each of them is the same as
/// the record kept under its name.
pub proof fn lemma_merge_keeps_every_record(types: Seq<Declared>)
    requires
        absorb_all(Ok(Seq::empty()), types) is Ok,
    ensures
        forall|k: int|
            0 <= k < types.len() ==> (find_type(
                absorb_all(Ok(Seq::empty()), types)->Ok_0,
                (#[trigger] types[k]).0.name,
            ) matches Some(known) && known.0 == types[k].0),
    decreases types.len(),
{
    if types.len() > 0 {
        let front = types.drop_last();
        let last = types.last();
        let start: Merge = Ok(Seq::empty());
        let before = absorb_all(start, front)->Ok_0;
        let after = absorb_all(start, types)->Ok_0;
        lemma_merge_keeps_every_record(front);
        assert forall|k: int| 0 <= k < types.len() implies (find_type(
            after,
            (#[trigger] types[k]).0.name,
        ) matches Some(known) && known.0 == types[k].0) by {
            lemma_find_type_push(before, last, types[k].0.name);
            if k < types.len() - 1 {
                assert(front[k] == types[k]);
            }
        }
    }
}

/// A lookup finds nothing exactly where no kept record bears the name, and
/// what it finds is a kept record of that name.
pub proof fn lemma_find_type_found(kept: Seq<Declared>, name: Seq<char>)
    ensures
        find_type(kept, name) is None <==> forall|k: int|
            0 <= k < kept.len() ==> (#[trigger] kept[k]).0.name != name,
        find_type(kept, name) matches Some(known) ==> known.0.name == name && kept.contains(known),
    decreases kept.len(),
{
    if kept.len() > 0 {
        let rest = kept.drop_first();
        lemma_find_type_found(rest, name);
        if kept[0].0.name != name {
            if find_type(rest, name) is None {
                assert forall|k: int| 0 <= k < kept.len() implies (#[trigger] kept[k]).0.name
                    != name by {
                    if k > 0 {
                        assert(rest[k - 1] == kept[k]);
                    }
                }
            } else {
                let known = find_type(rest, name)->0;
                let k = choose|k: int| 0 <= k < rest.len() && rest[k] == known;
                assert(kept[k + 1] == known);
            }
        } else {
            assert(kept[0] == kept[0]);
        }
    }
}

/// Where the merge of some records succeeds, no two of the records kept
/// bear the same name, and each of them is one of the records merged, with
/// the program that declares it.
pub proof fn lemma_merge_keeps_each_once(types: Seq<Declared>)
    requires
        absorb_all(Ok(Seq::empty()), types) is Ok,
    ensures
        forall|a: int, b: int|
            0 <= a < b < absorb_all(Ok(Seq::empty()), types)->Ok_0.len() ==> (
            #[trigger] absorb_all(Ok(Seq::empty()), types)->Ok_0[a]).0.name != (
            #[trigger] absorb_all(Ok(Seq::empty()), types)->Ok_0[b]).0.name,
        forall|k: int|
            0 <= k < absorb_all(Ok(Seq::empty()), types)->Ok_0.len() ==> types.contains(
                #[trigger] absorb_all(Ok(Seq::empty()), types)->Ok_0[k],
            ),
    decreases types.len(),
{
    if types.len() > 0 {
        let front = types.drop_last();
        let last = types.last();
        let start: Merge = Ok(Seq::empty());
        let before = absorb_all(start, front)->Ok_0;
        let after = absorb_all(start, types)->Ok_0;
        lemma_merge_keeps_each_once(front);
        lemma_find_type_found(before, last.0.name);
        assert forall|k: int| 0 <= k < after.len() implies types.contains(#[trigger] after[k]) by {
            if k < before.len() {
                assert(after[k] == before[k]);
                let i = choose|i: int| 0 <= i < front.len() && front[i] == before[k];
                assert(types[i] == before[k]);
            } else {
                assert(types[types.len() - 1] == after[k]);
            }
        }
        assert forall|a: int, b: int| 0 <= a < b < after.len() implies (#[trigger] after[a]).0.name
            != (#[trigger] after[b]).0.name by {
            assert(after[a] == before[a]);
            if b < before.len() {
                assert(after[b] == before[b]);
            }
        }
    }
}

/// Whether two different records are declared under the given name, the
/// earlier one by `first_program` and the later one by `second_program`.
pub open spec fn collide(
    declared: Seq<Declared>,
    name: Seq<char>,
    first_program: Seq<char>,
    second_program: Seq<char>,
) -> bool {
    exists|i: int, j: int|
        0 <= i < j < declared.len() && (#[trigger] declared[i]).0.name == name
            && (#[trigger] declared[j]).0.name == name && declared[i].0 != declared[j].0
            && declared[i].1 == first_program && declared[j].1 == second_program
}

/// A merge that ends in a collision has met two different records of the
/// reported name, declared by the reported programs.
pub proof fn lemma_collision_has_witnesses(types: Seq<Declared>)
    requires
        absorb_all(Ok(Seq::empty()), types) is Err,
    ensures
        absorb_all(Ok(Seq::empty()), types) matches Err(
            GenerateErrorModel::NameCollision { name, first_program, second_program },
        ) && collide(types, name, first_program, second_program),
    decreases types.len(),
{
    let start: Merge = Ok(Seq::empty());
    if types.len() > 0 {
        let front = types.drop_last();
        let last = types.last();
        if absorb_all(start, front) is Err {
            lemma_collision_has_witnesses(front);
            let e = absorb_all(start, front)->Err_0;
            let (i, j) = choose|i: int, j: int|
                0 <= i < j < front.len() && (#[trigger] front[i]).0.name == e->name
                    && (#[trigger] front[j]).0.name == e->name && front[i].0 != front[j].0
                    && front[i].1 == e->first_program && front[j].1 == e->second_program;
            assert(types[i] == front[i] && types[j] == front[j]);
        } else {
            let before = absorb_all(start, front)->Ok_0;
            lemma_find_type_found(before, last.0.name);
            lemma_merge_keeps_each_once(front);
            let known = find_type(before, last.0.name)->0;
            let k = choose|k: int| 0 <= k < before.len() && before[k] == known;
            assert(front.contains(before[k]));
            let i = choose|i: int| 0 <= i < front.len() && front[i] == known;
            assert(types[i] == known);
            assert(types[types.len() - 1] == last);
        }
    }
}

} // verus!
