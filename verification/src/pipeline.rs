//! The whole way from declarations to client text.

use crate::collect::{collect, lemma_collect_failure, lemma_collect_step, result_model};
use crate::conventions::{Conventions, ConventionsModel};
use crate::extract::{
    ExtractError, ExtractErrorModel, extract_error_text, parse_to_idl_program, spec_extract,
};
use crate::idl::{Idl, IdlModel, Program, ProgramModel};
use crate::program_client_generator::{generate_source_code, spec_generate};
use crate::shared_types::{GenerateError, GenerateErrorModel, generate_error_text};
use crate::syntax::{Module, ModuleModel};
use vstd::prelude::*;

verus! {

/// The declarations of one program, with the program's name.
#[derive(Debug, PartialEq, Eq)]
pub struct Source {
    pub name: String,
    pub module: Module,
}

/// Mathematical model of [`Source`].
pub struct SourceModel {
    pub name: Seq<char>,
    pub module: ModuleModel,
}

impl DeepView for Source {
    type V = SourceModel;

    open spec fn deep_view(&self) -> SourceModel {
        SourceModel { name: self.name@, module: self.module.deep_view() }
    }
}

/// Why a run yielded no client.
#[derive(Debug, PartialEq, Eq)]
pub enum PipelineError {
    /// The source of a program could not be parsed; with what the parser
    /// said, the place in the source included.
    Parse { program: String, message: String },
    /// A module has no interface model.
    Extract(ExtractError),
    /// The interface models have no client text.
    Generate(GenerateError),
    /// The formatter refused the generated text, which is handed back as it
    /// was generated, with what the formatter said.
    Format { unformatted: String, message: String },
}

/// Mathematical model of [`PipelineError`].
pub enum PipelineErrorModel {
    Parse { program: Seq<char>, message: Seq<char> },
    Extract(ExtractErrorModel),
    Generate(GenerateErrorModel),
    Format { unformatted: Seq<char>, message: Seq<char> },
}

impl DeepView for PipelineError {
    type V = PipelineErrorModel;

    open spec fn deep_view(&self) -> PipelineErrorModel {
        match self {
            PipelineError::Parse { program, message } => PipelineErrorModel::Parse {
                program: program@,
                message: message@,
            },
            PipelineError::Extract(e) => PipelineErrorModel::Extract(e.deep_view()),
            PipelineError::Generate(e) => PipelineErrorModel::Generate(e.deep_view()),
            PipelineError::Format { unformatted, message } => PipelineErrorModel::Format {
                unformatted: unformatted@,
                message: message@,
            },
        }
    }
}

/// What a failed run reads as.
pub open spec fn pipeline_error_text(e: PipelineErrorModel) -> Seq<char> {
    match e {
        PipelineErrorModel::Parse { program, message } => "cannot parse `"@ + program + "`: "@
            + message,
        PipelineErrorModel::Extract(inner) => extract_error_text(inner),
        PipelineErrorModel::Generate(inner) => generate_error_text(inner),
        PipelineErrorModel::Format { unformatted, message } => "formatter failed: "@ + message,
    }
}

impl PipelineError {
    /// The failure in words. The text is never empty.
    pub fn message(&self) -> (res: String)
        ensures
            res@ == pipeline_error_text(self.deep_view()),
            res@.len() > 0,
    {
        match self {
            PipelineError::Parse { program, message } => {
                proof {
                    reveal_strlit("cannot parse `");
                }
                let mut out = String::new();
                out.append("cannot parse `");
                out.append(program.as_str());
                out.append("`: ");
                out.append(message.as_str());
                proof {
                    assert(out@ =~= pipeline_error_text(self.deep_view()));
                }
                out
            },
            PipelineError::Extract(inner) => inner.message(),
            PipelineError::Generate(inner) => inner.message(),
            PipelineError::Format { unformatted, message } => {
                proof {
                    reveal_strlit("formatter failed: ");
                }
                let mut out = String::new();
                out.append("formatter failed: ");
                out.append(message.as_str());
                proof {
                    assert(out@ =~= pipeline_error_text(self.deep_view()));
                }
                out
            },
        }
    }
}

/// The interface model of one source.
pub open spec fn program_of(source: SourceModel, conv: ConventionsModel) -> Result<
    Option<ProgramModel>,
    ExtractErrorModel,
> {
    match spec_extract(source.name, source.module, conv) {
        Ok(program) => Ok(Some(program)),
        Err(e) => Err(e),
    }
}

/// [`program_of`] as a step over sources.
pub open spec fn program_step(conv: ConventionsModel) -> spec_fn(SourceModel) -> Result<
    Option<ProgramModel>,
    ExtractErrorModel,
> {
    |source: SourceModel| program_of(source, conv)
}

/// The interface models of the sources, in order, or the reason why the
/// first source without one has none.
pub open spec fn spec_extract_all(sources: Seq<SourceModel>, conv: ConventionsModel) -> Result<
    IdlModel,
    ExtractErrorModel,
> {
    match collect(sources, program_step(conv)) {
        Ok(programs) => Ok(IdlModel { programs }),
        Err(e) => Err(e),
    }
}

/// The client text of the sources, before formatting.
pub open spec fn spec_client(
    sources: Seq<SourceModel>,
    imports: Seq<Seq<char>>,
    conv: ConventionsModel,
) -> Result<Seq<char>, PipelineErrorModel> {
    match spec_extract_all(sources, conv) {
        Err(e) => Err(PipelineErrorModel::Extract(e)),
        Ok(idl) => match spec_generate(idl, imports) {
            Err(e) => Err(PipelineErrorModel::Generate(e)),
            Ok(text) => Ok(text),
        },
    }
}

/// The outcome of a run, given what the formatter made of the generated
/// text.
pub open spec fn spec_finish(unformatted: Seq<char>, formatted: Result<Seq<char>, Seq<char>>) -> Result<
    Seq<char>,
    PipelineErrorModel,
> {
    match formatted {
        Ok(text) => Ok(text),
        Err(message) => Err(PipelineErrorModel::Format { unformatted, message }),
    }
}

/// What a loader's outcome for one program makes of it.
pub open spec fn spec_source_of(name: Seq<char>, parsed: Result<ModuleModel, Seq<char>>) -> Result<
    SourceModel,
    PipelineErrorModel,
> {
    match parsed {
        Ok(module) => Ok(SourceModel { name, module }),
        Err(message) => Err(PipelineErrorModel::Parse { program: name, message }),
    }
}

/// Takes what the loader made of the source of the program `name`: the
/// declarations it parsed become a source of the run, and its complaint
/// becomes the failure of the run.
pub fn source_of(name: String, parsed: Result<Module, String>) -> (res: Result<
    Source,
    PipelineError,
>)
    ensures
        result_model(res) == spec_source_of(name@, result_model(parsed)),
{
    match parsed {
        Ok(module) => Ok(Source { name, module }),
        Err(message) => Err(PipelineError::Parse { program: name, message }),
    }
}

/// Extracts the interface model of every source.
pub fn extract_all(sources: &Vec<Source>, conv: &Conventions) -> (res: Result<Idl, ExtractError>)
    ensures
        result_model(res) == spec_extract_all(sources.deep_view(), conv.deep_view()),
{
    let ghost model = sources.deep_view();
    let ghost step = program_step(conv.deep_view());
    let mut programs: Vec<Program> = Vec::new();
    let mut i: usize = 0;
    proof {
        assert(programs.deep_view() =~= Seq::empty());
    }
    while i < sources.len()
        invariant
            i <= sources.len(),
            model == sources.deep_view(),
            step == program_step(conv.deep_view()),
            collect(model.take(i as int), step) == Ok::<Seq<ProgramModel>, ExtractErrorModel>(
                programs.deep_view(),
            ),
        decreases sources.len() - i,
    {
        let ghost before = programs.deep_view();
        let source = &sources[i];
        proof {
            lemma_collect_step(model, i as int, step);
            assert(model[i as int] == source.deep_view());
        }
        match parse_to_idl_program(source.name.clone(), &source.module, conv) {
            Err(e) => {
                proof {
                    lemma_collect_failure(model, i + 1, step);
                }
                return Err(e);
            },
            Ok(program) => {
                let ghost added = program.deep_view();
                programs.push(program);
                assert(programs.deep_view() =~= before.push(added));
            },
        }
        i += 1;
    }
    proof {
        assert(model.take(sources.len() as int) =~= model);
    }
    Ok(Idl { programs })
}

/// Runs extraction and generation: the client text of the sources, before
/// formatting, or the first failure.
pub fn generate_client(sources: &Vec<Source>, use_modules: &Vec<String>, conv: &Conventions) -> (res:
    Result<String, PipelineError>)
    ensures
        result_model(res) == spec_client(
            sources.deep_view(),
            use_modules.deep_view(),
            conv.deep_view(),
        ),
{
    match extract_all(sources, conv) {
        Err(e) => Err(PipelineError::Extract(e)),
        Ok(idl) => match generate_source_code(&idl, use_modules) {
            Err(e) => Err(PipelineError::Generate(e)),
            Ok(text) => Ok(text),
        },
    }
}

/// Ends a run with what the formatter made of the generated text: its
/// text where it succeeded, and otherwise a failure that carries the text
/// as it was generated.
pub fn finish(unformatted: String, formatted: Result<String, String>) -> (res: Result<
    String,
    PipelineError,
>)
    ensures
        result_model(res) == spec_finish(unformatted@, result_model(formatted)),
{
    match formatted {
        Ok(text) => Ok(text),
        Err(message) => Err(PipelineError::Format { unformatted, message }),
    }
}

} // verus!
