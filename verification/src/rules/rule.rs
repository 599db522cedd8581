//! Rules: a pair of templates between two wire protocols.

use crate::json::{parse, parsed, refusal, Json, JsonValue};
use crate::rules::template::{
    check, execute, first_fault, outcome_of, run, CompileFault, RuleCompileError,
    RuleExecutionError, RunFault,
};
use vstd::prelude::*;

verus! {

/// A template that was read and found well formed.
#[derive(Debug, PartialEq, Eq)]
pub struct Template {
    doc: Json,
}

/// What the template text `text` compiles to: its document, or the fault
/// for which it is refused.
pub open spec fn compiled(text: Seq<char>) -> Result<JsonValue, CompileFault> {
    match parsed(text) {
        None => Err(CompileFault::Syntax(refusal(text))),
        Some(doc) => match first_fault(doc) {
            Some(fault) => Err(fault),
            None => Ok(doc),
        },
    }
}

/// What the outcome of compiling says.
pub open spec fn compile_outcome(r: Result<Template, RuleCompileError>) -> Result<
    JsonValue,
    CompileFault,
> {
    match r {
        Ok(t) => Ok(t.document()),
        Err(e) => Err(e@),
    }
}

impl Template {
    /// The document that this template is.
    pub closed spec fn document(&self) -> JsonValue {
        self.doc@
    }

    /// Takes `doc` as a template where it is well formed, and names its
    /// first fault where it is not.
    pub fn from_document(doc: Json) -> (r: Result<Template, RuleCompileError>)
        ensures
            compile_outcome(r) == match first_fault(doc@) {
                Some(fault) => Err::<JsonValue, CompileFault>(fault),
                None => Ok(doc@),
            },
    {
        match check(&doc) {
            Some(fault) => Err(fault),
            None => Ok(Template { doc }),
        }
    }

    /// Compiles the template text `text`. Nothing is executed.
    pub fn compile(text: &str) -> (r: Result<Template, RuleCompileError>)
        ensures
            compile_outcome(r) == compiled(text@),
    {
        match parse(text) {
            Ok(doc) => Template::from_document(doc),
            Err(fault) => Err(RuleCompileError::Syntax(fault.message)),
        }
    }

    /// What this template makes of `input`.
    pub fn apply(&self, input: &Json) -> (r: Result<Json, RuleExecutionError>)
        ensures
            outcome_of(r) == run(self.document(), input@),
    {
        execute(&self.doc, input)
    }

    /// A copy of this template.
    pub fn duplicate(&self) -> (r: Template)
        ensures
            r.document() == self.document(),
    {
        Template { doc: self.doc.duplicate() }
    }
}

/// Compiles both templates of a rule and executes neither: the fault of the
/// request template, else that of the response template, else nothing.
pub fn validate(request_template: &str, response_template: &str) -> (r: Result<
    (),
    RuleCompileError,
>)
    ensures
        match r {
            Ok(_) => compiled(request_template@) is Ok && compiled(response_template@) is Ok,
            Err(e) => match compiled(request_template@) {
                Err(fault) => e@ == fault,
                Ok(_) => compiled(response_template@) == Err::<JsonValue, CompileFault>(e@),
            },
        },
{
    match Template::compile(request_template) {
        Err(e) => Err(e),
        Ok(_) => match Template::compile(response_template) {
            Err(e) => Err(e),
            Ok(_) => Ok(()),
        },
    }
}

/// Why a trial of a template gave no document.
#[derive(Debug, PartialEq, Eq)]
pub enum RuleTestError {
    /// The template is refused.
    Compile(RuleCompileError),
    /// The sample is no JSON document; the reader's message says why.
    BadSample(String),
    /// The template could not reshape the sample.
    Execution(RuleExecutionError),
}

pub ghost enum TestFault {
    Compile(CompileFault),
    BadSample(Seq<char>),
    Execution(RunFault),
}

impl View for RuleTestError {
    type V = TestFault;

    open spec fn view(&self) -> TestFault {
        match self {
            RuleTestError::Compile(e) => TestFault::Compile(e@),
            RuleTestError::BadSample(message) => TestFault::BadSample(message@),
            RuleTestError::Execution(e) => TestFault::Execution(e@),
        }
    }
}

/// What a trial of the template text `template` on the sample text `sample`
/// gives.
pub open spec fn trial(template: Seq<char>, sample: Seq<char>) -> Result<JsonValue, TestFault> {
    match compiled(template) {
        Err(fault) => Err(TestFault::Compile(fault)),
        Ok(t) => match parsed(sample) {
            None => Err(TestFault::BadSample(refusal(sample))),
            Some(input) => match run(t, input) {
                Ok(v) => Ok(v),
                Err(fault) => Err(TestFault::Execution(fault)),
            },
        },
    }
}

/// What the outcome of a trial says.
pub open spec fn trial_outcome(r: Result<Json, RuleTestError>) -> Result<JsonValue, TestFault> {
    match r {
        Ok(v) => Ok(v@),
        Err(e) => Err(e@),
    }
}

/// Tries the template text `template` on the sample text `sample`. The
/// result depends on the two texts and on nothing else.
pub fn test_template(template: &str, sample: &str) -> (r: Result<Json, RuleTestError>)
    ensures
        trial_outcome(r) == trial(template@, sample@),
{
    let t: Template = match Template::compile(template) {
        Ok(t) => t,
        Err(e) => {
            return Err(RuleTestError::Compile(e));
        },
    };
    let input: Json = match parse(sample) {
        Ok(input) => input,
        Err(fault) => {
            return Err(RuleTestError::BadSample(fault.message));
        },
    };
    match t.apply(&input) {
        Ok(v) => Ok(v),
        Err(e) => Err(RuleTestError::Execution(e)),
    }
}

/// A template text that is no JSON document is refused for its syntax,
/// whatever else it holds, and the fault says what the reader said.
pub proof fn law_broken_template_is_refused(text: Seq<char>)
    requires
        parsed(text) is None,
    ensures
        compiled(text) == Err::<JsonValue, CompileFault>(CompileFault::Syntax(refusal(text))),
{
}

/// Two trials of one template on one sample say the same: whatever two
/// outcomes meet the contract of `test_template` for the same texts agree.
pub proof fn law_trial_is_deterministic(
    template: Seq<char>,
    sample: Seq<char>,
    first: Result<Json, RuleTestError>,
    second: Result<Json, RuleTestError>,
)
    requires
        trial_outcome(first) == trial(template, sample),
        trial_outcome(second) == trial(template, sample),
    ensures
        trial_outcome(first) == trial_outcome(second),
{
}

/// Two runs of one template on one document say the same: whatever two
/// outcomes meet the contract of `execute` for the same arguments agree.
pub proof fn law_run_is_deterministic(
    template: JsonValue,
    input: JsonValue,
    first: Result<Json, RuleExecutionError>,
    second: Result<Json, RuleExecutionError>,
)
    requires
        outcome_of(first) == run(template, input),
        outcome_of(second) == run(template, input),
    ensures
        outcome_of(first) == outcome_of(second),
{
}

} // verus!
