use vstd::prelude::*;
use crate::config::{
    config_of, fields_view, parse_config, Config, ConfigV, DefinitionError, ErrorCapture,
    ErrorCaptureV, Field, FieldV,
};
use crate::signature::{FunctionDescriptor, Param};
use crate::tokens::Token;
use vstd::string::StrSliceExecFns;

verus! {

/// What a step formats at run time.
#[derive(Debug)]
pub enum ValueSource {
    /// The value of this expression, evaluated in the wrapper's scope (where
    /// `e` names the failure value on the failure path).
    Expression { tokens: Vec<Token> },
    /// The successful result of the original function.
    ReturnValue,
    /// The failure value of the original function.
    FailureValue,
}

/// One instruction run after the original function has returned.
#[derive(Debug)]
pub enum Step {
    /// Attach `key` = the formatted `value` to the span.
    SetAttribute { key: String, value: ValueSource },
    /// Mark the span as successful.
    SetStatusOk,
    /// Mark the span as failed, with the formatted failure value as message.
    SetStatusError,
    /// Record `value` as the span's structured error.
    RecordError { value: ValueSource },
}

/// An attribute attached right after the span starts.
#[derive(Debug)]
pub struct Attribute {
    pub key: String,
    /// The expression whose formatted value is attached.
    pub value: Vec<Token>,
}

/// How one parameter is passed on to the original function.
#[derive(Clone, Debug, PartialEq, Eq)]
pub enum CallArg {
    /// The variable that the parameter binds.
    Named { name: String },
    /// The destructured parameter at this position, passed on whole.
    Positional { index: usize },
}

/// The instructions that make up the wrapper of one function, in order:
/// start the span named `span_name` (as a child of the context that
/// `parent` gives, else of the current one), attach `attributes`, make the
/// span current, call the original with `arguments` (through the receiver
/// when `through_receiver`; awaiting it when `is_async`), run `on_success`
/// or `on_failure` according to the result, and return that result as it is.
#[derive(Debug)]
pub struct WrapperPlan {
    pub span_name: String,
    pub parent: Option<Vec<Token>>,
    pub attributes: Vec<Attribute>,
    pub is_async: bool,
    pub through_receiver: bool,
    pub arguments: Vec<CallArg>,
    pub on_success: Vec<Step>,
    pub on_failure: Vec<Step>,
}

pub enum ValueSourceV {
    Expression(Seq<Token>),
    ReturnValue,
    FailureValue,
}

pub enum StepV {
    SetAttribute(Seq<char>, ValueSourceV),
    SetStatusOk,
    SetStatusError,
    RecordError(ValueSourceV),
}

pub struct AttributeV {
    pub key: Seq<char>,
    pub value: Seq<Token>,
}

pub enum CallArgV {
    Named(Seq<char>),
    Positional(int),
}

pub struct WrapperPlanV {
    pub span_name: Seq<char>,
    pub parent: Option<Seq<Token>>,
    pub attributes: Seq<AttributeV>,
    pub is_async: bool,
    pub through_receiver: bool,
    pub arguments: Seq<CallArgV>,
    pub on_success: Seq<StepV>,
    pub on_failure: Seq<StepV>,
}

impl ValueSource {
    pub open spec fn view(&self) -> ValueSourceV {
        match self {
            ValueSource::Expression { tokens } => ValueSourceV::Expression(tokens@),
            ValueSource::ReturnValue => ValueSourceV::ReturnValue,
            ValueSource::FailureValue => ValueSourceV::FailureValue,
        }
    }
}

impl Step {
    pub open spec fn view(&self) -> StepV {
        match self {
            Step::SetAttribute { key, value } => StepV::SetAttribute(key@, value@),
            Step::SetStatusOk => StepV::SetStatusOk,
            Step::SetStatusError => StepV::SetStatusError,
            Step::RecordError { value } => StepV::RecordError(value@),
        }
    }
}

impl Attribute {
    pub open spec fn view(&self) -> AttributeV {
        AttributeV { key: self.key@, value: self.value@ }
    }
}

impl CallArg {
    pub open spec fn view(&self) -> CallArgV {
        match self {
            CallArg::Named { name } => CallArgV::Named(name@),
            CallArg::Positional { index } => CallArgV::Positional(*index as int),
        }
    }
}

impl WrapperPlan {
    pub open spec fn view(&self) -> WrapperPlanV {
        WrapperPlanV {
            span_name: self.span_name@,
            parent: match self.parent {
                Some(p) => Some(p@),
                None => None,
            },
            attributes: self.attributes@.map_values(|a: Attribute| a@),
            is_async: self.is_async,
            through_receiver: self.through_receiver,
            arguments: self.arguments@.map_values(|a: CallArg| a@),
            on_success: self.on_success@.map_values(|s: Step| s@),
            on_failure: self.on_failure@.map_values(|s: Step| s@),
        }
    }
}

/// The span's name: the configured name when it is given and not empty,
/// else the function's own name.
pub open spec fn span_name_of(c: ConfigV, fn_name: Seq<char>) -> Seq<char> {
    match c.name {
        Some(n) => if n.len() > 0 {
            n
        } else {
            fn_name
        },
        None => fn_name,
    }
}

/// Whether the parameter `p` is captured automatically.
pub open spec fn is_captured(c: ConfigV, p: Param) -> bool {
    !c.skip_all && p is Simple && !c.skip.contains(p->Simple_name@)
}

/// The attribute that captures a simple parameter: its name, read as a variable.
pub open spec fn param_attribute(p: Param) -> AttributeV {
    AttributeV { key: p->Simple_name@, value: seq![Token::Ident { text: p->Simple_name }] }
}

/// The automatic attributes: the captured parameters, in declaration order.
pub open spec fn param_attributes(c: ConfigV, ps: Seq<Param>) -> Seq<AttributeV>
    decreases ps.len(),
{
    if ps.len() == 0 {
        seq![]
    } else {
        let rest = param_attributes(c, ps.drop_last());
        if is_captured(c, ps.last()) {
            rest.push(param_attribute(ps.last()))
        } else {
            rest
        }
    }
}

pub open spec fn field_attribute(f: FieldV) -> AttributeV {
    AttributeV { key: f.name, value: f.value }
}

/// The explicit attributes, in the order they were written.
pub open spec fn field_attributes(c: ConfigV) -> Seq<AttributeV> {
    c.fields.map_values(|f: FieldV| field_attribute(f))
}

/// All attributes attached when the span starts.
pub open spec fn attributes_of(c: ConfigV, ps: Seq<Param>) -> Seq<AttributeV> {
    param_attributes(c, ps) + field_attributes(c)
}

pub open spec fn call_arg(ps: Seq<Param>, i: int) -> CallArgV {
    match ps[i] {
        Param::Simple { name } => CallArgV::Named(name@),
        Param::Destructured => CallArgV::Positional(i),
    }
}

/// Every parameter, in declaration order, passed on to the original.
pub open spec fn arguments_of(ps: Seq<Param>) -> Seq<CallArgV> {
    Seq::new(ps.len(), |i: int| call_arg(ps, i))
}

/// What runs after a successful call.
pub open spec fn success_steps(ret: bool) -> Seq<StepV> {
    if ret {
        seq![StepV::SetAttribute("return"@, ValueSourceV::ReturnValue), StepV::SetStatusOk]
    } else {
        seq![StepV::SetStatusOk]
    }
}

/// What runs after a failed call.
pub open spec fn failure_steps(err: ErrorCaptureV) -> Seq<StepV> {
    match err {
        ErrorCaptureV::Absent => seq![StepV::SetStatusError],
        ErrorCaptureV::Formatted => seq![
            StepV::SetAttribute("error"@, ValueSourceV::FailureValue),
            StepV::SetStatusError,
            StepV::RecordError(ValueSourceV::FailureValue),
        ],
        ErrorCaptureV::Custom(e) => seq![
            StepV::SetAttribute("error"@, ValueSourceV::FailureValue),
            StepV::SetStatusError,
            StepV::RecordError(ValueSourceV::Expression(e)),
        ],
    }
}

/// The wrapper that configuration `c` gives the function `f`.
pub open spec fn plan_of(c: ConfigV, f: FunctionDescriptor) -> WrapperPlanV {
    WrapperPlanV {
        span_name: span_name_of(c, f.name@),
        parent: c.parent,
        attributes: attributes_of(c, f.params@),
        is_async: f.is_async,
        through_receiver: f.has_receiver,
        arguments: arguments_of(f.params@),
        on_success: success_steps(c.ret),
        on_failure: failure_steps(c.err),
    }
}

fn skip_contains(skip: &Vec<String>, name: &String) -> (r: bool)
    ensures
        r == skip@.map_values(|s: String| s@).contains(name@),
{
    let ghost names = skip@.map_values(|s: String| s@);
    let mut i: usize = 0;
    while i < skip.len()
        invariant
            i <= skip@.len(),
            names == skip@.map_values(|s: String| s@),
            forall|j: int| 0 <= j < i ==> names[j] != name@,
        decreases skip@.len() - i,
    {
        if skip[i].eq(name) {
            assert(names[i as int] == name@);
            return true;
        }
        i = i + 1;
    }
    false
}

fn success_plan(ret: bool) -> (r: Vec<Step>)
    ensures
        r@.map_values(|s: Step| s@) == success_steps(ret),
{
    let mut steps: Vec<Step> = Vec::new();
    if ret {
        steps.push(Step::SetAttribute { key: "return".to_owned(), value: ValueSource::ReturnValue });
    }
    steps.push(Step::SetStatusOk);
    assert(steps@.map_values(|s: Step| s@) =~= success_steps(ret));
    steps
}

fn failure_plan(err: ErrorCapture) -> (r: Vec<Step>)
    ensures
        r@.map_values(|s: Step| s@) == failure_steps(err@),
{
    let ghost ev = err@;
    let mut steps: Vec<Step> = Vec::new();
    let recorded = match err {
        ErrorCapture::Absent => None,
        ErrorCapture::Formatted => Some(ValueSource::FailureValue),
        ErrorCapture::Custom { expr } => Some(ValueSource::Expression { tokens: expr }),
    };
    match recorded {
        None => {
            steps.push(Step::SetStatusError);
        },
        Some(value) => {
            steps.push(Step::SetAttribute { key: "error".to_owned(), value: ValueSource::FailureValue });
            steps.push(Step::SetStatusError);
            steps.push(Step::RecordError { value });
        },
    }
    assert(steps@.map_values(|s: Step| s@) =~= failure_steps(ev));
    steps
}

/// Turns a configuration and a function's shape into the wrapper's plan.
pub fn synthesize(config: Config, func: FunctionDescriptor) -> (r: WrapperPlan)
    ensures
        r@ == plan_of(config@, func),
{
    let ghost cv = config@;
    let Config { skip, skip_all, fields, ret, err, name, parent } = config;
    let span_name = match name {
        Some(n) => if n.as_str().unicode_len() > 0 {
            n
        } else {
            func.name.clone()
        },
        None => func.name.clone(),
    };
    let ghost ps = func.params@;
    let mut attributes: Vec<Attribute> = Vec::new();
    let mut i: usize = 0;
    while i < func.params.len()
        invariant
            i <= ps.len(),
            ps == func.params@,
            cv.skip == skip@.map_values(|s: String| s@).to_set(),
            cv.skip_all == skip_all,
            attributes@.map_values(|a: Attribute| a@) == param_attributes(
                cv,
                ps.subrange(0, i as int),
            ),
        decreases ps.len() - i,
    {
        assert(ps.subrange(0, i + 1).drop_last() =~= ps.subrange(0, i as int));
        let ghost prev = attributes@;
        if !skip_all {
            match &func.params[i] {
                Param::Simple { name } => {
                    if !skip_contains(&skip, name) {
                        let key = name.clone();
                        let text = name.clone();
                        let value = vec![Token::Ident { text }];
                        assert(value@ =~= param_attribute(ps[i as int]).value);
                        attributes.push(Attribute { key, value });
                        assert(attributes@.last()@ == param_attribute(ps[i as int]));
                        assert(attributes@.map_values(|a: Attribute| a@) =~= prev.map_values(
                            |a: Attribute| a@,
                        ).push(param_attribute(ps[i as int])));
                    }
                },
                Param::Destructured => {},
            }
        }
        i = i + 1;
    }
    assert(ps.subrange(0, ps.len() as int) =~= ps);
    let ghost automatic = attributes@.map_values(|a: Attribute| a@);
    let mut rest = fields;
    let ghost all_fields = cv.fields;
    let ghost n_auto = attributes@.len();
    while rest.len() > 0
        invariant
            all_fields == cv.fields,
            n_auto <= attributes@.len(),
            attributes@.len() - n_auto + rest@.len() == all_fields.len(),
            fields_view(rest@) == all_fields.skip(attributes@.len() - n_auto),
            attributes@.map_values(|a: Attribute| a@) == automatic + all_fields.take(
                attributes@.len() - n_auto,
            ).map_values(|f: FieldV| field_attribute(f)),
        decreases rest@.len(),
    {
        let ghost prev = attributes@;
        let ghost k = attributes@.len() - n_auto;
        let ghost old_rest = rest@;
        let Field { name, value } = rest.remove(0);
        assert(fields_view(rest@) =~= fields_view(old_rest).skip(1));
        assert(fields_view(old_rest)[0] == all_fields[k]);
        attributes.push(Attribute { key: name, value });
        assert(attributes@.last()@ == field_attribute(all_fields[k]));
        assert(fields_view(rest@) =~= all_fields.skip(k + 1));
        assert(all_fields.take(k + 1) =~= all_fields.take(k).push(all_fields[k]));
        assert(all_fields.take(k + 1).map_values(|f: FieldV| field_attribute(f)) =~= all_fields.take(
            k,
        ).map_values(|f: FieldV| field_attribute(f)).push(field_attribute(all_fields[k])));
        assert(attributes@.map_values(|a: Attribute| a@) =~= prev.map_values(|a: Attribute| a@).push(
            field_attribute(all_fields[k]),
        ));
        assert(attributes@.map_values(|a: Attribute| a@) =~= automatic + all_fields.take(
            k + 1,
        ).map_values(|f: FieldV| field_attribute(f)));
    }
    assert(all_fields.take(all_fields.len() as int) =~= all_fields);
    assert(attributes@.map_values(|a: Attribute| a@) =~= attributes_of(cv, ps));
    let mut arguments: Vec<CallArg> = Vec::new();
    let mut j: usize = 0;
    while j < func.params.len()
        invariant
            j <= ps.len(),
            ps == func.params@,
            arguments@.map_values(|a: CallArg| a@) == arguments_of(ps).take(j as int),
        decreases ps.len() - j,
    {
        let arg = match &func.params[j] {
            Param::Simple { name } => CallArg::Named { name: name.clone() },
            Param::Destructured => CallArg::Positional { index: j },
        };
        assert(arg@ == call_arg(ps, j as int));
        arguments.push(arg);
        assert(arguments_of(ps).take(j + 1) =~= arguments_of(ps).take(j as int).push(call_arg(ps, j as int)));
        assert(arguments@.map_values(|a: CallArg| a@) =~= arguments_of(ps).take(j + 1));
        j = j + 1;
    }
    assert(arguments_of(ps).take(ps.len() as int) =~= arguments_of(ps));
    let on_success = success_plan(ret);
    let on_failure = failure_plan(err);
    let plan = WrapperPlan {
        span_name,
        parent,
        attributes,
        is_async: func.is_async,
        through_receiver: func.has_receiver,
        arguments,
        on_success,
        on_failure,
    };
    assert(plan@.parent == cv.parent);
    plan
}

/// Parses the option text `args` attached to `func` and plans its wrapper.
pub fn instrument(args: Vec<Token>, func: FunctionDescriptor) -> (r: Result<
    WrapperPlan,
    DefinitionError,
>)
    ensures
        match config_of(args@) {
            Ok(c) => r matches Ok(p) && p@ == plan_of(c, func),
            Err(e) => r matches Err(x) && x@ == e,
        },
{
    match parse_config(args) {
        Ok(config) => Ok(synthesize(config, func)),
        Err(e) => Err(e),
    }
}

} // verus!
