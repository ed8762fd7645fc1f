use vstd::prelude::*;
use crate::config::{
    config_of, empty_config, field_list, ConfigV, DefinitionErrorV, ErrorCaptureV, FieldV,
};
use crate::plan::{
    attributes_of, field_attribute, field_attributes, failure_steps, param_attributes, plan_of,
    AttributeV, CallArgV, StepV, ValueSourceV,
};
use crate::signature::{FunctionDescriptor, Param};
use crate::syntax::is_identifier;
use crate::tokens::Token;

verus! {

/// Without options, the wrapper calls the original function with exactly
/// its own parameters, in declaration order, through its receiver when it
/// has one, and of the same kind (sync or async); after the call it only
/// sets the span's status, and it returns the call's result as it is. Any
/// configuration `c` leaves that call as it is.
pub proof fn law_transparency(f: FunctionDescriptor, c: ConfigV)
    ensures
        config_of(Seq::<Token>::empty()) == Ok::<ConfigV, DefinitionErrorV>(empty_config()),
        plan_of(empty_config(), f).arguments.len() == f.params@.len(),
        forall|i: int|
            0 <= i < f.params@.len() ==> #[trigger] plan_of(empty_config(), f).arguments[i] == match f.params@[i] {
                Param::Simple { name } => CallArgV::Named(name@),
                Param::Destructured => CallArgV::Positional(i),
            },
        plan_of(empty_config(), f).through_receiver == f.has_receiver,
        plan_of(empty_config(), f).is_async == f.is_async,
        plan_of(empty_config(), f).on_success == seq![StepV::SetStatusOk],
        plan_of(empty_config(), f).on_failure == seq![StepV::SetStatusError],
        plan_of(c, f).arguments == plan_of(empty_config(), f).arguments,
        plan_of(c, f).through_receiver == f.has_receiver,
        plan_of(c, f).is_async == f.is_async,
{
}

proof fn lemma_skip_params(c: ConfigV, ps: Seq<Param>, p: Seq<char>)
    ensures
        param_attributes(ConfigV { skip: c.skip.insert(p), ..c }, ps) == param_attributes(
            c,
            ps,
        ).filter(|a: AttributeV| a.key != p),
    decreases ps.len(),
{
    reveal(Seq::filter);
    let keep = |a: AttributeV| a.key != p;
    if ps.len() > 0 {
        lemma_skip_params(c, ps.drop_last(), p);
        let last = ps.last();
        param_attributes(c, ps.drop_last()).lemma_filter_push(
            crate::plan::param_attribute(last),
            keep,
        );
    }
}

/// `skip(p)` removes exactly the attribute named `p` from the automatic
/// ones; every other captured parameter and every explicit field stays, in
/// the same order.
pub proof fn law_skip(c: ConfigV, ps: Seq<Param>, p: Seq<char>)
    ensures
        param_attributes(ConfigV { skip: c.skip.insert(p), ..c }, ps) == param_attributes(
            c,
            ps,
        ).filter(|a: AttributeV| a.key != p),
        field_attributes(ConfigV { skip: c.skip.insert(p), ..c }) == field_attributes(c),
        attributes_of(ConfigV { skip: c.skip.insert(p), ..c }, ps) == param_attributes(
            c,
            ps,
        ).filter(|a: AttributeV| a.key != p) + field_attributes(c),
{
    lemma_skip_params(c, ps, p);
}

proof fn lemma_skip_all_params(c: ConfigV, ps: Seq<Param>)
    ensures
        param_attributes(ConfigV { skip_all: true, ..c }, ps) == Seq::<AttributeV>::empty(),
    decreases ps.len(),
{
    if ps.len() > 0 {
        lemma_skip_all_params(c, ps.drop_last());
    }
}

/// `skip_all` removes every automatic attribute and leaves the explicit
/// fields as they are.
pub proof fn law_skip_all(c: ConfigV, ps: Seq<Param>)
    ensures
        param_attributes(ConfigV { skip_all: true, ..c }, ps) == Seq::<AttributeV>::empty(),
        attributes_of(ConfigV { skip_all: true, ..c }, ps) == field_attributes(c),
{
    lemma_skip_all_params(c, ps);
    assert(Seq::<AttributeV>::empty() + field_attributes(c) =~= field_attributes(c));
}

/// A non-empty `name` is the span's name, whatever the function is called.
pub proof fn law_name_override(c: ConfigV, f: FunctionDescriptor, n: Seq<char>)
    requires
        c.name == Some(n),
        n.len() > 0,
    ensures
        plan_of(c, f).span_name == n,
{
}

/// A bare name `param` in `fields(...)` is the attribute `param` whose
/// value is the variable `param` itself, read when the span starts.
pub proof fn law_shorthand_field(c: ConfigV, ps: Seq<Param>, t: Token)
    requires
        t is Ident,
        is_identifier(t->Ident_text@),
    ensures
        field_list(seq![t]) == Some(seq![FieldV { name: t->Ident_text@, value: seq![t] }]),
        ({
            let c2 = ConfigV { fields: c.fields + seq![FieldV { name: t->Ident_text@, value: seq![t] }], ..c };
            attributes_of(c2, ps).last() == (AttributeV { key: t->Ident_text@, value: seq![t] })
        }),
{
    let s = seq![t];
    assert(s.len() == 1);
    reveal_with_fuel(field_list, 2);
    let f = FieldV { name: t->Ident_text@, value: seq![t] };
    let c2 = ConfigV { fields: c.fields + seq![f], ..c };
    assert(field_attributes(c2).last() == field_attribute(f));
}

/// With `err = expr`, a failure sets the `error` attribute and the status
/// from the formatted failure value, exactly as plain `err` does, and
/// records the value of `expr` as the structured error.
pub proof fn law_custom_error(c: ConfigV, e: Seq<Token>)
    requires
        c.err == ErrorCaptureV::Custom(e),
    ensures
        failure_steps(c.err) == seq![
            StepV::SetAttribute("error"@, ValueSourceV::FailureValue),
            StepV::SetStatusError,
            StepV::RecordError(ValueSourceV::Expression(e)),
        ],
        failure_steps(c.err).take(2) == failure_steps(ErrorCaptureV::Formatted).take(2),
{
    assert(failure_steps(c.err).take(2) =~= failure_steps(ErrorCaptureV::Formatted).take(2));
}

/// With `parent = expr`, the span is started as a child of the context that
/// `expr` gives.
pub proof fn law_parent(c: ConfigV, f: FunctionDescriptor, e: Seq<Token>)
    requires
        c.parent == Some(e),
    ensures
        plan_of(c, f).parent == Some(e),
{
}

} // verus!
