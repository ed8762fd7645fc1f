use otel_instrument::{
    analyze_signature, instrument, parse_config, synthesize, tokens_source, tracer_name,
    Binding, CallArg, Config, DefinitionError, Delimiter, ErrorCapture, FunctionDescriptor,
    Step, Token, ValueSource, WrapperPlan,
};
use proc_macro2::{Spacing, TokenStream, TokenTree};

fn convert(stream: TokenStream) -> Vec<Token> {
    let mut out = Vec::new();
    for tree in stream {
        out.push(match tree {
            TokenTree::Ident(i) => Token::Ident { text: i.to_string() },
            TokenTree::Punct(p) => Token::Punct {
                ch: p.as_char(),
                joint: p.spacing() == Spacing::Joint,
            },
            TokenTree::Literal(l) => Token::Literal { text: l.to_string() },
            TokenTree::Group(g) => Token::Group {
                delimiter: match g.delimiter() {
                    proc_macro2::Delimiter::Parenthesis => Delimiter::Parenthesis,
                    proc_macro2::Delimiter::Brace => Delimiter::Brace,
                    proc_macro2::Delimiter::Bracket => Delimiter::Bracket,
                    proc_macro2::Delimiter::None => Delimiter::Invisible,
                },
                inner: convert(g.stream()),
            },
        });
    }
    out
}

fn lex(source: &str) -> Vec<Token> {
    convert(source.parse::<TokenStream>().unwrap())
}

fn text(tokens: &Vec<Token>) -> String {
    let chars = tokens_source(tokens, 0, tokens.len());
    chars.into_iter().collect::<String>().trim_end().to_string()
}

fn parse(source: &str) -> Config {
    parse_config(lex(source)).unwrap()
}

fn parse_err(source: &str) -> DefinitionError {
    parse_config(lex(source)).unwrap_err()
}

fn function(name: &str, params: &[&str]) -> FunctionDescriptor {
    let bindings = params
        .iter()
        .map(|p| Binding::Simple { name: p.to_string() })
        .collect();
    analyze_signature(name.to_string(), true, bindings)
}

fn plan(source: &str, func: FunctionDescriptor) -> WrapperPlan {
    instrument(lex(source), func).unwrap()
}

fn attributes(plan: &WrapperPlan) -> Vec<(String, String)> {
    plan.attributes
        .iter()
        .map(|a| (a.key.clone(), text(&a.value)))
        .collect()
}

fn source_text(v: &ValueSource) -> String {
    match v {
        ValueSource::Expression { tokens } => text(tokens),
        ValueSource::ReturnValue => "<return>".to_string(),
        ValueSource::FailureValue => "<failure>".to_string(),
    }
}

fn steps(steps: &Vec<Step>) -> Vec<String> {
    steps
        .iter()
        .map(|s| match s {
            Step::SetAttribute { key, value } => format!("attribute {} = {}", key, source_text(value)),
            Step::SetStatusOk => "status ok".to_string(),
            Step::SetStatusError => "status error".to_string(),
            Step::RecordError { value } => format!("record {}", source_text(value)),
        })
        .collect()
}

fn pairs(items: &[(&str, &str)]) -> Vec<(String, String)> {
    items.iter().map(|(k, v)| (k.to_string(), v.to_string())).collect()
}

fn strings(items: &[&str]) -> Vec<String> {
    items.iter().map(|s| s.to_string()).collect()
}

#[test]
fn empty_options_give_defaults() {
    let c = parse("");
    assert!(c.skip.is_empty());
    assert!(!c.skip_all);
    assert!(c.fields.is_empty());
    assert!(!c.ret);
    assert!(matches!(c.err, ErrorCapture::Absent));
    assert!(c.name.is_none());
    assert!(c.parent.is_none());
}

#[test]
fn skip_lists_names() {
    assert_eq!(parse("skip(password)").skip, strings(&["password"]));
    assert_eq!(parse("skip(a, b,)").skip, strings(&["a", "b"]));
    assert_eq!(parse("skip(a,)").skip, strings(&["a"]));
    assert_eq!(parse("skip(self)").skip, strings(&["self"]));
}

#[test]
fn repeated_skip_replaces_the_earlier_one() {
    assert_eq!(parse("skip(a), skip(b)").skip, strings(&["b"]));
}

#[test]
fn malformed_skip_is_rejected() {
    assert_eq!(parse_err("skip(a,,b)"), DefinitionError::Malformed);
    assert_eq!(parse_err("skip(a b)"), DefinitionError::Malformed);
    assert_eq!(parse_err("skip[a]"), DefinitionError::Malformed);
    assert_eq!(parse_err("skip"), DefinitionError::Malformed);
}

#[test]
fn empty_lists_are_rejected() {
    assert_eq!(parse_err("skip()"), DefinitionError::Malformed);
    assert_eq!(parse_err("skip(,)"), DefinitionError::Malformed);
    assert_eq!(parse_err("fields()"), DefinitionError::Malformed);
    assert_eq!(parse_err("fields(,)"), DefinitionError::Malformed);
    assert_eq!(parse_err("ret, fields(a = 1,,)"), DefinitionError::Malformed);
    assert_eq!(parse("fields(a = 1,)").fields.len(), 1);
}

#[test]
fn explicit_fields_keep_their_expressions() {
    let c = parse("fields(custom_field = \"custom_value\", user_id = 123)");
    assert_eq!(c.fields.len(), 2);
    assert_eq!(c.fields[0].name, "custom_field");
    assert_eq!(text(&c.fields[0].value), "\"custom_value\"");
    assert_eq!(c.fields[1].name, "user_id");
    assert_eq!(text(&c.fields[1].value), "123");
}

#[test]
fn shorthand_fields_read_the_variable() {
    let c = parse("fields(param, user_count,)");
    assert_eq!(c.fields.len(), 2);
    assert_eq!(c.fields[0].name, "param");
    assert_eq!(text(&c.fields[0].value), "param");
    assert_eq!(c.fields[1].name, "user_count");
    assert_eq!(text(&c.fields[1].value), "user_count");
}

#[test]
fn fields_may_read_the_receiver() {
    let c = parse("fields(struct_id = self.id, param_value = param)");
    assert_eq!(c.fields[0].name, "struct_id");
    assert_eq!(text(&c.fields[0].value), "self . id");
    assert_eq!(c.fields[1].name, "param_value");
    assert_eq!(text(&c.fields[1].value), "param");
}

#[test]
fn repeated_fields_accumulate_with_duplicates() {
    let c = parse("fields(a), fields(b = 1, a = 2)");
    let names: Vec<String> = c.fields.iter().map(|f| f.name.clone()).collect();
    assert_eq!(names, strings(&["a", "b", "a"]));
}

#[test]
fn reserved_word_is_no_field_name() {
    assert_eq!(parse_err("fields(self)"), DefinitionError::Malformed);
    assert_eq!(parse_err("fields(a = )"), DefinitionError::Malformed);
}

#[test]
fn err_without_expression_formats_the_failure() {
    assert!(matches!(parse("err").err, ErrorCapture::Formatted));
}

#[test]
fn err_with_expression_is_custom() {
    match parse("err = e.as_ref()").err {
        ErrorCapture::Custom { expr } => assert_eq!(text(&expr), "e . as_ref ()"),
        other => panic!("unexpected {:?}", other),
    }
}

#[test]
fn expression_keeps_commas_of_a_closure() {
    let c = parse("err = |a, b| a + b, ret");
    match c.err {
        ErrorCapture::Custom { expr } => assert_eq!(text(&expr), "| a , b | a + b"),
        other => panic!("unexpected {:?}", other),
    }
    assert!(c.ret);
}

#[test]
fn expression_keeps_commas_of_generic_arguments() {
    let c = parse("parent = make::<A, B>(), ret");
    assert_eq!(text(c.parent.as_ref().unwrap()), "make ::< A , B > ()");
    assert!(c.ret);
}

#[test]
fn name_takes_the_literal_value() {
    assert_eq!(parse("name = \"custom_span_name\"").name.unwrap(), "custom_span_name");
    assert_eq!(parse("name = \"a\\tb\"").name.unwrap(), "a\tb");
    assert_eq!(parse("name = \"\"").name.unwrap(), "");
}

#[test]
fn name_needs_a_string_literal() {
    assert_eq!(parse_err("name = foo"), DefinitionError::Malformed);
    assert_eq!(parse_err("name = 5"), DefinitionError::Malformed);
    assert_eq!(parse_err("name"), DefinitionError::Malformed);
}

#[test]
fn parent_takes_an_expression() {
    assert_eq!(text(parse("parent = _parent_ctx").parent.as_ref().unwrap()), "_parent_ctx");
    assert_eq!(
        text(parse("parent = get_parent_context()").parent.as_ref().unwrap()),
        "get_parent_context ()"
    );
    assert_eq!(parse_err("parent"), DefinitionError::Malformed);
    assert_eq!(parse_err("parent ="), DefinitionError::Malformed);
}

#[test]
fn unknown_option_is_named() {
    assert_eq!(
        parse_err("ret, bogus"),
        DefinitionError::UnknownOption { name: "bogus".to_string() }
    );
}

#[test]
fn options_need_commas_between_them() {
    assert_eq!(parse_err("ret err"), DefinitionError::Malformed);
    assert_eq!(parse_err("ret,,err"), DefinitionError::Malformed);
    assert_eq!(parse_err("fn"), DefinitionError::Malformed);
    assert!(parse("ret,").ret);
}

#[test]
fn all_options_together() {
    let c = parse("skip_all, skip(x), fields(k = v), ret, err, name = \"n\", parent = p");
    assert!(c.skip_all);
    assert_eq!(c.skip, strings(&["x"]));
    assert_eq!(c.fields.len(), 1);
    assert!(c.ret);
    assert!(matches!(c.err, ErrorCapture::Formatted));
    assert_eq!(c.name.unwrap(), "n");
    assert_eq!(text(c.parent.as_ref().unwrap()), "p");
}

#[test]
fn tracer_name_defaults() {
    assert_eq!(tracer_name(&lex("")).unwrap(), "otel-instrument");
}

#[test]
fn tracer_name_reads_the_literal() {
    assert_eq!(tracer_name(&lex("\"otel-instrument-tests\"")).unwrap(), "otel-instrument-tests");
    assert_eq!(tracer_name(&lex("\"my\\u{2d}service\"")).unwrap(), "my-service");
}

#[test]
fn tracer_name_refuses_other_text() {
    assert_eq!(tracer_name(&lex("my_service")).unwrap_err(), DefinitionError::Malformed);
    assert_eq!(tracer_name(&lex("\"a\" \"b\"")).unwrap_err(), DefinitionError::Malformed);
}

#[test]
fn signature_leaves_receiver_out() {
    let f = analyze_signature(
        "test_function".to_string(),
        false,
        vec![
            Binding::Receiver,
            Binding::Simple { name: "param".to_string() },
            Binding::Pattern,
        ],
    );
    assert_eq!(f.name, "test_function");
    assert!(!f.is_async);
    assert!(f.has_receiver);
    assert_eq!(f.params.len(), 2);
    assert_eq!(
        f.params[0],
        otel_instrument::Param::Simple { name: "param".to_string() }
    );
    assert_eq!(f.params[1], otel_instrument::Param::Destructured);
}

#[test]
fn scenario_skip_password() {
    let p = plan("skip(password)", function("test_skip_function", &["username", "password"]));
    assert_eq!(attributes(&p), pairs(&[("username", "username")]));
    assert_eq!(
        p.arguments,
        vec![
            CallArg::Named { name: "username".to_string() },
            CallArg::Named { name: "password".to_string() },
        ]
    );
    assert_eq!(p.span_name, "test_skip_function");
}

#[test]
fn scenario_ret_captures_the_result() {
    let p = plan("ret", function("test_ret_function", &["param"]));
    assert_eq!(steps(&p.on_success), strings(&["attribute return = <return>", "status ok"]));
    assert_eq!(steps(&p.on_failure), strings(&["status error"]));
}

#[test]
fn scenario_err_captures_the_failure() {
    let p = plan("err", function("failing_function", &[]));
    assert_eq!(steps(&p.on_success), strings(&["status ok"]));
    assert_eq!(
        steps(&p.on_failure),
        strings(&["attribute error = <failure>", "status error", "record <failure>"])
    );
}

#[test]
fn scenario_combined_options() {
    let p = plan(
        "skip(password), ret, err = e.as_ref(), fields(operation = \"login\")",
        function("test_combined_function", &["username", "password"]),
    );
    assert_eq!(
        attributes(&p),
        pairs(&[("username", "username"), ("operation", "\"login\"")])
    );
    assert_eq!(steps(&p.on_success), strings(&["attribute return = <return>", "status ok"]));
    assert_eq!(
        steps(&p.on_failure),
        strings(&["attribute error = <failure>", "status error", "record e . as_ref ()"])
    );
}

#[test]
fn scenario_parent_context() {
    let p = plan("parent = parent_ctx", function("child", &["param", "parent_ctx"]));
    assert_eq!(text(p.parent.as_ref().unwrap()), "parent_ctx");
    let q = plan("", function("child", &["param"]));
    assert!(q.parent.is_none());
}

#[test]
fn name_overrides_the_span_name() {
    let p = plan("name = \"custom_span_name\"", function("test_name_function", &["param"]));
    assert_eq!(p.span_name, "custom_span_name");
}

#[test]
fn empty_name_falls_back_to_the_function_name() {
    let p = plan("name = \"\"", function("test_empty_name_function", &[]));
    assert_eq!(p.span_name, "test_empty_name_function");
}

#[test]
fn no_options_call_through_unchanged() {
    let f = analyze_signature(
        "sync_test_function".to_string(),
        false,
        vec![Binding::Receiver, Binding::Pattern, Binding::Simple { name: "param".to_string() }],
    );
    let p = plan("", f);
    assert_eq!(p.span_name, "sync_test_function");
    assert!(p.through_receiver);
    assert!(!p.is_async);
    assert_eq!(
        p.arguments,
        vec![
            CallArg::Positional { index: 0 },
            CallArg::Named { name: "param".to_string() },
        ]
    );
    assert_eq!(attributes(&p), pairs(&[("param", "param")]));
    assert_eq!(steps(&p.on_success), strings(&["status ok"]));
    assert_eq!(steps(&p.on_failure), strings(&["status error"]));
}

#[test]
fn skip_removes_exactly_one_attribute() {
    let f = || function("f", &["a", "b", "c"]);
    let without = plan("fields(b = 1)", f());
    let with = plan("skip(b), fields(b = 1)", f());
    assert_eq!(attributes(&without), pairs(&[("a", "a"), ("b", "b"), ("c", "c"), ("b", "1")]));
    assert_eq!(attributes(&with), pairs(&[("a", "a"), ("c", "c"), ("b", "1")]));
}

#[test]
fn skip_of_an_absent_parameter_changes_nothing() {
    let p = plan("skip(password)", function("f", &["username", "_password"]));
    assert_eq!(attributes(&p), pairs(&[("username", "username"), ("_password", "_password")]));
}

#[test]
fn skip_all_keeps_only_fields() {
    let p = plan("skip_all, fields(custom = 7)", function("f", &["secret", "token"]));
    assert_eq!(attributes(&p), pairs(&[("custom", "7")]));
    let q = plan("skip_all", function("f", &["secret", "token"]));
    assert!(q.attributes.is_empty());
}

#[test]
fn shorthand_field_is_the_parameter_value() {
    let p = plan("skip_all, fields(param)", function("f", &["param"]));
    assert_eq!(attributes(&p), pairs(&[("param", "param")]));
}

#[test]
fn mixed_fields_keep_their_order() {
    let p = plan(
        "fields(param, custom_field = \"custom_value\")",
        function("test_mixed_fields", &["param"]),
    );
    assert_eq!(
        attributes(&p),
        pairs(&[("param", "param"), ("param", "param"), ("custom_field", "\"custom_value\"")])
    );
}

#[test]
fn destructured_parameters_are_passed_whole_and_not_captured() {
    let f = analyze_signature(
        "instrumented_struct_destructure".to_string(),
        false,
        vec![Binding::Pattern],
    );
    let p = plan("", f);
    assert!(p.attributes.is_empty());
    assert_eq!(p.arguments, vec![CallArg::Positional { index: 0 }]);
}

#[test]
fn synthesize_follows_a_parsed_config() {
    let c = parse("ret, name = \"login_operation\", skip(password)");
    let p = synthesize(c, function("test_name_with_other_attrs", &["username", "password"]));
    assert_eq!(p.span_name, "login_operation");
    assert_eq!(attributes(&p), pairs(&[("username", "username")]));
    assert!(p.is_async);
}

#[test]
fn instrument_reports_definition_errors() {
    let r = instrument(lex("retry"), function("f", &[]));
    assert!(matches!(r, Err(DefinitionError::UnknownOption { .. })));
}
