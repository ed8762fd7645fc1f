use vstd::prelude::*;
use crate::config::{DefinitionError, DefinitionErrorV};
use crate::syntax::{string_literal, string_literal_value};
use crate::tokens::Token;

verus! {

/// The tracer name used when none is given.
pub open spec fn default_tracer_name() -> Seq<char> {
    "otel-instrument"@
}

/// The tracer name that the text `s` sets: the default for empty text, else
/// the value of the one string literal that the text must be.
pub open spec fn tracer_name_of(s: Seq<Token>) -> Result<Seq<char>, DefinitionErrorV> {
    if s.len() == 0 {
        Ok(default_tracer_name())
    } else if s.len() == 1 && s[0] is Literal && string_literal_value(s[0]->Literal_text@) is Some {
        Ok(string_literal_value(s[0]->Literal_text@)->0)
    } else {
        Err(DefinitionErrorV::Malformed)
    }
}

/// Reads the process-wide tracer name from the text given to declare it.
pub fn tracer_name(input: &Vec<Token>) -> (r: Result<String, DefinitionError>)
    ensures
        match tracer_name_of(input@) {
            Ok(n) => r matches Ok(v) && v@ == n,
            Err(e) => r matches Err(x) && x@ == e,
        },
{
    if input.len() == 0 {
        return Ok("otel-instrument".to_owned());
    }
    if input.len() > 1 {
        return Err(DefinitionError::Malformed);
    }
    match &input[0] {
        Token::Literal { text } => match string_literal(text) {
            Some(v) => Ok(v),
            None => Err(DefinitionError::Malformed),
        },
        _ => Err(DefinitionError::Malformed),
    }
}

} // verus!
