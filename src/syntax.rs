use vstd::prelude::*;

verus! {

/// Whether `s` is the source text of exactly one Rust expression.
pub uninterp spec fn is_expression(s: Seq<char>) -> bool;

/// The value of the Rust string literal whose source text is `s`, if it is one.
pub uninterp spec fn string_literal_value(s: Seq<char>) -> Option<Seq<char>>;

/// Whether `s` is an identifier that is not a reserved word.
pub uninterp spec fn is_identifier(s: Seq<char>) -> bool;

/// Relies on `syn::parse_str::<syn::Expr>`, which succeeds exactly when the
/// whole text is one expression.
#[verifier::external_body]
pub(crate) fn parses_as_expression(text: &Vec<char>) -> (r: bool)
    ensures
        r == is_expression(text@),
{
    let source: String = text.iter().collect();
    syn::parse_str::<syn::Expr>(&source).is_ok()
}

/// Relies on `syn::parse_str::<syn::LitStr>` and `syn::LitStr::value`: the
/// unescaped contents of a string literal.
#[verifier::external_body]
pub(crate) fn string_literal(text: &String) -> (r: Option<String>)
    ensures
        match r {
            Some(v) => string_literal_value(text@) == Some(v@),
            None => string_literal_value(text@) is None,
        },
{
    match syn::parse_str::<syn::LitStr>(text) {
        Ok(lit) => Some(lit.value()),
        Err(_) => None,
    }
}

/// Relies on `syn::parse_str::<syn::Ident>`, which accepts one identifier
/// and refuses reserved words.
#[verifier::external_body]
pub(crate) fn accepts_identifier(text: &String) -> (r: bool)
    ensures
        r == is_identifier(text@),
{
    syn::parse_str::<syn::Ident>(text).is_ok()
}

} // verus!
