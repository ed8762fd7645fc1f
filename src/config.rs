use vstd::prelude::*;
use crate::syntax::{
    accepts_identifier, is_expression, is_identifier, parses_as_expression, string_literal,
    string_literal_value,
};
use crate::tokens::{tokens_source, tokens_text, Delimiter, Token};

verus! {

/// How a failure of the wrapped function is captured.
#[derive(Debug)]
pub enum ErrorCapture {
    /// Only the span status records the failure.
    Absent,
    /// The formatted failure value becomes the `error` attribute and the
    /// status message; the failure value itself is recorded as the structured
    /// error.
    Formatted,
    /// As `Formatted`, but the recorded error is this expression, evaluated
    /// with the failure value bound to `e`.
    Custom { expr: Vec<Token> },
}

/// One explicit attribute: a name and the expression that gives its value.
#[derive(Debug)]
pub struct Field {
    pub name: String,
    pub value: Vec<Token>,
}

/// The options attached to one function.
#[derive(Debug)]
pub struct Config {
    /// Parameters left out of automatic capture, viewed as a set: order and
    /// repetition do not matter. A name that is not a parameter of the
    /// function is ignored.
    pub skip: Vec<String>,
    pub skip_all: bool,
    pub fields: Vec<Field>,
    pub ret: bool,
    pub err: ErrorCapture,
    pub name: Option<String>,
    pub parent: Option<Vec<Token>>,
}

/// Why the option text was refused.
#[derive(Clone, Debug, PartialEq, Eq)]
pub enum DefinitionError {
    /// An option name that the grammar does not know.
    UnknownOption { name: String },
    /// The text breaks the grammar in another way.
    Malformed,
}

pub enum ErrorCaptureV {
    Absent,
    Formatted,
    Custom(Seq<Token>),
}

pub struct FieldV {
    pub name: Seq<char>,
    pub value: Seq<Token>,
}

pub struct ConfigV {
    pub skip: Set<Seq<char>>,
    pub skip_all: bool,
    pub fields: Seq<FieldV>,
    pub ret: bool,
    pub err: ErrorCaptureV,
    pub name: Option<Seq<char>>,
    pub parent: Option<Seq<Token>>,
}

pub enum DefinitionErrorV {
    UnknownOption(Seq<char>),
    Malformed,
}

impl ErrorCapture {
    pub open spec fn view(&self) -> ErrorCaptureV {
        match self {
            ErrorCapture::Absent => ErrorCaptureV::Absent,
            ErrorCapture::Formatted => ErrorCaptureV::Formatted,
            ErrorCapture::Custom { expr } => ErrorCaptureV::Custom(expr@),
        }
    }
}

impl Field {
    pub open spec fn view(&self) -> FieldV {
        FieldV { name: self.name@, value: self.value@ }
    }
}

pub open spec fn fields_view(fs: Seq<Field>) -> Seq<FieldV> {
    fs.map_values(|f: Field| f@)
}

impl Config {
    pub open spec fn view(&self) -> ConfigV {
        ConfigV {
            skip: self.skip@.map_values(|s: String| s@).to_set(),
            skip_all: self.skip_all,
            fields: fields_view(self.fields@),
            ret: self.ret,
            err: self.err@,
            name: match self.name {
                Some(n) => Some(n@),
                None => None,
            },
            parent: match self.parent {
                Some(p) => Some(p@),
                None => None,
            },
        }
    }
}

impl DefinitionError {
    pub open spec fn view(&self) -> DefinitionErrorV {
        match self {
            DefinitionError::UnknownOption { name } => DefinitionErrorV::UnknownOption(name@),
            DefinitionError::Malformed => DefinitionErrorV::Malformed,
        }
    }
}

/// The configuration of a function with no options.
pub open spec fn empty_config() -> ConfigV {
    ConfigV {
        skip: Set::empty(),
        skip_all: false,
        fields: seq![],
        ret: false,
        err: ErrorCaptureV::Absent,
        name: None,
        parent: None,
    }
}

pub open spec fn is_punct(t: Token, c: char) -> bool {
    t matches Token::Punct { ch, .. } && ch == c
}

/// The contents of a parenthesized group at `s[i]`.
pub open spec fn paren_content(s: Seq<Token>, i: int) -> Option<Seq<Token>> {
    if 0 <= i < s.len() && s[i] matches Token::Group { delimiter: Delimiter::Parenthesis, .. } {
        Some(s[i]->inner@)
    } else {
        None
    }
}

/// The least `j >= k`, `j >= 1`, at which `s[..j]` is an expression that ends
/// the list (`s[j]` is a comma or `j` is the end).
pub open spec fn expression_end_from(s: Seq<Token>, k: int) -> Option<int>
    decreases s.len() + 1 - k,
{
    if k > s.len() {
        None
    } else if k >= 1 && (k == s.len() || is_punct(s[k], ',')) && is_expression(
        tokens_text(s.subrange(0, k)),
    ) {
        Some(k)
    } else {
        expression_end_from(s, k + 1)
    }
}

/// Where the expression at the start of `s` ends: the first comma at this
/// level (or the end) before which the tokens form a whole expression.
pub open spec fn expression_end(s: Seq<Token>) -> Option<int> {
    expression_end_from(s, 1)
}

/// `ident ("," ident)* ","?`: the names of `skip(...)`, at least one.
pub open spec fn skip_list(s: Seq<Token>) -> Option<Seq<Seq<char>>>
    decreases s.len(),
{
    if s.len() == 0 {
        None
    } else if s[0] is Ident {
        if s.len() == 1 || (s.len() == 2 && is_punct(s[1], ',')) {
            Some(seq![s[0]->Ident_text@])
        } else if is_punct(s[1], ',') {
            match skip_list(s.skip(2)) {
                Some(rest) => Some(seq![s[0]->Ident_text@] + rest),
                None => None,
            }
        } else {
            None
        }
    } else {
        None
    }
}

/// One entry of `fields(...)` at the start of `s`, with the number of tokens
/// it takes: `name = expr`, or `name` alone, which reads the variable `name`.
pub open spec fn field_entry(s: Seq<Token>) -> Option<(FieldV, int)> {
    if s.len() > 0 && s[0] is Ident && is_identifier(s[0]->Ident_text@) {
        if s.len() > 1 && is_punct(s[1], '=') {
            match expression_end(s.skip(2)) {
                Some(k) => Some(
                    (FieldV { name: s[0]->Ident_text@, value: s.subrange(2, 2 + k) }, 2 + k),
                ),
                None => None,
            }
        } else {
            Some((FieldV { name: s[0]->Ident_text@, value: seq![s[0]] }, 1))
        }
    } else {
        None
    }
}

pub open spec fn entry_len(s: Seq<Token>) -> int {
    match field_entry(s) {
        Some((_, n)) => n,
        None => 0,
    }
}

/// `entry ("," entry)* ","?`: the entries of `fields(...)`, at least one.
pub open spec fn field_list(s: Seq<Token>) -> Option<Seq<FieldV>>
    decreases s.len(),
{
    if s.len() == 0 {
        None
    } else {
        match field_entry(s) {
            Some((f, n)) => if 0 < n <= s.len() {
                if n == s.len() || (n + 1 == s.len() && is_punct(s[n], ',')) {
                    Some(seq![f])
                } else if is_punct(s[n], ',') {
                    match field_list(s.skip(n + 1)) {
                        Some(rest) => Some(seq![f] + rest),
                        None => None,
                    }
                } else {
                    None
                }
            } else {
                None
            },
            None => None,
        }
    }
}

/// One option at the start of `s`, applied to `c`, with the number of tokens
/// it takes. A repeated option replaces the earlier one, except `fields`,
/// whose entries accumulate.
pub open spec fn parse_option(s: Seq<Token>, c: ConfigV) -> Result<(ConfigV, int), DefinitionErrorV> {
    if s.len() > 0 && s[0] is Ident && is_identifier(s[0]->Ident_text@) {
        let word = s[0]->Ident_text@;
        if word == "skip_all"@ {
            Ok((ConfigV { skip_all: true, ..c }, 1))
        } else if word == "ret"@ {
            Ok((ConfigV { ret: true, ..c }, 1))
        } else if word == "skip"@ {
            match paren_content(s, 1) {
                Some(inner) => match skip_list(inner) {
                    Some(names) => Ok((ConfigV { skip: names.to_set(), ..c }, 2)),
                    None => Err(DefinitionErrorV::Malformed),
                },
                None => Err(DefinitionErrorV::Malformed),
            }
        } else if word == "fields"@ {
            match paren_content(s, 1) {
                Some(inner) => match field_list(inner) {
                    Some(fs) => Ok((ConfigV { fields: c.fields + fs, ..c }, 2)),
                    None => Err(DefinitionErrorV::Malformed),
                },
                None => Err(DefinitionErrorV::Malformed),
            }
        } else if word == "err"@ {
            if s.len() > 1 && is_punct(s[1], '=') {
                match expression_end(s.skip(2)) {
                    Some(k) => Ok(
                        (ConfigV { err: ErrorCaptureV::Custom(s.subrange(2, 2 + k)), ..c }, 2 + k),
                    ),
                    None => Err(DefinitionErrorV::Malformed),
                }
            } else {
                Ok((ConfigV { err: ErrorCaptureV::Formatted, ..c }, 1))
            }
        } else if word == "name"@ {
            if s.len() > 2 && is_punct(s[1], '=') && s[2] is Literal && string_literal_value(
                s[2]->Literal_text@,
            ) is Some {
                Ok((ConfigV { name: string_literal_value(s[2]->Literal_text@), ..c }, 3))
            } else {
                Err(DefinitionErrorV::Malformed)
            }
        } else if word == "parent"@ {
            if s.len() > 1 && is_punct(s[1], '=') {
                match expression_end(s.skip(2)) {
                    Some(k) => Ok((ConfigV { parent: Some(s.subrange(2, 2 + k)), ..c }, 2 + k)),
                    None => Err(DefinitionErrorV::Malformed),
                }
            } else {
                Err(DefinitionErrorV::Malformed)
            }
        } else {
            Err(DefinitionErrorV::UnknownOption(word))
        }
    } else {
        Err(DefinitionErrorV::Malformed)
    }
}

pub open spec fn option_len(s: Seq<Token>, c: ConfigV) -> int {
    match parse_option(s, c) {
        Ok((_, n)) => n,
        Err(_) => 0,
    }
}

/// `option ("," option)* ","?`, or nothing, applied in order to `c`.
pub open spec fn parse_options(s: Seq<Token>, c: ConfigV) -> Result<ConfigV, DefinitionErrorV>
    decreases s.len(),
{
    if s.len() == 0 {
        Ok(c)
    } else {
        match parse_option(s, c) {
            Ok((c2, n)) => if 0 < n <= s.len() {
                if n == s.len() {
                    Ok(c2)
                } else if is_punct(s[n], ',') {
                    parse_options(s.skip(n + 1), c2)
                } else {
                    Err(DefinitionErrorV::Malformed)
                }
            } else {
                Err(DefinitionErrorV::Malformed)
            },
            Err(e) => Err(e),
        }
    }
}

/// The configuration that the option text `s` describes, or why it is refused.
pub open spec fn config_of(s: Seq<Token>) -> Result<ConfigV, DefinitionErrorV> {
    parse_options(s, empty_config())
}

proof fn lemma_expression_end_bounds(s: Seq<Token>, k: int)
    requires
        expression_end_from(s, k) is Some,
    ensures
        k <= expression_end_from(s, k)->0 <= s.len(),
        1 <= expression_end_from(s, k)->0,
    decreases s.len() + 1 - k,
{
    if k <= s.len() && !(k >= 1 && (k == s.len() || is_punct(s[k], ',')) && is_expression(
        tokens_text(s.subrange(0, k)),
    )) {
        lemma_expression_end_bounds(s, k + 1);
    }
}

proof fn lemma_option_progress(s: Seq<Token>, c: ConfigV)
    requires
        parse_option(s, c) is Ok,
    ensures
        0 < option_len(s, c) <= s.len(),
{
    if s.len() > 1 && is_punct(s[1], '=') && expression_end(s.skip(2)) is Some {
        lemma_expression_end_bounds(s.skip(2), 1);
    }
}

fn is_word(text: &String, word: &str) -> (r: bool)
    ensures
        r == (text@ == word@),
{
    let w = word.to_owned();
    text.eq(&w)
}

fn is_punct_token(t: &Token, c: char) -> (r: bool)
    ensures
        r == is_punct(*t, c),
{
    match t {
        Token::Punct { ch, .. } => *ch == c,
        _ => false,
    }
}

/// Moves the expression at the front of `rest` out of it.
fn take_expression(rest: &mut Vec<Token>) -> (r: Option<Vec<Token>>)
    ensures
        match expression_end(old(rest)@) {
            Some(k) => r matches Some(e) && e@ == old(rest)@.subrange(0, k) && final(rest)@
                == old(rest)@.skip(k),
            None => r is None,
        },
{
    let ghost s = rest@;
    let mut e: Vec<Token> = Vec::new();
    while rest.len() > 0
        invariant
            s == old(rest)@,
            s == e@ + rest@,
            expression_end(s) == expression_end_from(s, e@.len() as int + 1),
        decreases rest@.len(),
    {
        let t = rest.remove(0);
        e.push(t);
        assert(s == e@ + rest@);
        let at_end = rest.len() == 0 || is_punct_token(&rest[0], ',');
        if at_end {
            let text = tokens_source(&e, 0, e.len());
            assert(e@.subrange(0, e@.len() as int) =~= e@);
            assert(s.subrange(0, e@.len() as int) =~= e@);
            if parses_as_expression(&text) {
                assert(s.skip(e@.len() as int) =~= rest@);
                assert(expression_end_from(s, e@.len() as int) == Some(e@.len() as int));
                return Some(e);
            }
        }
        assert(e@.len() == s.len() ==> at_end);
    }
    None
}

/// The names of a `skip(...)` list, `inner[i..]` of it.
fn skip_names(inner: &Vec<Token>, i: usize) -> (r: Option<Vec<String>>)
    requires
        i <= inner@.len(),
    ensures
        match skip_list(inner@.skip(i as int)) {
            Some(ns) => r matches Some(v) && v@.map_values(|n: String| n@) == ns,
            None => r is None,
        },
    decreases inner@.len() - i,
{
    let ghost s = inner@.skip(i as int);
    if i == inner.len() {
        return None;
    }
    let name = match &inner[i] {
        Token::Ident { text } => text.clone(),
        _ => return None,
    };
    if i + 1 == inner.len() {
        let v = vec![name];
        assert(v@.map_values(|n: String| n@) =~= seq![s[0]->Ident_text@]);
        return Some(v);
    }
    if !is_punct_token(&inner[i + 1], ',') {
        return None;
    }
    if i + 2 == inner.len() {
        let v = vec![name];
        assert(v@.map_values(|n: String| n@) =~= seq![s[0]->Ident_text@]);
        return Some(v);
    }
    assert(s.skip(2) =~= inner@.skip(i + 2));
    match skip_names(inner, i + 2) {
        Some(mut v) => {
            let ghost tail = v@;
            v.insert(0, name);
            assert(v@.map_values(|n: String| n@) =~= seq![s[0]->Ident_text@] + tail.map_values(
                |n: String| n@,
            ));
            Some(v)
        },
        None => None,
    }
}

/// Moves one entry of a `fields(...)` list out of the front of `rest`.
fn take_field(rest: &mut Vec<Token>) -> (r: Option<Field>)
    ensures
        match field_entry(old(rest)@) {
            Some((f, n)) => r matches Some(x) && x@ == f && final(rest)@ == old(rest)@.skip(n),
            None => r is None,
        },
{
    let ghost s = rest@;
    if rest.len() == 0 {
        return None;
    }
    let ok = match &rest[0] {
        Token::Ident { text } => accepts_identifier(text),
        _ => false,
    };
    if !ok {
        return None;
    }
    let text = match rest.remove(0) {
        Token::Ident { text } => text,
        _ => return None,
    };
    let name = text.clone();
    if rest.len() > 0 && is_punct_token(&rest[0], '=') {
        rest.remove(0);
        assert(rest@ =~= s.skip(2));
        match take_expression(rest) {
            Some(value) => {
                proof {
                    lemma_expression_end_bounds(s.skip(2), 1);
                }
                let ghost k = expression_end(s.skip(2))->0;
                assert(rest@ =~= s.skip(2 + k));
                assert(value@ =~= s.subrange(2, 2 + k));
                Some(Field { name, value })
            },
            None => None,
        }
    } else {
        let value = vec![Token::Ident { text }];
        assert(rest@ =~= s.skip(1));
        assert(value@ =~= seq![s[0]]);
        Some(Field { name, value })
    }
}

/// Moves a whole `fields(...)` list out of `rest`.
fn take_fields(rest: &mut Vec<Token>) -> (r: Option<Vec<Field>>)
    ensures
        match field_list(old(rest)@) {
            Some(fs) => r matches Some(v) && fields_view(v@) == fs,
            None => r is None,
        },
{
    let ghost s = rest@;
    let mut out: Vec<Field> = Vec::new();
    while rest.len() > 0
        invariant
            s == old(rest)@,
            match field_list(rest@) {
                Some(fs) => field_list(s) == Some(fields_view(out@) + fs),
                None => field_list(s) is None,
            },
        decreases rest@.len(),
    {
        let ghost before = rest@;
        match take_field(rest) {
            Some(f) => {
                let ghost n = entry_len(before);
                proof {
                    if n != 1 {
                        lemma_expression_end_bounds(before.skip(2), 1);
                    }
                }
                let ghost prev = out@;
                if rest.len() == 0 {
                    out.push(f);
                    assert(fields_view(out@) =~= fields_view(prev) + seq![f@]);
                    return Some(out);
                } else if is_punct_token(&rest[0], ',') {
                    rest.remove(0);
                    assert(rest@ =~= before.skip(n + 1));
                    out.push(f);
                    assert(fields_view(out@) =~= fields_view(prev) + seq![f@]);
                    if rest.len() == 0 {
                        return Some(out);
                    }
                    proof {
                        match field_list(rest@) {
                            Some(fs) => assert(fields_view(out@) + fs =~= fields_view(prev) + (
                            seq![f@] + fs)),
                            None => {},
                        }
                    }
                } else {
                    assert(field_list(before) is None);
                    return None;
                }
            },
            None => {
                assert(field_list(before) is None);
                return None;
            },
        }
    }
    None
}

proof fn lemma_fields_view_append(a: Seq<Field>, b: Seq<Field>)
    ensures
        fields_view(a + b) == fields_view(a) + fields_view(b),
{
    assert(fields_view(a + b) =~= fields_view(a) + fields_view(b));
}

/// Moves one option out of the front of `rest` and applies it to `c`.
fn take_option(rest: &mut Vec<Token>, c: &mut Config) -> (r: Result<(), DefinitionError>)
    ensures
        match parse_option(old(rest)@, old(c)@) {
            Ok((c2, n)) => r is Ok && final(c)@ == c2 && final(rest)@ == old(rest)@.skip(n),
            Err(e) => r matches Err(x) && x@ == e,
        },
{
    let ghost s = rest@;
    let ghost c0 = c@;
    if rest.len() == 0 {
        return Err(DefinitionError::Malformed);
    }
    let word = match &rest[0] {
        Token::Ident { text } => {
            if !accepts_identifier(text) {
                return Err(DefinitionError::Malformed);
            }
            text.clone()
        },
        _ => return Err(DefinitionError::Malformed),
    };
    if is_word(&word, "skip_all") {
        rest.remove(0);
        c.skip_all = true;
        assert(rest@ =~= s.skip(1));
        assert(c@ =~= (ConfigV { skip_all: true, ..c0 }));
        Ok(())
    } else if is_word(&word, "ret") {
        rest.remove(0);
        c.ret = true;
        assert(rest@ =~= s.skip(1));
        assert(c@ =~= (ConfigV { ret: true, ..c0 }));
        Ok(())
    } else if is_word(&word, "skip") {
        if rest.len() < 2 {
            return Err(DefinitionError::Malformed);
        }
        let names = match &rest[1] {
            Token::Group { delimiter: Delimiter::Parenthesis, inner } => {
                assert(inner@.skip(0) =~= inner@);
                skip_names(inner, 0)
            },
            _ => return Err(DefinitionError::Malformed),
        };
        match names {
            Some(names) => {
                rest.remove(0);
                rest.remove(0);
                assert(rest@ =~= s.skip(2));
                c.skip = names;
                assert(c@ =~= (ConfigV { skip: c@.skip, ..c0 }));
                Ok(())
            },
            None => Err(DefinitionError::Malformed),
        }
    } else if is_word(&word, "fields") {
        if rest.len() < 2 {
            return Err(DefinitionError::Malformed);
        }
        rest.remove(0);
        let group = rest.remove(0);
        assert(rest@ =~= s.skip(2));
        match group {
            Token::Group { delimiter: Delimiter::Parenthesis, inner } => {
                let mut inner = inner;
                match take_fields(&mut inner) {
                    Some(mut fs) => {
                        let ghost before = c.fields@;
                        let ghost added = fs@;
                        c.fields.append(&mut fs);
                        proof {
                            lemma_fields_view_append(before, added);
                        }
                        assert(c@ =~= (ConfigV { fields: c0.fields + fields_view(added), ..c0 }));
                        Ok(())
                    },
                    None => Err(DefinitionError::Malformed),
                }
            },
            _ => Err(DefinitionError::Malformed),
        }
    } else if is_word(&word, "err") {
        if rest.len() > 1 && is_punct_token(&rest[1], '=') {
            rest.remove(0);
            rest.remove(0);
            assert(rest@ =~= s.skip(2));
            match take_expression(rest) {
                Some(expr) => {
                    proof {
                        lemma_expression_end_bounds(s.skip(2), 1);
                    }
                    let ghost k = expression_end(s.skip(2))->0;
                    assert(rest@ =~= s.skip(2 + k));
                    assert(expr@ =~= s.subrange(2, 2 + k));
                    c.err = ErrorCapture::Custom { expr };
                    assert(c@ =~= (ConfigV { err: c@.err, ..c0 }));
                    Ok(())
                },
                None => Err(DefinitionError::Malformed),
            }
        } else {
            rest.remove(0);
            assert(rest@ =~= s.skip(1));
            c.err = ErrorCapture::Formatted;
            assert(c@ =~= (ConfigV { err: ErrorCaptureV::Formatted, ..c0 }));
            Ok(())
        }
    } else if is_word(&word, "name") {
        if rest.len() > 2 && is_punct_token(&rest[1], '=') {
            let value = match &rest[2] {
                Token::Literal { text } => string_literal(text),
                _ => return Err(DefinitionError::Malformed),
            };
            match value {
                Some(v) => {
                    rest.remove(0);
                    rest.remove(0);
                    rest.remove(0);
                    assert(rest@ =~= s.skip(3));
                    c.name = Some(v);
                    assert(c@ =~= (ConfigV { name: c@.name, ..c0 }));
                    Ok(())
                },
                None => Err(DefinitionError::Malformed),
            }
        } else {
            Err(DefinitionError::Malformed)
        }
    } else if is_word(&word, "parent") {
        if rest.len() > 1 && is_punct_token(&rest[1], '=') {
            rest.remove(0);
            rest.remove(0);
            assert(rest@ =~= s.skip(2));
            match take_expression(rest) {
                Some(expr) => {
                    proof {
                        lemma_expression_end_bounds(s.skip(2), 1);
                    }
                    let ghost k = expression_end(s.skip(2))->0;
                    assert(rest@ =~= s.skip(2 + k));
                    assert(expr@ =~= s.subrange(2, 2 + k));
                    c.parent = Some(expr);
                    assert(c@ =~= (ConfigV { parent: c@.parent, ..c0 }));
                    Ok(())
                },
                None => Err(DefinitionError::Malformed),
            }
        } else {
            Err(DefinitionError::Malformed)
        }
    } else {
        Err(DefinitionError::UnknownOption { name: word })
    }
}

/// Parses the option text attached to a function.
///
/// The text is a comma-separated list, in any order, of `skip_all`,
/// `skip(a, b, ..)`, `fields(k = expr, name, ..)`, `ret`, `err`,
/// `err = expr`, `name = "literal"` and `parent = expr`, with an optional
/// trailing comma. An option that appears twice replaces the earlier one,
/// except `fields`, whose entries accumulate. Any violation rejects the whole
/// text.
pub fn parse_config(args: Vec<Token>) -> (r: Result<Config, DefinitionError>)
    ensures
        match config_of(args@) {
            Ok(cv) => r matches Ok(c) && c@ == cv,
            Err(e) => r matches Err(x) && x@ == e,
        },
{
    let mut rest = args;
    let mut c = Config {
        skip: Vec::new(),
        skip_all: false,
        fields: Vec::new(),
        ret: false,
        err: ErrorCapture::Absent,
        name: None,
        parent: None,
    };
    assert(c@.skip =~= Set::empty());
    assert(c@.fields =~= seq![]);
    assert(c@ == empty_config());
    while rest.len() > 0
        invariant
            parse_options(rest@, c@) == config_of(args@),
        decreases rest@.len(),
    {
        let ghost before = rest@;
        let ghost cb = c@;
        match take_option(&mut rest, &mut c) {
            Ok(()) => {
                proof {
                    lemma_option_progress(before, cb);
                }
                if rest.len() > 0 {
                    if is_punct_token(&rest[0], ',') {
                        let ghost n = before.len() - rest@.len();
                        rest.remove(0);
                        assert(rest@ =~= before.skip(n + 1));
                    } else {
                        return Err(DefinitionError::Malformed);
                    }
                }
            },
            Err(e) => {
                return Err(e);
            },
        }
    }
    Ok(c)
}

} // verus!
