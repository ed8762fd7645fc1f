use vstd::prelude::*;
use vstd::string::StrSliceExecFns;

verus! {

/// The delimiter of a token group.
#[derive(Clone, Copy, Debug, PartialEq, Eq, Structural)]
pub enum Delimiter {
    Parenthesis,
    Brace,
    Bracket,
    /// A group without visible delimiters.
    Invisible,
}

/// A token tree of the option text attached to a function.
#[derive(Debug)]
pub enum Token {
    Ident { text: String },
    /// `joint` is set when the punctuation character is immediately followed
    /// by another one that belongs to the same operator (`=` in `==`).
    Punct { ch: char, joint: bool },
    Literal { text: String },
    Group { delimiter: Delimiter, inner: Vec<Token> },
}

pub open spec fn open_text(d: Delimiter) -> Seq<char> {
    match d {
        Delimiter::Parenthesis => seq!['('],
        Delimiter::Brace => seq!['{'],
        Delimiter::Bracket => seq!['['],
        Delimiter::Invisible => seq![],
    }
}

pub open spec fn close_text(d: Delimiter) -> Seq<char> {
    match d {
        Delimiter::Parenthesis => seq![')', ' '],
        Delimiter::Brace => seq!['}', ' '],
        Delimiter::Bracket => seq![']', ' '],
        Delimiter::Invisible => seq![],
    }
}

/// Source text of one token tree: every token is followed by a space, except
/// a joint punctuation character, which is glued to the next one.
pub open spec fn token_text(t: Token) -> Seq<char>
    decreases t,
{
    match t {
        Token::Ident { text } => text@.push(' '),
        Token::Punct { ch, joint } => if joint {
            seq![ch]
        } else {
            seq![ch, ' ']
        },
        Token::Literal { text } => text@.push(' '),
        Token::Group { delimiter, inner } => open_text(delimiter) + tokens_text(inner@)
            + close_text(delimiter),
    }
}

/// Source text of a sequence of token trees.
pub open spec fn tokens_text(s: Seq<Token>) -> Seq<char>
    decreases s,
{
    if s.len() == 0 {
        seq![]
    } else {
        tokens_text(s.drop_last()) + token_text(s.last())
    }
}

fn push_str(out: &mut Vec<char>, s: &String)
    ensures
        final(out)@ == old(out)@ + s@,
{
    let n = s.as_str().unicode_len();
    let mut i: usize = 0;
    while i < n
        invariant
            n == s@.len(),
            i <= n,
            out@ == old(out)@ + s@.subrange(0, i as int),
        decreases n - i,
    {
        out.push(s.as_str().get_char(i));
        i = i + 1;
        assert(s@.subrange(0, i as int) =~= s@.subrange(0, i - 1 as int).push(s@[i - 1]));
    }
    assert(s@.subrange(0, n as int) =~= s@);
}

fn push_delimiter(out: &mut Vec<char>, d: Delimiter, open: bool)
    ensures
        final(out)@ == old(out)@ + (if open {
            open_text(d)
        } else {
            close_text(d)
        }),
{
    let c = match d {
        Delimiter::Parenthesis => if open { '(' } else { ')' },
        Delimiter::Brace => if open { '{' } else { '}' },
        Delimiter::Bracket => if open { '[' } else { ']' },
        Delimiter::Invisible => {
            assert(old(out)@ + seq![] =~= old(out)@);
            return;
        },
    };
    out.push(c);
    if !open {
        out.push(' ');
    }
    assert(old(out)@ + (if open { open_text(d) } else { close_text(d) }) =~= out@);
}

fn render_token(out: &mut Vec<char>, t: &Token)
    ensures
        final(out)@ == old(out)@ + token_text(*t),
    decreases *t,
{
    match t {
        Token::Ident { text } | Token::Literal { text } => {
            push_str(out, text);
            out.push(' ');
        },
        Token::Punct { ch, joint } => {
            out.push(*ch);
            if !*joint {
                out.push(' ');
            }
        },
        Token::Group { delimiter, inner } => {
            push_delimiter(out, *delimiter, true);
            render_tokens(out, inner, 0, inner.len());
            push_delimiter(out, *delimiter, false);
            assert(inner@.subrange(0, inner@.len() as int) =~= inner@);
        },
    }
    assert(out@ =~= old(out)@ + token_text(*t));
}

/// Appends the source text of `toks[from..to]` to `out`.
fn render_tokens(out: &mut Vec<char>, toks: &Vec<Token>, from: usize, to: usize)
    requires
        from <= to <= toks@.len(),
    ensures
        final(out)@ == old(out)@ + tokens_text(toks@.subrange(from as int, to as int)),
    decreases toks@, 0int,
{
    let mut i = from;
    while i < to
        invariant
            from <= i <= to <= toks@.len(),
            out@ == old(out)@ + tokens_text(toks@.subrange(from as int, i as int)),
        decreases to - i,
    {
        render_token(out, &toks[i]);
        let ghost s = toks@.subrange(from as int, i + 1);
        assert(s.drop_last() =~= toks@.subrange(from as int, i as int));
        i = i + 1;
    }
}

/// The source text of `toks[from..to]`.
pub fn tokens_source(toks: &Vec<Token>, from: usize, to: usize) -> (r: Vec<char>)
    requires
        from <= to <= toks@.len(),
    ensures
        r@ == tokens_text(toks@.subrange(from as int, to as int)),
{
    let mut out: Vec<char> = Vec::new();
    render_tokens(&mut out, toks, from, to);
    assert(Seq::<char>::empty() + tokens_text(toks@.subrange(from as int, to as int)) =~= out@);
    out
}

} // verus!
