use vstd::prelude::*;

verus! {

/// The character for a single decimal digit.
pub open spec fn dec_digit(d: int) -> char {
    if d == 0 {
        '0'
    } else if d == 1 {
        '1'
    } else if d == 2 {
        '2'
    } else if d == 3 {
        '3'
    } else if d == 4 {
        '4'
    } else if d == 5 {
        '5'
    } else if d == 6 {
        '6'
    } else if d == 7 {
        '7'
    } else if d == 8 {
        '8'
    } else {
        '9'
    }
}

/// The decimal representation of a non-negative integer, most significant
/// digit first.
pub open spec fn dec_rep(n: int) -> Seq<char>
    decreases n,
{
    if n < 10 {
        seq![dec_digit(n)]
    } else {
        dec_rep(n / 10).push(dec_digit(n % 10))
    }
}

/// The digit characters for a single decimal digit.
pub fn digit_str(d: u32) -> (s: &'static str)
    requires
        d < 10,
    ensures
        s@ == seq![dec_digit(d as int)],
{
    let s: &'static str = if d == 0 {
        "0"
    } else if d == 1 {
        "1"
    } else if d == 2 {
        "2"
    } else if d == 3 {
        "3"
    } else if d == 4 {
        "4"
    } else if d == 5 {
        "5"
    } else if d == 6 {
        "6"
    } else if d == 7 {
        "7"
    } else if d == 8 {
        "8"
    } else {
        "9"
    };
    proof {
        reveal_strlit("0");
        reveal_strlit("1");
        reveal_strlit("2");
        reveal_strlit("3");
        reveal_strlit("4");
        reveal_strlit("5");
        reveal_strlit("6");
        reveal_strlit("7");
        reveal_strlit("8");
        reveal_strlit("9");
        assert(s@ =~= seq![dec_digit(d as int)]);
    }
    s
}

/// Renders a non-negative integer in decimal.
pub fn decimal_string(n: u32) -> (s: String)
    ensures
        s@ == dec_rep(n as int),
    decreases n,
{
    if n < 10 {
        String::from_str(digit_str(n))
    } else {
        let prefix = decimal_string(n / 10);
        let s = prefix.concat(digit_str(n % 10));
        proof {
            assert(s@ =~= dec_rep(n as int / 10).push(dec_digit(n as int % 10)));
        }
        s
    }
}

/// A failure to produce one token from the character stream. Lexer errors
/// are values in the token sequence: one failed element does not stop the
/// stream.
#[derive(Debug, Clone)]
pub enum LexerError {
    /// No registered plugin claims the leading character.
    UnknownToken(char),
    /// A plugin began a lexeme but found it malformed; the payload is the
    /// display text of the underlying cause.
    IncompleteToken(String),
}

/// The mathematical content of a [`LexerError`].
pub enum LexerErrorView {
    /// No registered plugin claims the leading character.
    UnknownToken(char),
    /// A plugin began a lexeme but found it malformed; the payload holds
    /// the characters of the cause's display text.
    IncompleteToken(Seq<char>),
}

impl View for LexerError {
    type V = LexerErrorView;

    open spec fn view(&self) -> LexerErrorView {
        match self {
            LexerError::UnknownToken(c) => LexerErrorView::UnknownToken(*c),
            LexerError::IncompleteToken(cause) => LexerErrorView::IncompleteToken(cause@),
        }
    }
}

impl LexerErrorView {
    /// The display text of the error.
    pub open spec fn spec_message(&self) -> Seq<char> {
        match self {
            LexerErrorView::UnknownToken(c) => "Error: unknown token: "@ + seq![*c],
            LexerErrorView::IncompleteToken(cause) => "Error: "@ + *cause,
        }
    }
}

impl LexerError {
    /// The display text of this error.
    pub fn message(&self) -> (s: String)
        ensures
            s@ == self@.spec_message(),
    {
        match self {
            LexerError::UnknownToken(c) => {
                let mut s = String::from_str("Error: unknown token: ");
                push_char(&mut s, *c);
                s
            },
            LexerError::IncompleteToken(cause) => {
                let mut s = String::from_str("Error: ");
                s.append(cause.as_str());
                s
            },
        }
    }
}

/// Relies on String::push: appends exactly the given character.
#[verifier::external_body]
pub(crate) fn push_char(s: &mut String, c: char)
    ensures
        final(s)@ == old(s)@.push(c),
{
    s.push(c);
}

/// A failure of a whole parse call; the payload is its display text.
/// The first lexer or grammar error met during parsing is promoted to a
/// `ParseError` and the parse is abandoned.
#[derive(Debug, Clone)]
pub struct ParseError(pub String);

impl View for ParseError {
    type V = Seq<char>;

    open spec fn view(&self) -> Seq<char> {
        self.0@
    }
}

impl ParseError {
    /// The display text of this error.
    pub fn message(&self) -> (s: &str)
        ensures
            s@ == self@,
    {
        self.0.as_str()
    }
}

/// Evaluation could not produce a value. No sub-kinds are distinguished at
/// this layer.
#[derive(Debug, Clone, Copy, PartialEq, Eq, Structural)]
pub struct EvalError;

} // verus!
