use vstd::prelude::*;
use vstd::string::StrSliceExecFns;
use vstd::string::StringExecFns;

use crate::errors::dec_rep;
use crate::errors::decimal_string;
use crate::errors::LexerError;
use crate::errors::LexerErrorView;
use crate::errors::ParseError;
use crate::lexer::LexerPlugin;
use crate::lexer::ParseAdapter;
use crate::lexer::TokenGroup;
use crate::lexer::TokenView;
use crate::parser::ExprParser;
use crate::parser::LitParser;
use crate::parser::TokenStream;
use crate::state::State;
use crate::state::StateView;
use crate::state::SubState;

verus! {

/// A decimal digit.
pub open spec fn is_digit(c: char) -> bool {
    '0' <= c && c <= '9'
}

/// Where a numeral scan started just after a leading digit ends, and
/// whether it ended well: characters are taken while they are digits, one
/// decimal point among them; a second decimal point is taken and ends the
/// scan badly.
pub open spec fn spec_scan_numeral(source: Seq<char>, i: int, seen_dot: bool) -> (int, bool)
    decreases source.len() - i,
{
    if i < 0 || i >= source.len() {
        (i, true)
    } else if is_digit(source[i]) {
        spec_scan_numeral(source, i + 1, seen_dot)
    } else if source[i] == '.' && !seen_dot {
        spec_scan_numeral(source, i + 1, true)
    } else if source[i] == '.' {
        (i + 1, false)
    } else {
        (i, true)
    }
}

/// A numeral scan stays inside the source and does not move backwards.
pub proof fn lemma_scan_numeral_bounds(source: Seq<char>, i: int, seen_dot: bool)
    requires
        0 <= i <= source.len(),
    ensures
        i <= spec_scan_numeral(source, i, seen_dot).0 <= source.len(),
    decreases source.len() - i,
{
    if i < source.len() {
        if is_digit(source[i]) {
            lemma_scan_numeral_bounds(source, i + 1, seen_dot);
        } else if source[i] == '.' && !seen_dot {
            lemma_scan_numeral_bounds(source, i + 1, true);
        }
    }
}

/// Every character is a decimal digit.
pub open spec fn all_digits(s: Seq<char>) -> bool {
    forall|i: int| 0 <= i < s.len() ==> is_digit(#[trigger] s[i])
}

/// The characters form a numeral with its single decimal point at `k`:
/// digits on both sides, at least one of each.
pub open spec fn numeral_with_dot_at(s: Seq<char>, k: int) -> bool {
    &&& 1 <= k < s.len() - 1
    &&& s[k] == '.'
    &&& all_digits(s.subrange(0, k))
    &&& all_digits(s.subrange(k + 1, s.len() as int))
}

/// The characters form a numeral: one nonempty run of digits, with at most
/// one decimal point strictly inside it.
pub open spec fn is_numeral(s: Seq<char>) -> bool {
    ||| (s.len() > 0 && all_digits(s))
    ||| (exists|k: int| numeral_with_dot_at(s, k))
}

proof fn lemma_scan_digit_prefix(src: Seq<char>, i: int, k: int, seen_dot: bool)
    requires
        0 <= i <= k <= src.len(),
        forall|j: int| i <= j < k ==> is_digit(#[trigger] src[j]),
    ensures
        spec_scan_numeral(src, i, seen_dot) == spec_scan_numeral(src, k, seen_dot),
    decreases k - i,
{
    if i < k {
        lemma_scan_digit_prefix(src, i + 1, k, seen_dot);
    }
}

/// Lexing a numeral whose lexeme runs from `start` to `end` consumes
/// exactly the lexeme and yields its literal token, provided the source
/// does not continue it with another digit or point.
pub proof fn lemma_lex_numeral_exact(src: Seq<char>, start: int, end: int, line: u32)
    requires
        0 <= start < end <= src.len(),
        is_numeral(src.subrange(start, end)),
        end == src.len() || (!is_digit(src[end]) && src[end] != '.'),
    ensures
        spec_lex_numeral(src, start, line) == (
            Ok::<TokenView, LexerErrorView>(
                TokenView {
                    line,
                    lexum: src.subrange(start, end),
                    adapter: ParseAdapter::Literal,
                },
            ),
            end,
        ),
{
    let num = src.subrange(start, end);
    assert forall|j: int| start <= j < end implies src[j] == num[j - start] by {
        assert(num[j - start] == src[j]);
    }
    if num.len() > 0 && all_digits(num) {
        assert forall|j: int| start + 1 <= j < end implies is_digit(#[trigger] src[j]) by {
            assert(is_digit(num[j - start]));
        }
        lemma_scan_digit_prefix(src, start + 1, end, false);
        assert(spec_scan_numeral(src, end, false) == (end, true));
        assert(is_digit(src[end - 1]));
    } else {
        let k = choose|k: int| numeral_with_dot_at(num, k);
        let dot = start + k;
        assert forall|j: int| start + 1 <= j < dot implies is_digit(#[trigger] src[j]) by {
            assert(num.subrange(0, k)[j - start] == num[j - start]);
            assert(is_digit(num.subrange(0, k)[j - start]));
        }
        lemma_scan_digit_prefix(src, start + 1, dot, false);
        assert(src[dot] == '.');
        assert(spec_scan_numeral(src, dot, false) == spec_scan_numeral(src, dot + 1, true));
        assert forall|j: int| dot + 1 <= j < end implies is_digit(#[trigger] src[j]) by {
            assert(num.subrange(k + 1, num.len() as int)[j - start - k - 1] == num[j - start]);
            assert(is_digit(num.subrange(k + 1, num.len() as int)[j - start - k - 1]));
        }
        lemma_scan_digit_prefix(src, dot + 1, end, true);
        assert(spec_scan_numeral(src, end, true) == (end, true));
        assert(num.subrange(k + 1, num.len() as int)[end - start - k - 2] == num[end - 1 - start]);
        assert(is_digit(src[end - 1]));
    }
}

/// The display text of an [`InvalidNumberError`].
pub open spec fn invalid_number_message(line: u32, lexum: Seq<char>) -> Seq<char> {
    "[line: "@ + dec_rep(line as int) + "] Error at "@ + lexum + ": Invalid Number"@
}

/// What lexing a numeral whose leading digit stands at `start` yields: the
/// numeral token, or `IncompleteToken` when the lexeme is malformed (a
/// second decimal point, or a trailing one), and the cursor position after
/// the consumed characters either way.
pub open spec fn spec_lex_numeral(source: Seq<char>, start: int, line: u32) -> (Result<
    TokenView,
    LexerErrorView,
>, int) {
    let (end, ok) = spec_scan_numeral(source, start + 1, false);
    let lexum = source.subrange(start, end);
    if ok && source[end - 1] != '.' {
        (Ok(TokenView { line, lexum, adapter: ParseAdapter::Literal }), end)
    } else {
        (Err(LexerErrorView::IncompleteToken(invalid_number_message(line, lexum))), end)
    }
}

/// Consumes the rest of a numeral whose leading digit stands at `start`,
/// returning the end position and whether the lexeme is well formed.
pub(crate) fn scan_number_end(source: &str, start: usize) -> (r: (usize, bool))
    requires
        start < source@.len(),
        is_digit(source@[start as int]),
    ensures
        ({
            let (end, ok) = spec_scan_numeral(source@, start + 1, false);
            r.0 == end && r.1 == (ok && source@[end - 1] != '.')
        }),
        start < r.0 <= source@.len(),
{
    let n = source.unicode_len();
    let mut i = start + 1;
    let mut seen_dot = false;
    let mut ok = true;
    loop
        invariant
            start + 1 <= i <= n,
            n == source@.len(),
            start < source@.len(),
            spec_scan_numeral(source@, i as int, seen_dot) == spec_scan_numeral(
                source@,
                start + 1 as int,
                false,
            ),
        ensures
            start < i <= n,
            spec_scan_numeral(source@, start + 1 as int, false) == (i as int, true),
        decreases n - i,
    {
        if i >= n {
            break ;
        }
        let c = source.get_char(i);
        if c >= '0' && c <= '9' {
            i = i + 1;
        } else if c == '.' && !seen_dot {
            seen_dot = true;
            i = i + 1;
        } else if c == '.' {
            i = i + 1;
            ok = false;
            proof {
                lemma_scan_numeral_bounds(source@, i as int, seen_dot);
            }
            return (i, false);
        } else {
            break ;
        }
    }
    let last = source.get_char(i - 1);
    (i, last != '.')
}

/// The cause a malformed numeral lexeme is reported with: the line it
/// stands on and the offending lexeme.
#[derive(Debug, Clone)]
pub struct InvalidNumberError {
    /// The line the lexeme stands on.
    pub line: u32,
    /// The offending lexeme.
    pub lexum: String,
}

impl InvalidNumberError {
    /// The display text of this cause.
    pub fn message(&self) -> (s: String)
        ensures
            s@ == invalid_number_message(self.line, self.lexum@),
    {
        let mut s = String::from_str("[line: ");
        let line = decimal_string(self.line);
        s.append(line.as_str());
        s.append("] Error at ");
        s.append(self.lexum.as_str());
        s.append(": Invalid Number");
        s
    }
}

/// A node holding one numeral literal, by its lexeme. Turning the lexeme
/// into a number is the numeric backend's business.
#[derive(Debug, Clone)]
pub struct LiteralNode(pub String);

impl View for LiteralNode {
    type V = Seq<char>;

    open spec fn view(&self) -> Seq<char> {
        self.0@
    }
}

impl LiteralNode {
    /// The lexeme of the numeral this node holds.
    pub fn lexum(&self) -> (s: &str)
        ensures
            s@ == self@,
    {
        self.0.as_str()
    }
}

/// The bundled literal plugin: claims decimal digits and lexes numerals
/// matching one run of digits, with at most one decimal point inside it.
pub struct LiteralParser;

/// The token family of the bundled literal plugin.
#[derive(Debug)]
pub enum LiteralToken {
    /// One numeral.
    Number {
        /// The line the numeral stands on.
        line: u32,
        /// The numeral's characters.
        lexum: String,
    },
}

impl TokenGroup for LiteralToken {
    type Node = LiteralNode;

    open spec fn spec_line(&self) -> u32 {
        match self {
            LiteralToken::Number { line, .. } => *line,
        }
    }

    open spec fn spec_lexum(&self) -> Seq<char> {
        match self {
            LiteralToken::Number { lexum, .. } => lexum@,
        }
    }

    open spec fn spec_adapter(&self) -> ParseAdapter {
        ParseAdapter::Literal
    }

    fn line(&self) -> (n: u32) {
        match self {
            LiteralToken::Number { line, .. } => *line,
        }
    }

    fn lexum(&self) -> (s: &str) {
        match self {
            LiteralToken::Number { lexum, .. } => lexum.as_str(),
        }
    }

    fn adapter(&self) -> (a: ParseAdapter) {
        ParseAdapter::Literal
    }
}

impl LitParser for LiteralToken {
    open spec fn spec_parse_lit(info: TokenView) -> Seq<char> {
        info.lexum
    }

    fn parse_lit(&self) -> (n: LiteralNode) {
        match self {
            LiteralToken::Number { lexum, .. } => LiteralNode(lexum.clone()),
        }
    }
}

impl<S: SubState> ExprParser<S> for LiteralToken {
    open spec fn spec_parse_expr(
        info: TokenView,
        lhs: Option<Seq<char>>,
        rest: Seq<Result<TokenView, LexerErrorView>>,
        st: StateView<S>,
    ) -> (Result<Seq<char>, Seq<char>>, int, StateView<S>) {
        (Err("Error: token is not an expression"@), 0, st)
    }

    fn parse_expr(
        &self,
        lhs: Option<LiteralNode>,
        tokens: &mut TokenStream<Self>,
        state: &mut State<S>,
    ) -> (r: Result<LiteralNode, ParseError>) {
        proof {
            assert(old(tokens).remaining().skip(0) =~= old(tokens).remaining());
        }
        Err(ParseError(String::from_str("Error: token is not an expression")))
    }
}

impl LexerPlugin for LiteralParser {
    type Token = LiteralToken;

    open spec fn spec_handles(&self, c: char) -> bool {
        is_digit(c)
    }

    open spec fn spec_lex(&self, source: Seq<char>, start: int, line: u32) -> (Result<
        TokenView,
        LexerErrorView,
    >, int) {
        spec_lex_numeral(source, start, line)
    }

    fn handles_char(&self, c: char) -> (b: bool) {
        c >= '0' && c <= '9'
    }

    fn lex_token(&self, source: &str, pos: (usize, char), line: u32, scanner: &mut usize) -> (r:
        Result<LiteralToken, LexerError>) {
        let (end, ok) = scan_number_end(source, pos.0);
        *scanner = end;
        let lexum = String::from_str(source.substring_char(pos.0, end));
        if ok {
            Ok(LiteralToken::Number { line, lexum })
        } else {
            let cause = InvalidNumberError { line, lexum };
            Err(LexerError::IncompleteToken(cause.message()))
        }
    }
}

} // verus!
