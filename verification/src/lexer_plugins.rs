use vstd::prelude::*;
use vstd::string::StringExecFns;

use crate::ast::ExprView;
use crate::errors::LexerError;
use crate::errors::LexerErrorView;
use crate::errors::ParseError;
use crate::lexer::clamp_advance;
use crate::lexer::spec_first_handler;
use crate::lexer::spec_lex_at;
use crate::lexer::spec_tokens;
use crate::lexer::LexerPlugin;
use crate::lexer::ParseAdapter;
use crate::lexer::TokenGroup;
use crate::lexer::TokenView;
use crate::parser::spec_parse;
use crate::parser::ExprParser;
use crate::parser::LitParser;
use crate::parser::TokenStream;
use crate::plugins::arithmatic::spec_op_node;
use crate::plugins::arithmatic::spec_parse_op;
use crate::plugins::literals::all_digits;
use crate::plugins::literals::is_digit;
use crate::plugins::literals::is_numeral;
use crate::plugins::literals::lemma_lex_numeral_exact;
use crate::plugins::literals::numeral_with_dot_at;
use crate::plugins::literals::scan_number_end;
use crate::plugins::literals::spec_lex_numeral;
use crate::state::State;
use crate::state::StateView;
use crate::state::SubState;

pub use crate::plugins::literals::InvalidNumberError;

verus! {

/// A single self-contained plugin covering the whole bundled expression
/// language: it claims decimal digits and the four operator characters,
/// lexing numerals and one-character operator tokens.
pub struct ArithmaticParser;

/// The token family of the self-contained arithmetic plugin: numerals are
/// literal-capable, the four operators expression-capable.
#[derive(Debug)]
pub enum ArithmaticToken {
    /// One numeral.
    Number {
        /// The line the numeral stands on.
        line: u32,
        /// The numeral's characters.
        lexum: String,
    },
    /// The addition operator.
    Plus {
        /// The line the operator stands on.
        line: u32,
    },
    /// The subtraction operator.
    Minus {
        /// The line the operator stands on.
        line: u32,
    },
    /// The multiplication operator.
    Star {
        /// The line the operator stands on.
        line: u32,
    },
    /// The division operator.
    Slash {
        /// The line the operator stands on.
        line: u32,
    },
}

/// A node of the bundled arithmetic language: a numeral leaf holding its
/// lexeme, or a composite owning its operand subtrees exclusively.
#[derive(Debug)]
pub enum ArithmaticExpr {
    /// A numeral literal, by its lexeme.
    Literal(String),
    /// An addition.
    Add { a: Box<ArithmaticExpr>, b: Box<ArithmaticExpr> },
    /// A subtraction.
    Sub { a: Box<ArithmaticExpr>, b: Box<ArithmaticExpr> },
    /// A multiplication.
    Mul { a: Box<ArithmaticExpr>, b: Box<ArithmaticExpr> },
    /// A division.
    Div { a: Box<ArithmaticExpr>, b: Box<ArithmaticExpr> },
}

/// The content of a bundled arithmetic node.
pub open spec fn expr_view(e: &ArithmaticExpr) -> ExprView
    decreases e,
{
    match e {
        ArithmaticExpr::Literal(lexum) => ExprView::Literal(lexum@),
        ArithmaticExpr::Add { a, b } => ExprView::Add {
            a: Box::new(expr_view(a)),
            b: Box::new(expr_view(b)),
        },
        ArithmaticExpr::Sub { a, b } => ExprView::Sub {
            a: Box::new(expr_view(a)),
            b: Box::new(expr_view(b)),
        },
        ArithmaticExpr::Mul { a, b } => ExprView::Mul {
            a: Box::new(expr_view(a)),
            b: Box::new(expr_view(b)),
        },
        ArithmaticExpr::Div { a, b } => ExprView::Div {
            a: Box::new(expr_view(a)),
            b: Box::new(expr_view(b)),
        },
    }
}

impl View for ArithmaticExpr {
    type V = ExprView;

    open spec fn view(&self) -> ExprView {
        expr_view(self)
    }
}

impl TokenGroup for ArithmaticToken {
    type Node = ArithmaticExpr;

    open spec fn spec_line(&self) -> u32 {
        match self {
            ArithmaticToken::Number { line, .. } => *line,
            ArithmaticToken::Plus { line } => *line,
            ArithmaticToken::Minus { line } => *line,
            ArithmaticToken::Star { line } => *line,
            ArithmaticToken::Slash { line } => *line,
        }
    }

    open spec fn spec_lexum(&self) -> Seq<char> {
        match self {
            ArithmaticToken::Number { lexum, .. } => lexum@,
            ArithmaticToken::Plus { .. } => seq!['+'],
            ArithmaticToken::Minus { .. } => seq!['-'],
            ArithmaticToken::Star { .. } => seq!['*'],
            ArithmaticToken::Slash { .. } => seq!['/'],
        }
    }

    open spec fn spec_adapter(&self) -> ParseAdapter {
        match self {
            ArithmaticToken::Number { .. } => ParseAdapter::Literal,
            _ => ParseAdapter::Expression,
        }
    }

    fn line(&self) -> (n: u32) {
        match self {
            ArithmaticToken::Number { line, .. } => *line,
            ArithmaticToken::Plus { line } => *line,
            ArithmaticToken::Minus { line } => *line,
            ArithmaticToken::Star { line } => *line,
            ArithmaticToken::Slash { line } => *line,
        }
    }

    fn lexum(&self) -> (s: &str) {
        proof {
            reveal_strlit("+");
            reveal_strlit("-");
            reveal_strlit("*");
            reveal_strlit("/");
        }
        match self {
            ArithmaticToken::Number { lexum, .. } => lexum.as_str(),
            ArithmaticToken::Plus { .. } => "+",
            ArithmaticToken::Minus { .. } => "-",
            ArithmaticToken::Star { .. } => "*",
            ArithmaticToken::Slash { .. } => "/",
        }
    }

    fn adapter(&self) -> (a: ParseAdapter) {
        match self {
            ArithmaticToken::Number { .. } => ParseAdapter::Literal,
            _ => ParseAdapter::Expression,
        }
    }
}

impl LitParser for ArithmaticToken {
    open spec fn spec_parse_lit(info: TokenView) -> ExprView {
        ExprView::Literal(info.lexum)
    }

    fn parse_lit(&self) -> (n: ArithmaticExpr) {
        match self {
            ArithmaticToken::Number { lexum, .. } => ArithmaticExpr::Literal(lexum.clone()),
            _ => unreached(),
        }
    }
}

impl<S: SubState> ExprParser<S> for ArithmaticToken {
    open spec fn spec_parse_expr(
        info: TokenView,
        lhs: Option<ExprView>,
        rest: Seq<Result<TokenView, LexerErrorView>>,
        st: StateView<S>,
    ) -> (Result<ExprView, Seq<char>>, int, StateView<S>) {
        spec_parse_op(info, lhs, rest, st)
    }

    fn parse_expr(
        &self,
        lhs: Option<ArithmaticExpr>,
        tokens: &mut TokenStream<Self>,
        state: &mut State<S>,
    ) -> (r: Result<ArithmaticExpr, ParseError>) {
        let a = match lhs {
            Some(a) => a,
            None => {
                proof {
                    assert(old(tokens).remaining().skip(0) =~= old(tokens).remaining());
                }
                return Err(
                    ParseError(
                        String::from_str("Error: expression operator needs a left-hand operand"),
                    ),
                );
            },
        };
        let item = match tokens.next() {
            Some(item) => item,
            None => {
                proof {
                    assert(old(tokens).remaining().skip(0) =~= old(tokens).remaining());
                }
                return Err(
                    ParseError(String::from_str("Error: expected a token after the operator")),
                );
            },
        };
        proof {
            assert(final(tokens).remaining() =~= old(tokens).remaining().skip(1));
        }
        let next = match item {
            Ok(next) => next,
            Err(e) => {
                return Err(ParseError(e.message()));
            },
        };
        let b = match next.adapter() {
            ParseAdapter::Literal => next.parse_lit(),
            _ => {
                return Err(
                    ParseError(String::from_str("Error: expected a number after the operator")),
                );
            },
        };
        proof {
            assert(seq!['+'][0] == '+');
            assert(seq!['-'][0] == '-');
            assert(seq!['*'][0] == '*');
            assert(seq!['/'][0] == '/');
        }
        let node = match self {
            ArithmaticToken::Plus { .. } => ArithmaticExpr::Add {
                a: Box::new(a),
                b: Box::new(b),
            },
            ArithmaticToken::Minus { .. } => ArithmaticExpr::Sub {
                a: Box::new(a),
                b: Box::new(b),
            },
            ArithmaticToken::Star { .. } => ArithmaticExpr::Mul {
                a: Box::new(a),
                b: Box::new(b),
            },
            ArithmaticToken::Slash { .. } => ArithmaticExpr::Div {
                a: Box::new(a),
                b: Box::new(b),
            },
            ArithmaticToken::Number { .. } => unreached(),
        };
        Ok(node)
    }
}

impl LexerPlugin for ArithmaticParser {
    type Token = ArithmaticToken;

    open spec fn spec_handles(&self, c: char) -> bool {
        is_digit(c) || c == '+' || c == '-' || c == '*' || c == '/'
    }

    open spec fn spec_lex(&self, source: Seq<char>, start: int, line: u32) -> (Result<
        TokenView,
        LexerErrorView,
    >, int) {
        let c = source[start];
        if is_digit(c) {
            spec_lex_numeral(source, start, line)
        } else {
            (
                Ok(TokenView { line, lexum: seq![c], adapter: ParseAdapter::Expression }),
                start + 1,
            )
        }
    }

    fn handles_char(&self, c: char) -> (b: bool) {
        (c >= '0' && c <= '9') || c == '+' || c == '-' || c == '*' || c == '/'
    }

    fn lex_token(&self, source: &str, pos: (usize, char), line: u32, scanner: &mut usize) -> (r:
        Result<ArithmaticToken, LexerError>) {
        let (start, c) = pos;
        if c >= '0' && c <= '9' {
            let (end, ok) = scan_number_end(source, start);
            *scanner = end;
            let lexum = String::from_str(source.substring_char(start, end));
            if ok {
                Ok(ArithmaticToken::Number { line, lexum })
            } else {
                let cause = InvalidNumberError { line, lexum };
                Err(LexerError::IncompleteToken(cause.message()))
            }
        } else if c == '+' {
            Ok(ArithmaticToken::Plus { line })
        } else if c == '-' {
            Ok(ArithmaticToken::Minus { line })
        } else if c == '*' {
            Ok(ArithmaticToken::Star { line })
        } else if c == '/' {
            Ok(ArithmaticToken::Slash { line })
        } else {
            unreached()
        }
    }
}

proof fn lemma_single_plugin_dispatch(c: char)
    requires
        is_digit(c) || c == '+' || c == '-' || c == '*' || c == '/',
    ensures
        spec_first_handler(seq![ArithmaticParser], c) == Some(ArithmaticParser),
{
    assert(seq![ArithmaticParser].first() == ArithmaticParser);
}

proof fn lemma_tokens_step_numeral(src: Seq<char>, pos: int, end: int, line: u32)
    requires
        0 <= pos < end <= src.len(),
        is_numeral(src.subrange(pos, end)),
        end == src.len() || (!is_digit(src[end]) && src[end] != '.'),
    ensures
        spec_tokens(src, seq![ArithmaticParser], pos, line) == seq![
            Ok::<TokenView, LexerErrorView>(
                TokenView { line, lexum: src.subrange(pos, end), adapter: ParseAdapter::Literal },
            ),
        ] + spec_tokens(src, seq![ArithmaticParser], end, line),
{
    let num = src.subrange(pos, end);
    assert(num[0] == src[pos]);
    if num.len() > 0 && all_digits(num) {
        assert(is_digit(num[0]));
    } else {
        let k = choose|k: int| numeral_with_dot_at(num, k);
        assert(num.subrange(0, k)[0] == num[0]);
        assert(is_digit(num.subrange(0, k)[0]));
    }
    lemma_single_plugin_dispatch(src[pos]);
    lemma_lex_numeral_exact(src, pos, end, line);
    assert(spec_lex_at(src, seq![ArithmaticParser], pos, line) == (
        Ok::<TokenView, LexerErrorView>(
            TokenView { line, lexum: num, adapter: ParseAdapter::Literal },
        ),
        clamp_advance(src.len() as int, pos, end),
    ));
    assert(clamp_advance(src.len() as int, pos, end) == end);
}

proof fn lemma_tokens_step_op(src: Seq<char>, pos: int, line: u32)
    requires
        0 <= pos < src.len(),
        src[pos] == '+' || src[pos] == '-' || src[pos] == '*' || src[pos] == '/',
    ensures
        spec_tokens(src, seq![ArithmaticParser], pos, line) == seq![
            Ok::<TokenView, LexerErrorView>(
                TokenView { line, lexum: seq![src[pos]], adapter: ParseAdapter::Expression },
            ),
        ] + spec_tokens(src, seq![ArithmaticParser], pos + 1, line),
{
    lemma_single_plugin_dispatch(src[pos]);
    assert(clamp_advance(src.len() as int, pos, pos + 1) == pos + 1);
}

/// Law: a single numeral lexes to exactly one literal token carrying its
/// own characters, and parsing that token alone yields exactly one literal
/// leaf holding them.
pub proof fn lemma_single_numeral<S: SubState>(d: Seq<char>, st: StateView<S>)
    requires
        is_numeral(d),
    ensures
        spec_tokens(d, seq![ArithmaticParser], 0, 0) == seq![
            Ok::<TokenView, LexerErrorView>(
                TokenView { line: 0, lexum: d, adapter: ParseAdapter::Literal },
            ),
        ],
        spec_parse::<S, ArithmaticToken>(
            spec_tokens(d, seq![ArithmaticParser], 0, 0),
            Seq::empty(),
            st,
        ) == Ok::<_, Seq<char>>((seq![ExprView::Literal(d)], st)),
{
    assert(d.subrange(0, d.len() as int) =~= d);
    assert(d.len() > 0) by {
        if !(d.len() > 0 && all_digits(d)) {
            let k = choose|k: int| numeral_with_dot_at(d, k);
        }
    }
    lemma_tokens_step_numeral(d, 0, d.len() as int, 0);
    let items = spec_tokens(d, seq![ArithmaticParser], 0, 0);
    assert(spec_tokens(d, seq![ArithmaticParser], d.len() as int, 0) =~= Seq::empty());
    let info = TokenView { line: 0, lexum: d, adapter: ParseAdapter::Literal };
    assert(items =~= seq![Ok::<TokenView, LexerErrorView>(info)]);
    assert(items.drop_first() =~= Seq::<Result<TokenView, LexerErrorView>>::empty());
    assert(Seq::<ExprView>::empty().push(ExprView::Literal(d)) =~= seq![ExprView::Literal(d)]);
    assert(spec_parse::<S, ArithmaticToken>(items.drop_first(), seq![ExprView::Literal(d)], st)
        == Ok::<_, Seq<char>>((seq![ExprView::Literal(d)], st)));
}

/// Law: a well-formed binary operation `a OP b`, with numerals on both
/// sides and one of the four operator characters between them, lexes to
/// exactly three tokens and parses to exactly one composite node: the
/// operator's node over the two literal leaves, built by
/// [`spec_op_node`]. Which number that node denotes is the numeric
/// backend's business.
pub proof fn lemma_binary_operation<S: SubState>(
    a: Seq<char>,
    op: char,
    b: Seq<char>,
    st: StateView<S>,
)
    requires
        is_numeral(a),
        is_numeral(b),
        op == '+' || op == '-' || op == '*' || op == '/',
    ensures
        spec_op_node(seq![op], ExprView::Literal(a), ExprView::Literal(b)) is Ok,
        spec_parse::<S, ArithmaticToken>(
            spec_tokens(a + seq![op] + b, seq![ArithmaticParser], 0, 0),
            Seq::empty(),
            st,
        ) == Ok::<_, Seq<char>>(
            (
                seq![spec_op_node(seq![op], ExprView::Literal(a), ExprView::Literal(b))->Ok_0],
                st,
            ),
        ),
{
    let src = a + seq![op] + b;
    let la = a.len() as int;
    let lb = b.len() as int;
    let n = src.len() as int;
    assert(n == la + 1 + lb);
    assert(src.subrange(0, la) =~= a);
    assert(src[la] == op);
    assert(src.subrange(la + 1, n) =~= b);
    assert(a.len() > 0 && b.len() > 0) by {
        if !(a.len() > 0 && all_digits(a)) {
            let k = choose|k: int| numeral_with_dot_at(a, k);
        }
        if !(b.len() > 0 && all_digits(b)) {
            let k = choose|k: int| numeral_with_dot_at(b, k);
        }
    }
    lemma_tokens_step_numeral(src, 0, la, 0);
    lemma_tokens_step_op(src, la, 0);
    lemma_tokens_step_numeral(src, la + 1, n, 0);
    assert(spec_tokens(src, seq![ArithmaticParser], n, 0) =~= Seq::empty());
    let info_a = TokenView { line: 0, lexum: a, adapter: ParseAdapter::Literal };
    let info_op = TokenView { line: 0, lexum: seq![op], adapter: ParseAdapter::Expression };
    let info_b = TokenView { line: 0, lexum: b, adapter: ParseAdapter::Literal };
    let items = spec_tokens(src, seq![ArithmaticParser], 0, 0);
    assert(items =~= seq![
        Ok::<TokenView, LexerErrorView>(info_a),
        Ok::<TokenView, LexerErrorView>(info_op),
        Ok::<TokenView, LexerErrorView>(info_b),
    ]);
    let lit_a = ExprView::Literal(a);
    let lit_b = ExprView::Literal(b);
    assert(seq![op][0] == op);
    assert(seq!['+'][0] == '+');
    assert(seq!['-'][0] == '-');
    assert(seq!['*'][0] == '*');
    assert(seq!['/'][0] == '/');
    let node = spec_op_node(seq![op], lit_a, lit_b)->Ok_0;
    let items1 = items.drop_first();
    assert(items1 =~= seq![
        Ok::<TokenView, LexerErrorView>(info_op),
        Ok::<TokenView, LexerErrorView>(info_b),
    ]);
    assert(spec_parse::<S, ArithmaticToken>(items, Seq::empty(), st) == spec_parse::<
        S,
        ArithmaticToken,
    >(items1, Seq::empty().push(lit_a), st));
    let rest1 = items1.drop_first();
    assert(rest1 =~= seq![Ok::<TokenView, LexerErrorView>(info_b)]);
    assert(spec_parse_op::<S>(info_op, Some(lit_a), rest1, st) == (
        Ok::<ExprView, Seq<char>>(node),
        1int,
        st,
    ));
    let items2 = rest1.skip(1);
    assert(items2 =~= Seq::<Result<TokenView, LexerErrorView>>::empty());
    assert(Seq::empty().push(lit_a).drop_last().push(node) =~= seq![node]);
    assert(spec_parse::<S, ArithmaticToken>(items1, Seq::empty().push(lit_a), st) == spec_parse::<
        S,
        ArithmaticToken,
    >(items2, seq![node], st));
    assert(spec_parse::<S, ArithmaticToken>(items2, seq![node], st) == Ok::<_, Seq<char>>(
        (seq![node], st),
    ));
}

/// Law: parsing is strictly left to right with no precedence. For all
/// numeral triples, the source `a + b * c` parses as `(a + b) * c`: each
/// operator immediately binds the node on top of the operand stack, so
/// multiplication does not bind tighter than addition.
pub proof fn lemma_left_to_right<S: SubState>(a: Seq<char>, b: Seq<char>, c: Seq<char>, st: StateView<S>)
    requires
        is_numeral(a),
        is_numeral(b),
        is_numeral(c),
    ensures
        spec_parse::<S, ArithmaticToken>(
            spec_tokens(a + seq!['+'] + b + seq!['*'] + c, seq![ArithmaticParser], 0, 0),
            Seq::empty(),
            st,
        ) == Ok::<_, Seq<char>>(
            (
                seq![
                    ExprView::Mul {
                        a: Box::new(
                            ExprView::Add {
                                a: Box::new(ExprView::Literal(a)),
                                b: Box::new(ExprView::Literal(b)),
                            },
                        ),
                        b: Box::new(ExprView::Literal(c)),
                    },
                ],
                st,
            ),
        ),
{
    let src = a + seq!['+'] + b + seq!['*'] + c;
    let la = a.len() as int;
    let lb = b.len() as int;
    let lc = c.len() as int;
    let n = src.len() as int;
    assert(n == la + 1 + lb + 1 + lc);
    assert(src.subrange(0, la) =~= a);
    assert(src[la] == '+');
    assert(src.subrange(la + 1, la + 1 + lb) =~= b);
    assert(src[la + 1 + lb] == '*');
    assert(src.subrange(la + 2 + lb, n) =~= c);
    assert(a.len() > 0 && b.len() > 0 && c.len() > 0) by {
        if !(a.len() > 0 && all_digits(a)) {
            let k = choose|k: int| numeral_with_dot_at(a, k);
        }
        if !(b.len() > 0 && all_digits(b)) {
            let k = choose|k: int| numeral_with_dot_at(b, k);
        }
        if !(c.len() > 0 && all_digits(c)) {
            let k = choose|k: int| numeral_with_dot_at(c, k);
        }
    }
    lemma_tokens_step_numeral(src, 0, la, 0);
    lemma_tokens_step_op(src, la, 0);
    lemma_tokens_step_numeral(src, la + 1, la + 1 + lb, 0);
    lemma_tokens_step_op(src, la + 1 + lb, 0);
    lemma_tokens_step_numeral(src, la + 2 + lb, n, 0);
    assert(spec_tokens(src, seq![ArithmaticParser], n, 0) =~= Seq::empty());
    let info_a = TokenView { line: 0, lexum: a, adapter: ParseAdapter::Literal };
    let info_plus = TokenView { line: 0, lexum: seq!['+'], adapter: ParseAdapter::Expression };
    let info_b = TokenView { line: 0, lexum: b, adapter: ParseAdapter::Literal };
    let info_star = TokenView { line: 0, lexum: seq!['*'], adapter: ParseAdapter::Expression };
    let info_c = TokenView { line: 0, lexum: c, adapter: ParseAdapter::Literal };
    let num_a = Ok::<TokenView, LexerErrorView>(info_a);
    let op_plus = Ok::<TokenView, LexerErrorView>(info_plus);
    let num_b = Ok::<TokenView, LexerErrorView>(info_b);
    let op_star = Ok::<TokenView, LexerErrorView>(info_star);
    let num_c = Ok::<TokenView, LexerErrorView>(info_c);
    let items = spec_tokens(src, seq![ArithmaticParser], 0, 0);
    assert(items =~= seq![num_a, op_plus, num_b, op_star, num_c]);
    let lit_a = ExprView::Literal(a);
    let lit_b = ExprView::Literal(b);
    let lit_c = ExprView::Literal(c);
    let sum = ExprView::Add { a: Box::new(lit_a), b: Box::new(lit_b) };
    let product = ExprView::Mul { a: Box::new(sum), b: Box::new(lit_c) };
    // literal a is pushed
    let items1 = items.drop_first();
    assert(items1 =~= seq![op_plus, num_b, op_star, num_c]);
    assert(spec_parse::<S, ArithmaticToken>(items, Seq::empty(), st) == spec_parse::<
        S,
        ArithmaticToken,
    >(items1, Seq::empty().push(lit_a), st));
    // the plus token binds a and consumes b
    let nodes1 = Seq::empty().push(lit_a);
    let rest1 = items1.drop_first();
    assert(rest1 =~= seq![num_b, op_star, num_c]);
    assert(seq!['+'][0] == '+');
    assert(seq!['*'][0] == '*');
    assert(spec_parse_op::<S>(info_plus, Some(lit_a), rest1, st) == (
        Ok::<ExprView, Seq<char>>(sum),
        1int,
        st,
    ));
    let items2 = rest1.skip(1);
    assert(items2 =~= seq![op_star, num_c]);
    assert(nodes1.drop_last().push(sum) =~= seq![sum]);
    assert(spec_parse::<S, ArithmaticToken>(items1, nodes1, st) == spec_parse::<
        S,
        ArithmaticToken,
    >(items2, seq![sum], st));
    // the star token binds the sum and consumes c
    let rest2 = items2.drop_first();
    assert(rest2 =~= seq![num_c]);
    assert(spec_parse_op::<S>(info_star, Some(sum), rest2, st) == (
        Ok::<ExprView, Seq<char>>(product),
        1int,
        st,
    ));
    let items3 = rest2.skip(1);
    assert(items3 =~= Seq::<Result<TokenView, LexerErrorView>>::empty());
    assert(seq![sum].drop_last().push(product) =~= seq![product]);
    assert(spec_parse::<S, ArithmaticToken>(items2, seq![sum], st) == spec_parse::<
        S,
        ArithmaticToken,
    >(items3, seq![product], st));
    assert(spec_parse::<S, ArithmaticToken>(items3, seq![product], st) == Ok::<_, Seq<char>>(
        (seq![product], st),
    ));
}

} // verus!

