use vstd::prelude::*;

use crate::ast::ExprView;
use crate::errors::LexerError;
use crate::errors::LexerErrorView;
use crate::errors::ParseError;
use crate::lexer::LexerPlugin;
use crate::lexer::ParseAdapter;
use crate::lexer::TokenGroup;
use crate::lexer::TokenView;
use crate::parser::ExprParser;
use crate::parser::LitParser;
use crate::parser::TokenStream;
use crate::plugins::literals::LiteralNode;
use crate::state::State;
use crate::state::StateView;
use crate::state::SubState;

verus! {

/// The message an expression token fails with when no node is on the
/// operand stack to serve as its left-hand operand.
pub open spec fn missing_lhs_message() -> Seq<char> {
    "Error: expression operator needs a left-hand operand"@
}

/// The message an expression token fails with when the stream ends before
/// its right-hand operand.
pub open spec fn missing_rhs_message() -> Seq<char> {
    "Error: expected a token after the operator"@
}

/// The message an expression token fails with when the token after it is
/// not literal-capable.
pub open spec fn rhs_not_literal_message() -> Seq<char> {
    "Error: expected a number after the operator"@
}

/// The composite node an operator lexeme builds from its two operands, or
/// a message for a lexeme that is no operator.
pub open spec fn spec_op_node(op: Seq<char>, a: ExprView, b: ExprView) -> Result<
    ExprView,
    Seq<char>,
> {
    if op == seq!['+'] {
        Ok(ExprView::Add { a: Box::new(a), b: Box::new(b) })
    } else if op == seq!['-'] {
        Ok(ExprView::Sub { a: Box::new(a), b: Box::new(b) })
    } else if op == seq!['*'] {
        Ok(ExprView::Mul { a: Box::new(a), b: Box::new(b) })
    } else if op == seq!['/'] {
        Ok(ExprView::Div { a: Box::new(a), b: Box::new(b) })
    } else {
        Err("Error: token is not an operator"@)
    }
}

/// What parsing an operator token yields: it takes the operand handed to
/// it as its left-hand side and consumes exactly one further element, a
/// literal-capable token, as its right-hand side. The context is left
/// unchanged.
pub open spec fn spec_parse_op<S: SubState>(
    info: TokenView,
    lhs: Option<ExprView>,
    rest: Seq<Result<TokenView, LexerErrorView>>,
    st: StateView<S>,
) -> (Result<ExprView, Seq<char>>, int, StateView<S>) {
    if lhs is None {
        (Err(missing_lhs_message()), 0, st)
    } else if rest.len() == 0 {
        (Err(missing_rhs_message()), 0, st)
    } else {
        match rest.first() {
            Err(e) => (Err(e.spec_message()), 1, st),
            Ok(next) => if next.adapter == ParseAdapter::Literal {
                (spec_op_node(info.lexum, lhs.unwrap(), ExprView::Literal(next.lexum)), 1, st)
            } else {
                (Err(rhs_not_literal_message()), 1, st)
            },
        }
    }
}

/// The four-operator arithmetic plugin: claims the four operator
/// characters and lexes one-character operator tokens. It pairs with the
/// literal plugin, which supplies the numerals.
pub struct ArithmaticParser;

/// The token family of the four-operator arithmetic plugin.
#[derive(Debug)]
pub enum ArithmaticToken {
    /// The addition operator.
    Plus {
        /// The line the operator stands on.
        line: u32,
    },
    /// The subtraction operator.
    Minus {
        /// The line the operator stands on.
        line: u32,
    },
    /// The multiplication operator.
    Star {
        /// The line the operator stands on.
        line: u32,
    },
    /// The division operator.
    Slash {
        /// The line the operator stands on.
        line: u32,
    },
}

/// A node of the bundled arithmetic language built from split plugins: a
/// numeral leaf, or a composite owning its operand subtrees exclusively.
#[derive(Debug)]
pub enum ArithmaticExpr {
    /// A numeral literal.
    Literal(LiteralNode),
    /// An addition.
    Add { a: Box<ArithmaticExpr>, b: Box<ArithmaticExpr> },
    /// A subtraction.
    Sub { a: Box<ArithmaticExpr>, b: Box<ArithmaticExpr> },
    /// A multiplication.
    Mul { a: Box<ArithmaticExpr>, b: Box<ArithmaticExpr> },
    /// A division.
    Div { a: Box<ArithmaticExpr>, b: Box<ArithmaticExpr> },
}

/// The content of a split-plugin arithmetic node.
pub open spec fn split_expr_view(e: &ArithmaticExpr) -> ExprView
    decreases e,
{
    match e {
        ArithmaticExpr::Literal(node) => ExprView::Literal(node@),
        ArithmaticExpr::Add { a, b } => ExprView::Add {
            a: Box::new(split_expr_view(a)),
            b: Box::new(split_expr_view(b)),
        },
        ArithmaticExpr::Sub { a, b } => ExprView::Sub {
            a: Box::new(split_expr_view(a)),
            b: Box::new(split_expr_view(b)),
        },
        ArithmaticExpr::Mul { a, b } => ExprView::Mul {
            a: Box::new(split_expr_view(a)),
            b: Box::new(split_expr_view(b)),
        },
        ArithmaticExpr::Div { a, b } => ExprView::Div {
            a: Box::new(split_expr_view(a)),
            b: Box::new(split_expr_view(b)),
        },
    }
}

impl View for ArithmaticExpr {
    type V = ExprView;

    open spec fn view(&self) -> ExprView {
        split_expr_view(self)
    }
}

impl TokenGroup for ArithmaticToken {
    type Node = ArithmaticExpr;

    open spec fn spec_line(&self) -> u32 {
        match self {
            ArithmaticToken::Plus { line } => *line,
            ArithmaticToken::Minus { line } => *line,
            ArithmaticToken::Star { line } => *line,
            ArithmaticToken::Slash { line } => *line,
        }
    }

    open spec fn spec_lexum(&self) -> Seq<char> {
        match self {
            ArithmaticToken::Plus { .. } => seq!['+'],
            ArithmaticToken::Minus { .. } => seq!['-'],
            ArithmaticToken::Star { .. } => seq!['*'],
            ArithmaticToken::Slash { .. } => seq!['/'],
        }
    }

    open spec fn spec_adapter(&self) -> ParseAdapter {
        ParseAdapter::Expression
    }

    fn line(&self) -> (n: u32) {
        match self {
            ArithmaticToken::Plus { line } => *line,
            ArithmaticToken::Minus { line } => *line,
            ArithmaticToken::Star { line } => *line,
            ArithmaticToken::Slash { line } => *line,
        }
    }

    fn lexum(&self) -> (s: &str) {
        proof {
            reveal_strlit("+");
            reveal_strlit("-");
            reveal_strlit("*");
            reveal_strlit("/");
        }
        match self {
            ArithmaticToken::Plus { .. } => "+",
            ArithmaticToken::Minus { .. } => "-",
            ArithmaticToken::Star { .. } => "*",
            ArithmaticToken::Slash { .. } => "/",
        }
    }

    fn adapter(&self) -> (a: ParseAdapter) {
        ParseAdapter::Expression
    }
}

impl LitParser for ArithmaticToken {
    open spec fn spec_parse_lit(info: TokenView) -> ExprView {
        ExprView::Literal(info.lexum)
    }

    fn parse_lit(&self) -> (n: ArithmaticExpr) {
        unreached()
    }
}

impl<S: SubState> ExprParser<S> for ArithmaticToken {
    open spec fn spec_parse_expr(
        info: TokenView,
        lhs: Option<ExprView>,
        rest: Seq<Result<TokenView, LexerErrorView>>,
        st: StateView<S>,
    ) -> (Result<ExprView, Seq<char>>, int, StateView<S>) {
        spec_parse_op(info, lhs, rest, st)
    }

    fn parse_expr(
        &self,
        lhs: Option<ArithmaticExpr>,
        tokens: &mut TokenStream<Self>,
        state: &mut State<S>,
    ) -> (r: Result<ArithmaticExpr, ParseError>) {
        let a = match lhs {
            Some(a) => a,
            None => {
                proof {
                    assert(old(tokens).remaining().skip(0) =~= old(tokens).remaining());
                }
                return Err(
                    ParseError(
                        String::from_str("Error: expression operator needs a left-hand operand"),
                    ),
                );
            },
        };
        let item = match tokens.next() {
            Some(item) => item,
            None => {
                proof {
                    assert(old(tokens).remaining().skip(0) =~= old(tokens).remaining());
                }
                return Err(
                    ParseError(String::from_str("Error: expected a token after the operator")),
                );
            },
        };
        proof {
            assert(final(tokens).remaining() =~= old(tokens).remaining().skip(1));
        }
        let next = match item {
            Ok(next) => next,
            Err(e) => {
                return Err(ParseError(e.message()));
            },
        };
        match next.adapter() {
            ParseAdapter::Literal => unreached(),
            _ => Err(ParseError(String::from_str("Error: expected a number after the operator"))),
        }
    }
}

impl LexerPlugin for ArithmaticParser {
    type Token = ArithmaticToken;

    open spec fn spec_handles(&self, c: char) -> bool {
        c == '+' || c == '-' || c == '*' || c == '/'
    }

    open spec fn spec_lex(&self, source: Seq<char>, start: int, line: u32) -> (Result<
        TokenView,
        LexerErrorView,
    >, int) {
        (
            Ok(TokenView { line, lexum: seq![source[start]], adapter: ParseAdapter::Expression }),
            start + 1,
        )
    }

    fn handles_char(&self, c: char) -> (b: bool) {
        c == '+' || c == '-' || c == '*' || c == '/'
    }

    fn lex_token(&self, source: &str, pos: (usize, char), line: u32, scanner: &mut usize) -> (r:
        Result<ArithmaticToken, LexerError>) {
        if pos.1 == '+' {
            Ok(ArithmaticToken::Plus { line })
        } else if pos.1 == '-' {
            Ok(ArithmaticToken::Minus { line })
        } else if pos.1 == '*' {
            Ok(ArithmaticToken::Star { line })
        } else if pos.1 == '/' {
            Ok(ArithmaticToken::Slash { line })
        } else {
            unreached()
        }
    }
}

} // verus!
