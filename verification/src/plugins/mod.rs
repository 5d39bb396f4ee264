pub mod arithmatic;
pub mod literals;

use vstd::prelude::*;

use crate::ast::ExprView;
use crate::errors::LexerError;
use crate::errors::LexerErrorView;
use crate::errors::ParseError;
use crate::lexer::LexerPlugin;
use crate::lexer::ParseAdapter;
use crate::lexer::TokenGroup;
use crate::lexer::TokenView;
use crate::parser::ExprParser;
use crate::parser::LitParser;
use crate::parser::TokenStream;
use crate::state::State;
use crate::state::StateView;
use crate::state::SubState;
use arithmatic::spec_parse_op;

pub use arithmatic::ArithmaticParser as ArithmaticPlugin;
pub use literals::LiteralParser as LiteralPlugin;

verus! {

/// One registry entry combining the bundled plugins: a registered list
/// holds plugins of one type, so the literal-number plugin and the
/// four-operator plugin are registered side by side through this sum.
pub enum CorePlugin {
    /// The literal-number plugin.
    Literal(literals::LiteralParser),
    /// The four-operator arithmetic plugin.
    Arithmatic(arithmatic::ArithmaticParser),
}

/// A token of either bundled plugin.
#[derive(Debug)]
pub enum CoreToken {
    /// A numeral token.
    Literal(literals::LiteralToken),
    /// An operator token.
    Arithmatic(arithmatic::ArithmaticToken),
}

impl TokenGroup for CoreToken {
    type Node = arithmatic::ArithmaticExpr;

    open spec fn spec_line(&self) -> u32 {
        match self {
            CoreToken::Literal(t) => t.spec_line(),
            CoreToken::Arithmatic(t) => t.spec_line(),
        }
    }

    open spec fn spec_lexum(&self) -> Seq<char> {
        match self {
            CoreToken::Literal(t) => t.spec_lexum(),
            CoreToken::Arithmatic(t) => t.spec_lexum(),
        }
    }

    open spec fn spec_adapter(&self) -> ParseAdapter {
        match self {
            CoreToken::Literal(t) => t.spec_adapter(),
            CoreToken::Arithmatic(t) => t.spec_adapter(),
        }
    }

    fn line(&self) -> (n: u32) {
        match self {
            CoreToken::Literal(t) => t.line(),
            CoreToken::Arithmatic(t) => t.line(),
        }
    }

    fn lexum(&self) -> (s: &str) {
        match self {
            CoreToken::Literal(t) => t.lexum(),
            CoreToken::Arithmatic(t) => t.lexum(),
        }
    }

    fn adapter(&self) -> (a: ParseAdapter) {
        match self {
            CoreToken::Literal(t) => t.adapter(),
            CoreToken::Arithmatic(t) => t.adapter(),
        }
    }
}

impl LitParser for CoreToken {
    open spec fn spec_parse_lit(info: TokenView) -> ExprView {
        ExprView::Literal(info.lexum)
    }

    fn parse_lit(&self) -> (n: arithmatic::ArithmaticExpr) {
        match self {
            CoreToken::Literal(t) => arithmatic::ArithmaticExpr::Literal(t.parse_lit()),
            CoreToken::Arithmatic(_) => unreached(),
        }
    }
}

impl<S: SubState> ExprParser<S> for CoreToken {
    open spec fn spec_parse_expr(
        info: TokenView,
        lhs: Option<ExprView>,
        rest: Seq<Result<TokenView, LexerErrorView>>,
        st: StateView<S>,
    ) -> (Result<ExprView, Seq<char>>, int, StateView<S>) {
        spec_parse_op(info, lhs, rest, st)
    }

    fn parse_expr(
        &self,
        lhs: Option<arithmatic::ArithmaticExpr>,
        tokens: &mut TokenStream<Self>,
        state: &mut State<S>,
    ) -> (r: Result<arithmatic::ArithmaticExpr, ParseError>) {
        let a = match lhs {
            Some(a) => a,
            None => {
                proof {
                    assert(old(tokens).remaining().skip(0) =~= old(tokens).remaining());
                }
                return Err(
                    ParseError(
                        String::from_str("Error: expression operator needs a left-hand operand"),
                    ),
                );
            },
        };
        let item = match tokens.next() {
            Some(item) => item,
            None => {
                proof {
                    assert(old(tokens).remaining().skip(0) =~= old(tokens).remaining());
                }
                return Err(
                    ParseError(String::from_str("Error: expected a token after the operator")),
                );
            },
        };
        proof {
            assert(final(tokens).remaining() =~= old(tokens).remaining().skip(1));
        }
        let next = match item {
            Ok(next) => next,
            Err(e) => {
                return Err(ParseError(e.message()));
            },
        };
        let b = match next.adapter() {
            ParseAdapter::Literal => next.parse_lit(),
            _ => {
                return Err(
                    ParseError(String::from_str("Error: expected a number after the operator")),
                );
            },
        };
        proof {
            assert(seq!['+'][0] == '+');
            assert(seq!['-'][0] == '-');
            assert(seq!['*'][0] == '*');
            assert(seq!['/'][0] == '/');
        }
        let node = match self {
            CoreToken::Arithmatic(op) => match op {
                arithmatic::ArithmaticToken::Plus { .. } => arithmatic::ArithmaticExpr::Add {
                    a: Box::new(a),
                    b: Box::new(b),
                },
                arithmatic::ArithmaticToken::Minus { .. } => arithmatic::ArithmaticExpr::Sub {
                    a: Box::new(a),
                    b: Box::new(b),
                },
                arithmatic::ArithmaticToken::Star { .. } => arithmatic::ArithmaticExpr::Mul {
                    a: Box::new(a),
                    b: Box::new(b),
                },
                arithmatic::ArithmaticToken::Slash { .. } => arithmatic::ArithmaticExpr::Div {
                    a: Box::new(a),
                    b: Box::new(b),
                },
            },
            CoreToken::Literal(_) => unreached(),
        };
        Ok(node)
    }
}

impl LexerPlugin for CorePlugin {
    type Token = CoreToken;

    open spec fn spec_handles(&self, c: char) -> bool {
        match self {
            CorePlugin::Literal(p) => p.spec_handles(c),
            CorePlugin::Arithmatic(p) => p.spec_handles(c),
        }
    }

    open spec fn spec_lex(&self, source: Seq<char>, start: int, line: u32) -> (Result<
        TokenView,
        LexerErrorView,
    >, int) {
        match self {
            CorePlugin::Literal(p) => p.spec_lex(source, start, line),
            CorePlugin::Arithmatic(p) => p.spec_lex(source, start, line),
        }
    }

    fn handles_char(&self, c: char) -> (b: bool) {
        match self {
            CorePlugin::Literal(p) => p.handles_char(c),
            CorePlugin::Arithmatic(p) => p.handles_char(c),
        }
    }

    fn lex_token(&self, source: &str, pos: (usize, char), line: u32, scanner: &mut usize) -> (r:
        Result<CoreToken, LexerError>) {
        match self {
            CorePlugin::Literal(p) => match p.lex_token(source, pos, line, scanner) {
                Ok(t) => Ok(CoreToken::Literal(t)),
                Err(e) => Err(e),
            },
            CorePlugin::Arithmatic(p) => match p.lex_token(source, pos, line, scanner) {
                Ok(t) => Ok(CoreToken::Arithmatic(t)),
                Err(e) => Err(e),
            },
        }
    }
}

} // verus!
