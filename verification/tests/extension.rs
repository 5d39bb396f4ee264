use modulus::ast::ExprNode;
use modulus::ast::TreeNode;
use modulus::errors::LexerError;
use modulus::errors::ParseError;
use modulus::lexer::LexerPlugin;
use modulus::lexer::ParseAdapter;
use modulus::lexer::TokenGroup;
use modulus::parser::ExprParser;
use modulus::parser::LitParser;
use modulus::parser::TokenStream;
use modulus::runtime::Runtime;
use modulus::state::sub_state::SubState;
use modulus::state::State;
use modulus::value::Value;

struct NoSub;

impl SubState for NoSub {
    fn state_name(&self) -> &'static str {
        "none"
    }
}

// A third-party extension: a plugin claiming 't' and 'f', lexing one-letter
// boolean literals whose nodes evaluate to boolean values.
struct BoolPlugin;

#[derive(Debug)]
struct BoolToken {
    line: u32,
    truth: bool,
}

#[derive(Debug)]
struct BoolNode {
    truth: bool,
}

impl vstd::prelude::View for BoolNode {
    type V = bool;

    fn view(&self) -> bool {
        self.truth
    }
}

impl TokenGroup for BoolToken {
    type Node = BoolNode;

    fn line(&self) -> u32 {
        self.line
    }

    fn lexum(&self) -> &str {
        if self.truth {
            "t"
        } else {
            "f"
        }
    }

    fn adapter(&self) -> ParseAdapter {
        ParseAdapter::Literal
    }
}

impl LitParser for BoolToken {
    fn parse_lit(&self) -> BoolNode {
        BoolNode { truth: self.truth }
    }
}

impl ExprParser<NoSub> for BoolToken {
    fn parse_expr(
        &self,
        _lhs: Option<BoolNode>,
        _tokens: &mut TokenStream<Self>,
        _state: &mut State<NoSub>,
    ) -> Result<BoolNode, ParseError> {
        Err(ParseError("Error: token is not an expression".to_string()))
    }
}

impl ExprNode<NoSub> for BoolNode {
    fn eval_expr(&self, _state: &mut State<NoSub>) -> Result<Value, modulus::EvalError> {
        Ok(Value::Bool(self.truth))
    }
}

impl LexerPlugin for BoolPlugin {
    type Token = BoolToken;

    fn handles_char(&self, c: char) -> bool {
        c == 't' || c == 'f'
    }

    fn lex_token(
        &self,
        _source: &str,
        pos: (usize, char),
        line: u32,
        _scanner: &mut usize,
    ) -> Result<BoolToken, LexerError> {
        Ok(BoolToken { line, truth: pos.1 == 't' })
    }
}

#[test]
fn extension_plugin_runs_the_whole_pipeline() {
    let mut runtime: Runtime<NoSub, BoolPlugin> = Runtime::<NoSub, BoolPlugin>::builder()
        .extention(BoolPlugin)
        .build();
    runtime.set_source("t f t");
    runtime.parse_source().unwrap();
    assert_eq!(runtime.nodes.len(), 3);
    runtime.eval_nodes().unwrap();
    assert_eq!(runtime.nodes.len(), 0);
    assert_eq!(
        runtime.state.stack,
        vec![Value::Bool(true), Value::Bool(false), Value::Bool(true)]
    );
}

#[test]
fn extension_plugin_shadows_by_registration_order() {
    let mut runtime: Runtime<NoSub, BoolPlugin> = Runtime::<NoSub, BoolPlugin>::builder()
        .extention(BoolPlugin)
        .extention(BoolPlugin)
        .build();
    runtime.set_source("t");
    runtime.parse_source().unwrap();
    runtime.eval_nodes().unwrap();
    assert_eq!(runtime.state.stack, vec![Value::Bool(true)]);
}

#[test]
fn reserved_tags_fail_evaluation() {
    let mut runtime: Runtime<NoSub, BoolPlugin> = Runtime::<NoSub, BoolPlugin>::builder()
        .extention(BoolPlugin)
        .build();
    runtime.nodes.push(TreeNode::Statement(BoolNode { truth: true }));
    assert!(runtime.eval_nodes().is_err());
}
