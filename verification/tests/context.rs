use std::rc::Rc;

use modulus::errors::decimal_string;
use modulus::errors::LexerError;
use modulus::plugins::arithmatic::ArithmaticExpr;
use modulus::plugins::literals::InvalidNumberError;
use modulus::plugins::ArithmaticPlugin;
use modulus::plugins::CorePlugin;
use modulus::plugins::LiteralPlugin;
use modulus::runtime::Runtime;
use modulus::state::sub_state::SubState;
use modulus::state::sub_state::SubStateExt;
use modulus::value::Value;

struct State;

impl SubState for State {
    fn state_name(&self) -> &'static str {
        "test_state"
    }
}

#[test]
fn substate() {
    let state = Rc::new(State);
    let state = state.as_state();
    assert_eq!("test_state", state.state_name());
    let mut ctx: modulus::State<State> = modulus::State::new();
    ctx.add_sub_state(State);
    assert!(matches!(ctx.get_sub_state("test_state"), Some(_)));
}

enum Named {
    Counter(u32),
    Flag(bool),
}

impl SubState for Named {
    fn state_name(&self) -> &'static str {
        match self {
            Named::Counter(_) => "counter",
            Named::Flag(_) => "flag",
        }
    }
}

#[test]
fn sub_state_registry_round_trip() {
    let mut ctx: modulus::State<Named> = modulus::State::new();
    ctx.add_sub_state(Named::Counter(3));
    ctx.add_sub_state(Named::Flag(true));
    let counter = ctx.get_sub_state("counter").unwrap();
    assert_eq!(counter.state_name(), "counter");
    assert!(matches!(*counter, Named::Counter(3)));
    ctx.remove_sub_state("counter");
    assert!(ctx.get_sub_state("counter").is_none());
    assert!(ctx.get_sub_state("flag").is_some());
    ctx.remove_sub_state("missing");
    assert!(ctx.get_sub_state("flag").is_some());
}

#[test]
fn sub_state_insertion_overwrites() {
    let mut ctx: modulus::State<Named> = modulus::State::new();
    ctx.add_sub_state(Named::Counter(1));
    ctx.add_sub_state(Named::Counter(2));
    let counter = ctx.get_sub_state("counter").unwrap();
    assert!(matches!(*counter, Named::Counter(2)));
}

#[test]
fn value_stack_is_lifo() {
    let mut ctx: modulus::State<Named> = modulus::State::new();
    ctx.push(Value::Number((1.5f32).to_bits()));
    ctx.push(Value::Bool(true));
    ctx.push(Value::Nil);
    assert_eq!(ctx.pop(), Some(Value::Nil));
    assert_eq!(ctx.pop(), Some(Value::Bool(true)));
    let number = ctx.pop().unwrap();
    assert!(number.is_number());
    assert_eq!(number, Value::Number((1.5f32).to_bits()));
    assert_eq!(ctx.pop(), None);
    assert!(!Value::Nil.is_number());
}

fn eval_split(e: &ArithmaticExpr) -> f32 {
    match e {
        ArithmaticExpr::Literal(node) => node.lexum().parse::<f32>().unwrap(),
        ArithmaticExpr::Add { a, b } => eval_split(a) + eval_split(b),
        ArithmaticExpr::Sub { a, b } => eval_split(a) - eval_split(b),
        ArithmaticExpr::Mul { a, b } => eval_split(a) * eval_split(b),
        ArithmaticExpr::Div { a, b } => eval_split(a) / eval_split(b),
    }
}

#[test]
fn runtime_drives_split_plugins() {
    let mut runtime: Runtime<Named, CorePlugin> = Runtime::<Named, CorePlugin>::builder().extention(
        CorePlugin::Literal(LiteralPlugin),
    ).extention(CorePlugin::Arithmatic(ArithmaticPlugin)).build();
    runtime.set_source("10-4*2");
    runtime.parse_source().unwrap();
    assert_eq!(runtime.nodes.len(), 1);
    let mut results = Vec::new();
    for node in runtime.nodes.drain(..) {
        match node {
            modulus::ast::TreeNode::Expression(e) => results.push(eval_split(&e)),
            _ => panic!("expected an expression node"),
        }
    }
    assert_eq!(results, vec![12.0]);
    for r in results {
        runtime.state.push(Value::Number(r.to_bits()));
    }
    assert_eq!(runtime.state.stack.len(), 1);
    assert_eq!(runtime.state.stack[0], Value::Number((12.0f32).to_bits()));
}

#[test]
fn runtime_keeps_state_across_sources() {
    let mut runtime: Runtime<Named, CorePlugin> = Runtime::<Named, CorePlugin>::builder().extention(
        CorePlugin::Literal(LiteralPlugin),
    ).extention(CorePlugin::Arithmatic(ArithmaticPlugin)).build();
    runtime.state.push(Value::Number((1.0f32).to_bits()));
    runtime.set_source("2");
    runtime.parse_source().unwrap();
    assert_eq!(runtime.state.stack.len(), 1);
    runtime.set_source("3");
    runtime.parse_source().unwrap();
    assert_eq!(runtime.nodes.len(), 1);
}

#[test]
fn parse_source_without_source_fails() {
    let runtime: Runtime<Named, CorePlugin> = Runtime::<Named, CorePlugin>::builder().build();
    let mut runtime = runtime;
    let err = runtime.parse_source().unwrap_err();
    assert_eq!(err.message(), "Error: source must be set");
}

#[test]
fn standalone_number_plugin_lexes_numerals() {
    let mut lx = modulus::lexer::Lexer::builder().source("8.25  16").plugin(LiteralPlugin).build();
    let items = lx.lex_all();
    assert_eq!(items.len(), 2);
    let lexums: Vec<String> = items
        .into_iter()
        .map(|item| modulus::lexer::TokenGroup::lexum(&item.unwrap()).to_string())
        .collect();
    assert_eq!(lexums, vec!["8.25".to_string(), "16".to_string()]);
}

#[test]
fn decimal_rendering_is_exact() {
    assert_eq!(decimal_string(0), "0");
    assert_eq!(decimal_string(7), "7");
    assert_eq!(decimal_string(905), "905");
    assert_eq!(decimal_string(u32::MAX), "4294967295");
}

#[test]
fn error_messages_match_their_display_texts() {
    let cause = InvalidNumberError { line: 12, lexum: "7..".to_string() };
    assert_eq!(cause.message(), "[line: 12] Error at 7..: Invalid Number");
    let unknown = LexerError::UnknownToken('#');
    assert_eq!(unknown.message(), "Error: unknown token: #");
    let incomplete = LexerError::IncompleteToken(cause.message());
    assert_eq!(incomplete.message(), "Error: [line: 12] Error at 7..: Invalid Number");
}
