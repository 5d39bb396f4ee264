use std::rc::Rc;
use vstd::prelude::*;

use crate::ast::ExprNode;
use crate::ast::TreeNode;
use crate::errors::EvalError;
use crate::errors::ParseError;
use crate::lexer::lex_items_view;
use crate::lexer::spec_tokens;
use crate::lexer::Lexer;
use crate::lexer::LexerPlugin;
use crate::lexer::TokenGroup;
use crate::parser::node_views;
use crate::parser::spec_parse;
use crate::parser::ExprParser;
use crate::parser::LitParser;
use crate::parser::Parser;
use crate::parser::TokenStream;
use crate::state::State;
use crate::state::StateView;
use crate::state::SubState;

verus! {

/// The message `parse_source` fails with before any source was set.
pub open spec fn source_missing_message() -> Seq<char> {
    "Error: source must be set"@
}

/// Whether a parsed node is an expression node with the given content.
pub open spec fn tree_is_expression_of<N: View>(t: TreeNode<N>, v: N::V) -> bool {
    match t {
        TreeNode::Expression(n) => n@ == v,
        _ => false,
    }
}

/// What evaluating parsed nodes in order against a context yields: each
/// expression node's value is pushed onto the context's stack; the first
/// failure, or a node under a reserved tag, stops evaluation, leaving the
/// subsequent nodes unevaluated.
pub open spec fn spec_eval_nodes<S: SubState, N: ExprNode<S>>(
    nodes: Seq<TreeNode<N>>,
    st: StateView<S>,
) -> (Result<(), EvalError>, StateView<S>)
    decreases nodes.len(),
{
    if nodes.len() == 0 {
        (Ok(()), st)
    } else {
        match nodes.first() {
            TreeNode::Expression(e) => {
                let (r, st2) = e.spec_eval(st);
                match r {
                    Ok(v) => spec_eval_nodes(
                        nodes.drop_first(),
                        StateView { stack: st2.stack.push(v), sub_states: st2.sub_states },
                    ),
                    Err(err) => (Err(err), st2),
                }
            },
            _ => (Err(EvalError), st),
        }
    }
}

/// Tags each parsed node as an expression, keeping the order.
#[verifier::loop_isolation(false)]
fn wrap_nodes<N>(nodes: Vec<N>) -> (out: Vec<TreeNode<N>>)
    ensures
        out@.len() == nodes@.len(),
        forall|i: int| 0 <= i < nodes@.len() ==> out@[i] == TreeNode::Expression(nodes@[i]),
{
    let ghost all = nodes@;
    let mut nodes = nodes;
    let mut rev: Vec<N> = Vec::new();
    loop
        invariant
            nodes@.len() + rev@.len() == all.len(),
            nodes@ == all.subrange(0, nodes@.len() as int),
            forall|k: int| 0 <= k < rev@.len() ==> rev@[k] == all[all.len() - 1 - k],
        decreases nodes@.len(),
    {
        match nodes.pop() {
            Some(x) => {
                rev.push(x);
            },
            None => {
                break ;
            },
        }
    }
    let mut out: Vec<TreeNode<N>> = Vec::new();
    loop
        invariant
            out@.len() + rev@.len() == all.len(),
            forall|k: int| 0 <= k < rev@.len() ==> rev@[k] == all[all.len() - 1 - k],
            forall|i: int| 0 <= i < out@.len() ==> out@[i] == TreeNode::Expression(all[i]),
        decreases rev@.len(),
    {
        match rev.pop() {
            Some(x) => {
                out.push(TreeNode::Expression(x));
            },
            None => {
                return out;
            },
        }
    }
}

/// Orchestrates the pipeline across many sources: it owns the globally
/// registered plugins (installed once, shared across `set_source` calls),
/// the parser for the current source, the persistent evaluation context,
/// and the parsed-but-not-yet-evaluated nodes.
pub struct Runtime<S: SubState, P: LexerPlugin> {
    /// The globally registered plugins, in dispatch order, shared with each
    /// rebuilt lexer.
    pub global_extentions: Vec<Rc<P>>,
    /// The parser over the current source, consumed by `parse_source`.
    pub parser: Option<Parser<P::Token>>,
    /// The evaluation context; it persists across parse/eval cycles, which
    /// is what lets sub-states and the value stack accumulate meaning.
    pub state: State<S>,
    /// The parsed nodes awaiting evaluation.
    pub nodes: Vec<TreeNode<<P::Token as TokenGroup>::Node>>,
}

impl<S: SubState, P: LexerPlugin> Runtime<S, P> {
    /// An empty builder.
    pub fn builder() -> (b: RuntimeBuilder<P>)
        ensures
            b.extentions@ == Seq::<Rc<P>>::empty(),
    {
        RuntimeBuilder { extentions: Vec::new() }
    }

    /// Rebuilds the lexer/parser pair from the globally registered plugins
    /// and the new text, discarding any previously parsed nodes.
    #[verifier::loop_isolation(false)]
    pub fn set_source(&mut self, source: &str)
        ensures
            final(self).global_extentions == old(self).global_extentions,
            final(self).state == old(self).state,
            final(self).nodes@.len() == 0,
            match final(self).parser {
                Some(p) => lex_items_view(p.tokens.remaining()) == spec_tokens(
                    source@,
                    old(self).global_extentions@,
                    0,
                    0,
                ) && p.nodes@.len() == 0,
                None => false,
            },
    {
        let mut plugins: Vec<Rc<P>> = Vec::new();
        let n = self.global_extentions.len();
        let mut i: usize = 0;
        while i < n
            invariant
                i <= n,
                plugins@ == self.global_extentions@.subrange(0, i as int),
            decreases n - i,
        {
            let rc = self.global_extentions[i].clone();
            plugins.push(rc);
            proof {
                assert(plugins@ =~= self.global_extentions@.subrange(0, i as int + 1));
            }
            i = i + 1;
        }
        proof {
            assert(self.global_extentions@.subrange(0, n as int) =~= self.global_extentions@);
        }
        let mut scanner: Lexer<Rc<P>> = Lexer::builder().source(source).plugins(plugins).build();
        let items = scanner.lex_all();
        self.parser = Some(Parser::new(TokenStream::new(items)));
        self.nodes = Vec::new();
    }

    /// Parses the current source wholly, storing the produced nodes. Fails
    /// with a `ParseError` if called before `set_source` or if the parse
    /// fails; the parser is consumed either way.
    pub fn parse_source(&mut self) -> (r: Result<(), ParseError>) where
        P::Token: LitParser + ExprParser<S>
        ensures
            final(self).global_extentions == old(self).global_extentions,
            final(self).parser is None,
            old(self).parser is None ==> match r {
                Err(e) => e@ == source_missing_message() && final(self).state == old(self).state
                    && final(self).nodes == old(self).nodes,
                Ok(_) => false,
            },
            old(self).parser is Some ==> ({
                let p = old(self).parser.unwrap();
                match spec_parse::<S, P::Token>(
                    lex_items_view(p.tokens.remaining()),
                    node_views(p.nodes@),
                    old(self).state@,
                ) {
                    Ok(built) => r is Ok && final(self).state@ == built.1
                        && final(self).nodes@.len() == built.0.len()
                        && (forall|i: int|
                        0 <= i < built.0.len() ==> tree_is_expression_of(
                            final(self).nodes@[i],
                            built.0[i],
                        )),
                    Err(msg) => match r {
                        Err(e) => e@ == msg && final(self).nodes == old(self).nodes,
                        Ok(_) => false,
                    },
                }
            }),
    {
        let taken = self.parser.take();
        let mut parser = match taken {
            Some(p) => p,
            None => {
                return Err(ParseError(String::from_str("Error: source must be set")));
            },
        };
        match parser.parse(&mut self.state) {
            Ok(()) => {
                self.nodes = wrap_nodes(parser.nodes());
                Ok(())
            },
            Err(e) => Err(e),
        }
    }

    /// Evaluates the stored nodes in order against the persistent context,
    /// pushing each produced value onto the context's stack, and fails on
    /// the first node whose evaluation fails, leaving subsequent nodes
    /// unevaluated. The stored nodes are given up either way.
    #[verifier::loop_isolation(false)]
    pub fn eval_nodes(&mut self) -> (r: Result<(), EvalError>) where
        <P::Token as TokenGroup>::Node: ExprNode<S>
        ensures
            final(self).global_extentions == old(self).global_extentions,
            final(self).parser == old(self).parser,
            final(self).nodes@.len() == 0,
            ({
                let (sr, st2) = spec_eval_nodes(old(self).nodes@, old(self).state@);
                r == sr && final(self).state@ == st2
            }),
    {
        let ghost all = self.nodes@;
        let mut taken: Vec<TreeNode<<P::Token as TokenGroup>::Node>> = Vec::new();
        core::mem::swap(&mut taken, &mut self.nodes);
        let mut rev: Vec<TreeNode<<P::Token as TokenGroup>::Node>> = Vec::new();
        loop
            invariant
                taken@.len() + rev@.len() == all.len(),
                taken@ == all.subrange(0, taken@.len() as int),
                forall|k: int| 0 <= k < rev@.len() ==> rev@[k] == all[all.len() - 1 - k],
                self.nodes@.len() == 0,
                self.state == old(self).state,
                self.global_extentions == old(self).global_extentions,
                self.parser == old(self).parser,
            decreases taken@.len(),
        {
            match taken.pop() {
                Some(x) => {
                    rev.push(x);
                },
                None => {
                    break ;
                },
            }
        }
        proof {
            assert(rev@.reverse() =~= all);
        }
        loop
            invariant
                rev@.len() <= all.len(),
                self.nodes@.len() == 0,
                self.global_extentions == old(self).global_extentions,
                self.parser == old(self).parser,
                spec_eval_nodes(all, old(self).state@) == spec_eval_nodes(
                    rev@.reverse(),
                    self.state@,
                ),
            decreases rev@.len(),
        {
            let ghost rem = rev@.reverse();
            match rev.pop() {
                None => {
                    return Ok(());
                },
                Some(node) => {
                    let ghost st_before = self.state@;
                    proof {
                        assert(rem.first() == node);
                        assert(rev@.reverse() =~= rem.drop_first());
                    }
                    match node {
                        TreeNode::Expression(e) => {
                            match e.eval_expr(&mut self.state) {
                                Ok(v) => {
                                    self.state.push(v);
                                    proof {
                                        let st2 = e.spec_eval(st_before).1;
                                        assert(self.state@ == StateView {
                                            stack: st2.stack.push(v),
                                            sub_states: st2.sub_states,
                                        });
                                    }
                                },
                                Err(err) => {
                                    return Err(err);
                                },
                            }
                        },
                        _ => {
                            return Err(EvalError);
                        },
                    }
                },
            }
        }
    }
}

/// Assembles a [`Runtime`] from globally registered plugins.
pub struct RuntimeBuilder<P: LexerPlugin> {
    /// The plugins registered so far, in dispatch order.
    pub extentions: Vec<Rc<P>>,
}

impl<P: LexerPlugin> RuntimeBuilder<P> {
    /// Registers one plugin behind those already registered.
    pub fn extention(self, plugin: P) -> (b: Self)
        ensures
            b.extentions@.len() == self.extentions@.len() + 1,
            b.extentions@.drop_last() == self.extentions@,
            *b.extentions@.last() == plugin,
    {
        let mut extentions = self.extentions;
        extentions.push(Rc::new(plugin));
        proof {
            assert(extentions@.drop_last() =~= self.extentions@);
        }
        RuntimeBuilder { extentions }
    }

    /// Builds the runtime: the registered plugins, no source, a fresh
    /// context, no nodes.
    pub fn build<S: SubState>(self) -> (rt: Runtime<S, P>)
        ensures
            rt.global_extentions == self.extentions,
            rt.parser is None,
            rt.nodes@.len() == 0,
            rt.state@.stack.len() == 0,
            rt.state@.sub_states == Map::<Seq<char>, S>::empty(),
    {
        Runtime {
            global_extentions: self.extentions,
            parser: None,
            state: State::new(),
            nodes: Vec::new(),
        }
    }
}

} // verus!
