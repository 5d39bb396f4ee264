use vstd::prelude::*;

use crate::errors::LexerError;
use crate::errors::LexerErrorView;
use crate::errors::ParseError;
use crate::lexer::lex_items_view;
use crate::lexer::token_view;
use crate::lexer::ParseAdapter;
use crate::lexer::TokenGroup;
use crate::lexer::TokenView;
use crate::state::State;
use crate::state::StateView;
use crate::state::SubState;

verus! {

/// The buffered output of a lexer run, consumed front to back by the
/// parser and by expression tokens taking their own lookahead.
pub struct TokenStream<T> {
    /// The unconsumed elements, in reverse: the next element is last.
    pub rest: Vec<Result<T, LexerError>>,
}

impl<T> TokenStream<T> {
    /// The unconsumed elements, next first.
    pub open spec fn remaining(&self) -> Seq<Result<T, LexerError>> {
        self.rest@.reverse()
    }

    /// A stream over the given elements, in order.
    #[verifier::loop_isolation(false)]
    pub fn new(items: Vec<Result<T, LexerError>>) -> (s: Self)
        ensures
            s.remaining() == items@,
    {
        let ghost all = items@;
        let mut items = items;
        let mut rest: Vec<Result<T, LexerError>> = Vec::new();
        loop
            invariant
                items@.len() + rest@.len() == all.len(),
                items@ == all.subrange(0, items@.len() as int),
                forall|k: int| 0 <= k < rest@.len() ==> rest@[k] == all[all.len() - 1 - k],
            decreases items@.len(),
        {
            match items.pop() {
                Some(x) => {
                    rest.push(x);
                },
                None => {
                    let s = TokenStream { rest };
                    proof {
                        assert(s.remaining().len() == all.len());
                        assert forall|i: int| 0 <= i < all.len() implies s.remaining()[i]
                            == all[i] by {
                            assert(s.remaining()[i] == rest@[all.len() - 1 - i]);
                        }
                        assert(s.remaining() =~= all);
                    }
                    return s;
                },
            }
        }
    }

    /// Hands out the next element, or `None` when the stream is exhausted.
    pub fn next(&mut self) -> (r: Option<Result<T, LexerError>>)
        ensures
            match r {
                Some(item) => old(self).remaining().len() > 0 && item == old(self).remaining()[0]
                    && final(self).remaining() == old(self).remaining().drop_first(),
                None => old(self).remaining().len() == 0 && final(self).remaining() == old(
                    self,
                ).remaining(),
            },
    {
        let r = self.rest.pop();
        proof {
            if old(self).rest@.len() > 0 {
                assert(final(self).remaining() =~= old(self).remaining().drop_first());
            }
        }
        r
    }

    /// Shows the next element without consuming it.
    pub fn peek(&self) -> (r: Option<&Result<T, LexerError>>)
        ensures
            match r {
                Some(item) => self.remaining().len() > 0 && *item == self.remaining()[0],
                None => self.remaining().len() == 0,
            },
    {
        let n = self.rest.len();
        if n > 0 {
            Some(&self.rest[n - 1])
        } else {
            None
        }
    }
}

/// The content of an operand: `None` when no node was available.
pub open spec fn node_opt_view<N: View>(o: Option<N>) -> Option<N::V> {
    match o {
        Some(n) => Some(n@),
        None => None,
    }
}

/// The content of each node on an operand stack.
pub open spec fn node_views<N: View>(nodes: Seq<N>) -> Seq<N::V> {
    Seq::new(nodes.len(), |i: int| nodes[i]@)
}

/// A token that converts directly into a leaf node.
pub trait LitParser: TokenGroup {
    /// The content of the leaf node a literal token with the given content
    /// denotes. The default says nothing useful; an implementation proved
    /// against the pipeline's contracts overrides it.
    open spec fn spec_parse_lit(info: TokenView) -> <Self::Node as View>::V {
        arbitrary()
    }

    /// Builds the leaf node this token denotes.
    fn parse_lit(&self) -> (n: Self::Node)
        requires
            self.spec_adapter() == ParseAdapter::Literal,
        ensures
            n@ == Self::spec_parse_lit(token_view(*self)),
    ;
}

/// A token that builds a composite node: it takes the most recently built
/// node as its left-hand operand and may consume further tokens of its own
/// from the stream, cooperating with other plugins through the shared
/// evaluation context.
pub trait ExprParser<S: SubState>: TokenGroup {
    /// What parsing an expression token with the given content yields, as
    /// a function of the operand handed to it, the content of the
    /// unconsumed stream after it, and the context: the built node or an
    /// error message, the number of further elements consumed, and the
    /// context afterwards.
    /// The default says nothing useful; an implementation proved against
    /// the pipeline's contracts overrides it.
    open spec fn spec_parse_expr(
        info: TokenView,
        lhs: Option<<Self::Node as View>::V>,
        rest: Seq<Result<TokenView, LexerErrorView>>,
        st: StateView<S>,
    ) -> (Result<<Self::Node as View>::V, Seq<char>>, int, StateView<S>) {
        arbitrary()
    }

    /// Builds the composite node, consuming this token's own lookahead
    /// from the stream.
    fn parse_expr(
        &self,
        lhs: Option<Self::Node>,
        tokens: &mut TokenStream<Self>,
        state: &mut State<S>,
    ) -> (r: Result<Self::Node, ParseError>)
        requires
            self.spec_adapter() == ParseAdapter::Expression,
        ensures
            ({
                let (sr, used, st2) = Self::spec_parse_expr(
                    token_view(*self),
                    node_opt_view(lhs),
                    lex_items_view(old(tokens).remaining()),
                    old(state)@,
                );
                &&& final(state)@ == st2
                &&& 0 <= used <= old(tokens).remaining().len()
                &&& final(tokens).remaining() == old(tokens).remaining().skip(used)
                &&& match (r, sr) {
                    (Ok(n), Ok(m)) => n@ == m,
                    (Err(e), Err(msg)) => e@ == msg,
                    _ => false,
                }
            }),
    ;
}

/// The message a parse fails with on a reserved capability tag.
pub open spec fn unsupported_capability_message() -> Seq<char> {
    "Error: unsupported token capability"@
}

/// The number of stream elements an expression token consumed, held to the
/// stream's bounds.
pub open spec fn clamp_used(avail: int, used: int) -> int {
    if used < 0 {
        0
    } else if used > avail {
        avail
    } else {
        used
    }
}

/// What parsing a stream with the given content yields, threading the
/// operand stack and the evaluation context left to right: the content of
/// the final node list and the context, or the message of the first error
/// met.
pub open spec fn spec_parse<S: SubState, T: LitParser + ExprParser<S>>(
    items: Seq<Result<TokenView, LexerErrorView>>,
    nodes: Seq<<T::Node as View>::V>,
    st: StateView<S>,
) -> Result<(Seq<<T::Node as View>::V>, StateView<S>), Seq<char>>
    decreases items.len(),
{
    if items.len() == 0 {
        Ok((nodes, st))
    } else {
        match items.first() {
            Err(e) => Err(e.spec_message()),
            Ok(info) => match info.adapter {
                ParseAdapter::Literal => spec_parse::<S, T>(
                    items.drop_first(),
                    nodes.push(T::spec_parse_lit(info)),
                    st,
                ),
                ParseAdapter::Expression => {
                    let lhs = if nodes.len() > 0 {
                        Some(nodes.last())
                    } else {
                        None
                    };
                    let popped = if nodes.len() > 0 {
                        nodes.drop_last()
                    } else {
                        nodes
                    };
                    let (r, used, st2) = T::spec_parse_expr(info, lhs, items.drop_first(), st);
                    match r {
                        Err(msg) => Err(msg),
                        Ok(node) => spec_parse::<S, T>(
                            items.drop_first().skip(clamp_used(items.len() - 1, used)),
                            popped.push(node),
                            st2,
                        ),
                    }
                },
                _ => Err(unsupported_capability_message()),
            },
        }
    }
}

/// Consumes a token stream, maintaining an operand stack of built nodes.
/// Parsing proceeds strictly left to right with no precedence: each
/// expression token immediately binds the node on top of the stack.
pub struct Parser<T: TokenGroup> {
    /// The stream still to consume.
    pub tokens: TokenStream<T>,
    /// The operand stack of built nodes; any node not consumed by a later
    /// expression token remains a standalone top-level result.
    pub nodes: Vec<T::Node>,
}

impl<T: TokenGroup> Parser<T> {
    /// A parser over the given stream, with an empty operand stack.
    pub fn new(tokens: TokenStream<T>) -> (p: Self)
        ensures
            p.tokens == tokens,
            p.nodes@ == Seq::<T::Node>::empty(),
    {
        Parser { tokens, nodes: Vec::new() }
    }

    /// Consumes the whole stream, building nodes. Fails with the first
    /// error met, abandoning the parse: a lexer error is promoted to a
    /// `ParseError` carrying its display text, a reserved capability tag
    /// fails with [`unsupported_capability_message`], and an expression
    /// token's own failure is returned as it is.
    pub fn parse<S: SubState>(&mut self, state: &mut State<S>) -> (r: Result<(), ParseError>) where
        T: LitParser + ExprParser<S>
        ensures
            match r {
                Ok(()) => spec_parse::<S, T>(
                    lex_items_view(old(self).tokens.remaining()),
                    node_views(old(self).nodes@),
                    old(state)@,
                ) == Ok::<_, Seq<char>>((node_views(final(self).nodes@), final(state)@))
                    && final(self).tokens.remaining().len() == 0,
                Err(e) => spec_parse::<S, T>(
                    lex_items_view(old(self).tokens.remaining()),
                    node_views(old(self).nodes@),
                    old(state)@,
                ) == Err::<(Seq<<T::Node as View>::V>, StateView<S>), _>(e@),
            },
    {
        loop
            invariant
                spec_parse::<S, T>(
                    lex_items_view(old(self).tokens.remaining()),
                    node_views(old(self).nodes@),
                    old(state)@,
                ) == spec_parse::<S, T>(
                    lex_items_view(self.tokens.remaining()),
                    node_views(self.nodes@),
                    state@,
                ),
            decreases self.tokens.remaining().len(),
        {
            let ghost rem_before = self.tokens.remaining();
            let ghost items_before = lex_items_view(rem_before);
            let next = match self.tokens.next() {
                Some(item) => item,
                None => {
                    return Ok(());
                },
            };
            proof {
                assert(items_before.first() == lex_items_view(rem_before)[0]);
                assert(lex_items_view(self.tokens.remaining()) =~= items_before.drop_first());
            }
            let tok = match next {
                Ok(tok) => tok,
                Err(err) => {
                    return Err(ParseError(err.message()));
                },
            };
            match tok.adapter() {
                ParseAdapter::Literal => {
                    let ghost nodes_before = node_views(self.nodes@);
                    let n = tok.parse_lit();
                    self.nodes.push(n);
                    proof {
                        assert(node_views(self.nodes@) =~= nodes_before.push(n@));
                    }
                },
                ParseAdapter::Expression => {
                    let ghost rest_before = self.tokens.remaining();
                    let ghost nodes_before = node_views(self.nodes@);
                    let ghost st_before = state@;
                    let lhs = self.nodes.pop();
                    let ghost lhs_ghost = lhs;
                    proof {
                        assert(node_opt_view(lhs_ghost) == (if nodes_before.len() > 0 {
                            Some(nodes_before.last())
                        } else {
                            None::<<T::Node as View>::V>
                        }));
                        if nodes_before.len() > 0 {
                            assert(node_views(self.nodes@) =~= nodes_before.drop_last());
                        }
                    }
                    let built = tok.parse_expr(lhs, &mut self.tokens, state);
                    proof {
                        let used = T::spec_parse_expr(
                            token_view(tok),
                            node_opt_view(lhs_ghost),
                            lex_items_view(rest_before),
                            st_before,
                        ).1;
                        assert(clamp_used(rest_before.len() as int, used) == used);
                        assert(lex_items_view(self.tokens.remaining()) =~= lex_items_view(
                            rest_before,
                        ).skip(used));
                    }
                    match built {
                        Ok(node) => {
                            let ghost nodes_mid = node_views(self.nodes@);
                            self.nodes.push(node);
                            proof {
                                assert(node_views(self.nodes@) =~= nodes_mid.push(node@));
                            }
                        },
                        Err(e) => {
                            return Err(e);
                        },
                    }
                },
                _ => {
                    return Err(
                        ParseError(String::from_str("Error: unsupported token capability")),
                    );
                },
            }
        }
    }

    /// Gives up the parser, yielding the nodes built so far.
    pub fn nodes(self) -> (out: Vec<T::Node>)
        ensures
            out == self.nodes,
    {
        self.nodes
    }
}

} // verus!
