use vstd::prelude::*;

use crate::errors::ParseError;
use crate::lexer::lex_items_view;
use crate::lexer::spec_tokens;
use crate::lexer::Lexer;
use crate::lexer::LexerPlugin;
use crate::lexer::TokenGroup;
use crate::parser::node_views;
use crate::parser::spec_parse;
use crate::parser::ExprParser;
use crate::parser::LitParser;
use crate::parser::Parser;
use crate::parser::TokenStream;
use crate::state::State;
use crate::state::StateView;
use crate::state::SubState;

verus! {

/// A single-shot front over the pipeline: it lexes a source once at build
/// time and parses the whole token stream on demand, keeping its own
/// evaluation context.
pub struct Evaluator<S: SubState, T: TokenGroup> {
    /// The parser over the lexed stream, with the nodes built so far.
    pub parser: Parser<T>,
    /// The evaluation context handed to expression tokens during parsing.
    pub state: State<S>,
}

impl<S: SubState, T: TokenGroup> Evaluator<S, T> {
    /// An empty builder.
    pub fn builder<'src, P: LexerPlugin<Token = T>>() -> (b: EvalBuilder<'src, S, P>)
        ensures
            b.source is None,
            b.plugins@ == Seq::<P>::empty(),
            b.state@.stack.len() == 0,
            b.state@.sub_states == Map::<Seq<char>, S>::empty(),
    {
        EvalBuilder { source: None, plugins: Vec::new(), state: State::new() }
    }

    /// Parses the whole lexed stream, keeping the built nodes. Fails with
    /// the first error met, as [`Parser::parse`] does.
    pub fn parse(&mut self) -> (r: Result<(), ParseError>) where T: LitParser + ExprParser<S>
        ensures
            match r {
                Ok(()) => spec_parse::<S, T>(
                    lex_items_view(old(self).parser.tokens.remaining()),
                    node_views(old(self).parser.nodes@),
                    old(self).state@,
                ) == Ok::<_, Seq<char>>(
                    (node_views(final(self).parser.nodes@), final(self).state@),
                ) && final(self).parser.tokens.remaining().len() == 0,
                Err(e) => spec_parse::<S, T>(
                    lex_items_view(old(self).parser.tokens.remaining()),
                    node_views(old(self).parser.nodes@),
                    old(self).state@,
                ) == Err::<(Seq<<T::Node as View>::V>, StateView<S>), _>(e@),
            },
    {
        self.parser.parse(&mut self.state)
    }

    /// Gives up the evaluator, yielding the nodes built so far.
    pub fn exprs(self) -> (out: Vec<T::Node>)
        ensures
            out == self.parser.nodes,
    {
        self.parser.nodes()
    }
}

/// Assembles an [`Evaluator`]: a source string, lexer plugins in dispatch
/// order, and a fresh evaluation context.
pub struct EvalBuilder<'src, S: SubState, P: LexerPlugin> {
    /// The text to lex, once given.
    pub source: Option<&'src str>,
    /// The plugins registered so far, in order.
    pub plugins: Vec<P>,
    /// The evaluation context the evaluator will own.
    pub state: State<S>,
}

impl<'src, S: SubState, P: LexerPlugin> EvalBuilder<'src, S, P> {
    /// Sets the text to lex.
    pub fn source(self, src: &'src str) -> (b: Self)
        ensures
            b.source == Some(src),
            b.plugins == self.plugins,
            b.state == self.state,
    {
        EvalBuilder { source: Some(src), ..self }
    }

    /// Registers one plugin behind those already registered.
    pub fn plugin(self, plugin: P) -> (b: Self)
        ensures
            b.source == self.source,
            b.plugins@ == self.plugins@.push(plugin),
            b.state == self.state,
    {
        let mut plugins = self.plugins;
        plugins.push(plugin);
        EvalBuilder { source: self.source, plugins, state: self.state }
    }

    /// Builds the evaluator, lexing the source eagerly. The source must
    /// have been set.
    pub fn build(self) -> (ev: Evaluator<S, P::Token>)
        requires
            self.source is Some,
        ensures
            lex_items_view(ev.parser.tokens.remaining()) == spec_tokens(
                self.source.unwrap()@,
                self.plugins@,
                0,
                0,
            ),
            ev.parser.nodes@ == Seq::<<P::Token as TokenGroup>::Node>::empty(),
            ev.state == self.state,
    {
        let mut scanner: Lexer<'src, P> = Lexer::builder().source(self.source.unwrap()).plugins(
            self.plugins,
        ).build();
        let items = scanner.lex_all();
        Evaluator { parser: Parser::new(TokenStream::new(items)), state: self.state }
    }
}

} // verus!
