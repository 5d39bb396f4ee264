use vstd::prelude::*;
use vstd::string::StrSliceExecFns;

use crate::errors::LexerError;
use crate::errors::LexerErrorView;

verus! {

/// The parsing role a token declares: the parser treats this tag as an
/// exhaustive switch. `Declaration` and `Statement` are reserved slots with
/// no shipped handler.
#[derive(Debug, Clone, Copy, PartialEq, Eq, Structural)]
pub enum ParseAdapter {
    /// Reserved: declaration forms (no shipped plugin implements them).
    Declaration,
    /// Reserved: statement forms (no shipped plugin implements them).
    Statement,
    /// The token builds a composite node from the operand stack.
    Expression,
    /// The token converts directly into a leaf node.
    Literal,
}

/// The mathematical content of a token: its line, the characters of its
/// lexeme, and the parsing role it declares. Two tokens with the same
/// content are interchangeable everywhere in the pipeline.
pub struct TokenView {
    /// The line the token was produced on.
    pub line: u32,
    /// The characters of the token's lexeme.
    pub lexum: Seq<char>,
    /// The parsing role the token declares.
    pub adapter: ParseAdapter,
}

/// A lexical unit produced by exactly one lexer plugin: a line number, a
/// lexeme, and the capability tag identifying its parsing role.
pub trait TokenGroup: Sized {
    /// The type of AST node this token family builds.
    type Node: View;

    /// The line this token was produced on. The default says nothing
    /// useful; an implementation proved against the pipeline's contracts
    /// overrides it.
    open spec fn spec_line(&self) -> u32 {
        arbitrary()
    }

    /// The characters of this token's lexeme. The default says nothing
    /// useful; an implementation proved against the pipeline's contracts
    /// overrides it.
    open spec fn spec_lexum(&self) -> Seq<char> {
        arbitrary()
    }

    /// The parsing role this token declares. The default says nothing
    /// useful; an implementation proved against the pipeline's contracts
    /// overrides it.
    open spec fn spec_adapter(&self) -> ParseAdapter {
        arbitrary()
    }

    /// The line this token was produced on.
    fn line(&self) -> (n: u32)
        ensures
            n == self.spec_line(),
    ;

    /// This token's lexeme.
    fn lexum(&self) -> (s: &str)
        ensures
            s@ == self.spec_lexum(),
    ;

    /// The parsing role this token declares.
    fn adapter(&self) -> (a: ParseAdapter)
        ensures
            a == self.spec_adapter(),
    ;
}

/// The content of a token.
pub open spec fn token_view<T: TokenGroup>(t: T) -> TokenView {
    TokenView { line: t.spec_line(), lexum: t.spec_lexum(), adapter: t.spec_adapter() }
}

/// The content of one element of the lexed stream.
pub open spec fn lex_item_view<T: TokenGroup>(item: Result<T, LexerError>) -> Result<
    TokenView,
    LexerErrorView,
> {
    match item {
        Ok(t) => Ok(token_view(t)),
        Err(e) => Err(e@),
    }
}

/// The content of each element of a lexed stream.
pub open spec fn lex_items_view<T: TokenGroup>(items: Seq<Result<T, LexerError>>) -> Seq<
    Result<TokenView, LexerErrorView>,
> {
    Seq::new(items.len(), |i: int| lex_item_view(items[i]))
}

/// A registered handler claiming a subset of leading characters and
/// producing tokens from them. Dispatch is pure: which plugin wins and what
/// it lexes are functions of the source, the position and the line alone,
/// which is what makes lexing deterministic for every registered set.
pub trait LexerPlugin: Sized {
    /// The token family this plugin produces.
    type Token: TokenGroup;

    /// Whether this plugin claims the given leading character. The
    /// default says nothing useful; an implementation proved against the
    /// pipeline's contracts overrides it.
    open spec fn spec_handles(&self, c: char) -> bool {
        arbitrary()
    }

    /// What lexing one token starting at `start` yields: the content of
    /// the produced element and the cursor position after it. The element
    /// is owed only when the plugin claims `source[start]`. The default
    /// says nothing useful; an implementation proved against the
    /// pipeline's contracts overrides it.
    open spec fn spec_lex(&self, source: Seq<char>, start: int, line: u32) -> (Result<
        TokenView,
        LexerErrorView,
    >, int) {
        arbitrary()
    }

    /// Whether this plugin claims the given leading character. Must be pure:
    /// it is used for dispatch only.
    fn handles_char(&self, c: char) -> (b: bool)
        ensures
            b == self.spec_handles(c),
    ;

    /// Lexes one token. `pos` is the offset and value of the leading
    /// character, already consumed by the caller; `scanner` is the cursor
    /// into the remaining characters, which the plugin may advance to take
    /// lookahead characters of its own, and must leave inside the source.
    fn lex_token(&self, source: &str, pos: (usize, char), line: u32, scanner: &mut usize) -> (r:
        Result<Self::Token, LexerError>)
        requires
            pos.0 < source@.len(),
            source@[pos.0 as int] == pos.1,
            self.spec_handles(pos.1),
            *old(scanner) == pos.0 + 1,
        ensures
            lex_item_view(r) == self.spec_lex(source@, pos.0 as int, line).0,
            *final(scanner) == self.spec_lex(source@, pos.0 as int, line).1,
            pos.0 < *final(scanner) <= source@.len(),
    ;
}

impl<'p, P: LexerPlugin> LexerPlugin for &'p P {
    type Token = P::Token;

    open spec fn spec_handles(&self, c: char) -> bool {
        (**self).spec_handles(c)
    }

    open spec fn spec_lex(&self, source: Seq<char>, start: int, line: u32) -> (Result<
        TokenView,
        LexerErrorView,
    >, int) {
        (**self).spec_lex(source, start, line)
    }

    fn handles_char(&self, c: char) -> (b: bool) {
        (**self).handles_char(c)
    }

    fn lex_token(&self, source: &str, pos: (usize, char), line: u32, scanner: &mut usize) -> (r:
        Result<P::Token, LexerError>) {
        (**self).lex_token(source, pos, line, scanner)
    }
}

impl<P: LexerPlugin> LexerPlugin for std::rc::Rc<P> {
    type Token = P::Token;

    open spec fn spec_handles(&self, c: char) -> bool {
        (**self).spec_handles(c)
    }

    open spec fn spec_lex(&self, source: Seq<char>, start: int, line: u32) -> (Result<
        TokenView,
        LexerErrorView,
    >, int) {
        (**self).spec_lex(source, start, line)
    }

    fn handles_char(&self, c: char) -> (b: bool) {
        (**self).handles_char(c)
    }

    fn lex_token(&self, source: &str, pos: (usize, char), line: u32, scanner: &mut usize) -> (r:
        Result<P::Token, LexerError>) {
        (**self).lex_token(source, pos, line, scanner)
    }
}

/// Whitespace that is skipped without advancing the line counter.
pub open spec fn is_blank(c: char) -> bool {
    c == ' ' || c == '\t' || c == '\r'
}

/// The line counter after one newline; it saturates rather than wraps.
pub open spec fn next_line(line: u32) -> u32 {
    if line == u32::MAX {
        line
    } else {
        (line + 1) as u32
    }
}

/// The first plugin, in registration order, that claims the character.
/// Overlapping character classes silently shadow later-registered plugins.
pub open spec fn spec_first_handler<P: LexerPlugin>(plugins: Seq<P>, c: char) -> Option<P>
    decreases plugins.len(),
{
    if plugins.len() == 0 {
        None
    } else if plugins.first().spec_handles(c) {
        Some(plugins.first())
    } else {
        spec_first_handler(plugins.drop_first(), c)
    }
}

/// The cursor position after one plugin ran, held to the core's bounds: a
/// plugin observing its contract consumed the leading character at least
/// and stayed inside the source.
pub open spec fn clamp_advance(len: int, start: int, end: int) -> int {
    if end <= start + 1 {
        start + 1
    } else if end > len {
        len
    } else {
        end
    }
}

/// The lex result produced at a non-whitespace position, and the cursor
/// position after it: the first claiming plugin's element, or
/// `UnknownToken` when no plugin claims the character.
pub open spec fn spec_lex_at<P: LexerPlugin>(
    source: Seq<char>,
    plugins: Seq<P>,
    pos: int,
    line: u32,
) -> (Result<TokenView, LexerErrorView>, int) {
    let handler = spec_first_handler(plugins, source[pos]);
    if handler is None {
        (Err(LexerErrorView::UnknownToken(source[pos])), pos + 1)
    } else {
        let (r, end) = handler.unwrap().spec_lex(source, pos, line);
        (r, clamp_advance(source.len() as int, pos, end))
    }
}

/// The finite sequence of lex results obtained by scanning `source` from
/// position `pos` at line `line` with the given registration-ordered
/// plugins. Errors are elements of the sequence, never the end of it.
pub open spec fn spec_tokens<P: LexerPlugin>(
    source: Seq<char>,
    plugins: Seq<P>,
    pos: int,
    line: u32,
) -> Seq<Result<TokenView, LexerErrorView>>
    decreases source.len() - pos,
{
    if pos < 0 || pos >= source.len() {
        Seq::empty()
    } else if is_blank(source[pos]) {
        spec_tokens(source, plugins, pos + 1, line)
    } else if source[pos] == '\n' {
        spec_tokens(source, plugins, pos + 1, next_line(line))
    } else {
        let (r, next) = spec_lex_at(source, plugins, pos, line);
        let bounded = clamp_advance(source.len() as int, pos, next);
        seq![r] + spec_tokens(source, plugins, bounded, line)
    }
}

proof fn lemma_first_handler_at<P: LexerPlugin>(plugins: Seq<P>, c: char, k: int)
    requires
        0 <= k < plugins.len(),
        plugins[k].spec_handles(c),
        forall|j: int| 0 <= j < k ==> !plugins[j].spec_handles(c),
    ensures
        spec_first_handler(plugins, c) == Some(plugins[k]),
    decreases k,
{
    if k > 0 {
        lemma_first_handler_at(plugins.drop_first(), c, k - 1);
    }
}

proof fn lemma_first_handler_none<P: LexerPlugin>(plugins: Seq<P>, c: char)
    requires
        forall|j: int| 0 <= j < plugins.len() ==> !plugins[j].spec_handles(c),
    ensures
        spec_first_handler(plugins, c) is None,
    decreases plugins.len(),
{
    if plugins.len() > 0 {
        lemma_first_handler_none(plugins.drop_first(), c);
    }
}

/// A character-stream scanner that delegates recognition to an ordered list
/// of registered plugins. It yields a finite sequence of token results,
/// restartable only by rebuilding.
pub struct Lexer<'src, P: LexerPlugin> {
    /// The text being scanned.
    pub source: &'src str,
    /// The registered plugins; position is dispatch priority.
    pub plugins: Vec<P>,
    /// The cursor: how many characters are consumed.
    pub scanner: usize,
    /// The current line, counted from zero.
    pub line: u32,
}

impl<'src, P: LexerPlugin> Lexer<'src, P> {
    /// The cursor is inside the source.
    pub open spec fn wf(&self) -> bool {
        self.scanner <= self.source@.len()
    }

    /// The content of the lex results this scanner has yet to yield.
    pub open spec fn upcoming(&self) -> Seq<Result<TokenView, LexerErrorView>> {
        spec_tokens(self.source@, self.plugins@, self.scanner as int, self.line)
    }

    /// An empty builder.
    pub fn builder() -> (b: LexerBuilder<'src, P>)
        ensures
            b.source is None,
            b.plugins@ == Seq::<P>::empty(),
    {
        LexerBuilder { source: None, plugins: Vec::new() }
    }

    /// Yields the next lex result, or `None` at the end of the source.
    /// Whitespace is skipped; a newline advances the line counter; the
    /// first registered plugin claiming the leading character lexes the
    /// token; an unclaimed character yields `UnknownToken` and scanning
    /// continues after it.
    pub fn next_token(&mut self) -> (r: Option<Result<P::Token, LexerError>>)
        requires
            old(self).wf(),
        ensures
            final(self).wf(),
            final(self).source == old(self).source,
            final(self).plugins == old(self).plugins,
            match r {
                None => old(self).upcoming().len() == 0 && final(self).upcoming().len() == 0,
                Some(item) => old(self).upcoming() == seq![lex_item_view(item)]
                    + final(self).upcoming(),
            },
    {
        loop
            invariant
                self.wf(),
                self.source == old(self).source,
                self.plugins == old(self).plugins,
                self.upcoming() == old(self).upcoming(),
            decreases self.source@.len() - self.scanner,
        {
            if self.scanner >= self.source.unicode_len() {
                return None;
            }
            let c = self.source.get_char(self.scanner);
            if c == ' ' || c == '\t' || c == '\r' {
                self.scanner = self.scanner + 1;
            } else if c == '\n' {
                self.scanner = self.scanner + 1;
                if self.line < u32::MAX {
                    self.line = self.line + 1;
                }
            } else {
                let start = self.scanner;
                let ghost here_line = self.line;
                self.scanner = self.scanner + 1;
                let n = self.plugins.len();
                let mut k: usize = 0;
                while k < n
                    invariant
                        n == self.plugins@.len(),
                        k <= n,
                        forall|j: int| 0 <= j < k ==> !self.plugins@[j].spec_handles(c),
                        self.source == old(self).source,
                        self.plugins == old(self).plugins,
                        self.line == here_line,
                        self.scanner == start + 1,
                        start < self.source@.len(),
                        self.source@[start as int] == c,
                        !is_blank(c),
                        c != '\n',
                        spec_tokens(self.source@, self.plugins@, start as int, here_line) == old(
                            self,
                        ).upcoming(),
                    decreases n - k,
                {
                    if self.plugins[k].handles_char(c) {
                        proof {
                            lemma_first_handler_at(self.plugins@, c, k as int);
                        }
                        let plugin = &self.plugins[k];
                        let item = plugin.lex_token(
                            self.source,
                            (start, c),
                            self.line,
                            &mut self.scanner,
                        );
                        proof {
                            let end = plugin.spec_lex(self.source@, start as int, here_line).1;
                            assert(clamp_advance(self.source@.len() as int, start as int, end)
                                == end);
                        }
                        return Some(item);
                    }
                    k = k + 1;
                }
                proof {
                    lemma_first_handler_none(self.plugins@, c);
                }
                return Some(Err(LexerError::UnknownToken(c)));
            }
        }
    }

    /// Lexes the rest of the source eagerly, in order.
    pub fn lex_all(&mut self) -> (out: Vec<Result<P::Token, LexerError>>)
        requires
            old(self).wf(),
        ensures
            lex_items_view(out@) == old(self).upcoming(),
    {
        let mut out: Vec<Result<P::Token, LexerError>> = Vec::new();
        loop
            invariant
                self.wf(),
                lex_items_view(out@) + self.upcoming() == old(self).upcoming(),
            decreases self.upcoming().len(),
        {
            let ghost before = self.upcoming();
            match self.next_token() {
                None => {
                    proof {
                        assert(lex_items_view(out@) + self.upcoming() =~= lex_items_view(out@));
                    }
                    return out;
                },
                Some(item) => {
                    let ghost prev = out@;
                    out.push(item);
                    proof {
                        assert(lex_items_view(out@) =~= lex_items_view(prev).push(
                            lex_item_view(item),
                        ));
                        assert(lex_items_view(prev) + (seq![lex_item_view(item)] + self.upcoming())
                            =~= lex_items_view(out@) + self.upcoming());
                    }
                },
            }
        }
    }
}

/// Assembles a [`Lexer`] from a source string and plugins, registered in
/// dispatch order.
pub struct LexerBuilder<'src, P: LexerPlugin> {
    /// The text to scan, once given.
    pub source: Option<&'src str>,
    /// The plugins registered so far, in order.
    pub plugins: Vec<P>,
}

impl<'src, P: LexerPlugin> LexerBuilder<'src, P> {
    /// Sets the text to scan.
    pub fn source(self, source: &'src str) -> (b: Self)
        ensures
            b.source == Some(source),
            b.plugins == self.plugins,
    {
        LexerBuilder { source: Some(source), ..self }
    }

    /// Registers one plugin behind those already registered.
    pub fn plugin(self, plugin: P) -> (b: Self)
        ensures
            b.source == self.source,
            b.plugins@ == self.plugins@.push(plugin),
    {
        let mut plugins = self.plugins;
        plugins.push(plugin);
        LexerBuilder { source: self.source, plugins }
    }

    /// Registers the given plugins behind those already registered,
    /// keeping their order.
    pub fn plugins(self, more: Vec<P>) -> (b: Self)
        ensures
            b.source == self.source,
            b.plugins@ == self.plugins@ + more@,
    {
        let mut plugins = self.plugins;
        let mut more = more;
        plugins.append(&mut more);
        LexerBuilder { source: self.source, plugins }
    }

    /// Builds the scanner. The source must have been set.
    pub fn build(self) -> (lx: Lexer<'src, P>)
        requires
            self.source is Some,
        ensures
            lx.source == self.source.unwrap(),
            lx.plugins == self.plugins,
            lx.scanner == 0,
            lx.line == 0,
            lx.wf(),
    {
        let source = self.source.unwrap();
        Lexer { source, plugins: self.plugins, scanner: 0, line: 0 }
    }
}

/// Law: lexing is deterministic. The token sequence is a function of the
/// source and the registered plugin list alone, so scanning the same source
/// twice with the same registered set yields identical sequences.
pub proof fn lemma_lexing_deterministic<P: LexerPlugin>(
    source1: Seq<char>,
    plugins1: Seq<P>,
    source2: Seq<char>,
    plugins2: Seq<P>,
)
    requires
        source1 == source2,
        plugins1 == plugins2,
    ensures
        spec_tokens(source1, plugins1, 0, 0) == spec_tokens(source2, plugins2, 0, 0),
{
}

proof fn lemma_first_handler_insert_inert<P: LexerPlugin>(plugins: Seq<P>, i: int, p: P, c: char)
    requires
        0 <= i <= plugins.len(),
        !p.spec_handles(c),
    ensures
        spec_first_handler(plugins.insert(i, p), c) == spec_first_handler(plugins, c),
    decreases plugins.len(),
{
    let grown = plugins.insert(i, p);
    if i == 0 {
        assert(grown.drop_first() =~= plugins);
    } else {
        assert(grown.first() == plugins.first());
        if !plugins.first().spec_handles(c) {
            lemma_first_handler_insert_inert(plugins.drop_first(), i - 1, p, c);
            assert(grown.drop_first() =~= plugins.drop_first().insert(i - 1, p));
        }
    }
}

proof fn lemma_first_handler_insert_dup<P: LexerPlugin>(plugins: Seq<P>, i: int, dup: P, c: char)
    requires
        0 <= i <= plugins.len(),
        exists|j: int| 0 <= j < i && plugins[j] == dup,
    ensures
        spec_first_handler(plugins.insert(i, dup), c) == spec_first_handler(plugins, c),
    decreases plugins.len(),
{
    if !dup.spec_handles(c) {
        lemma_first_handler_insert_inert(plugins, i, dup, c);
    } else {
        let j = choose|j: int| 0 <= j < i && plugins[j] == dup;
        let grown = plugins.insert(i, dup);
        assert(grown.first() == plugins.first());
        if !plugins.first().spec_handles(c) {
            assert(plugins[j].spec_handles(c));
            assert(j >= 1);
            assert(plugins.drop_first()[j - 1] == dup);
            lemma_first_handler_insert_dup(plugins.drop_first(), i - 1, dup, c);
            assert(grown.drop_first() =~= plugins.drop_first().insert(i - 1, dup));
        }
    }
}

/// Law: registering a plugin a second time does not change lexing. For any
/// registration list already containing `dup`, inserting `dup` again at any
/// later position yields the same token sequence for every source: the
/// first matching plugin wins, so the earlier instance already shadows the
/// inserted one wherever it would match.
pub proof fn lemma_register_twice<P: LexerPlugin>(
    source: Seq<char>,
    plugins: Seq<P>,
    i: int,
    dup: P,
    pos: int,
    line: u32,
)
    requires
        0 <= i <= plugins.len(),
        exists|j: int| 0 <= j < i && plugins[j] == dup,
    ensures
        spec_tokens(source, plugins.insert(i, dup), pos, line) == spec_tokens(
            source,
            plugins,
            pos,
            line,
        ),
    decreases source.len() - pos,
{
    let grown = plugins.insert(i, dup);
    if pos < 0 || pos >= source.len() {
    } else if is_blank(source[pos]) {
        lemma_register_twice(source, plugins, i, dup, pos + 1, line);
    } else if source[pos] == '\n' {
        lemma_register_twice(source, plugins, i, dup, pos + 1, next_line(line));
    } else {
        lemma_first_handler_insert_dup(plugins, i, dup, source[pos]);
        match spec_first_handler(plugins, source[pos]) {
            None => {
                lemma_register_twice(source, plugins, i, dup, pos + 1, line);
            },
            Some(p) => {
                let end = p.spec_lex(source, pos, line).1;
                lemma_register_twice(
                    source,
                    plugins,
                    i,
                    dup,
                    clamp_advance(source.len() as int, pos, end),
                    line,
                );
            },
        }
    }
}

/// Law: an unclaimed leading character fails only its own element. When no
/// registered plugin claims the character, that element is
/// `UnknownToken` and lexing of the subsequent characters continues
/// unaffected.
pub proof fn lemma_unknown_token_continues<P: LexerPlugin>(
    source: Seq<char>,
    plugins: Seq<P>,
    pos: int,
    line: u32,
)
    requires
        0 <= pos < source.len(),
        !is_blank(source[pos]),
        source[pos] != '\n',
        forall|j: int| 0 <= j < plugins.len() ==> !plugins[j].spec_handles(source[pos]),
    ensures
        spec_tokens(source, plugins, pos, line) == seq![
            Err::<TokenView, LexerErrorView>(LexerErrorView::UnknownToken(source[pos])),
        ] + spec_tokens(source, plugins, pos + 1, line),
{
    lemma_first_handler_none(plugins, source[pos]);
}

} // verus!
