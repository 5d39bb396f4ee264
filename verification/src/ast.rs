use vstd::prelude::*;

use crate::errors::EvalError;
use crate::state::State;
use crate::state::StateView;
use crate::state::SubState;
use crate::value::Value;

verus! {

/// A parsed node, tagged with the capability it was built under. The
/// reserved tags mirror the token taxonomy; no shipped plugin builds them.
pub enum TreeNode<N> {
    /// Reserved: declaration forms.
    Declaration(N),
    /// Reserved: statement forms.
    Statement(N),
    /// An expression, evaluated against the shared context.
    Expression(N),
}

/// An element of the parsed expression tree. Evaluation is pure with
/// respect to the node's own subtree and impure only through the shared
/// context: what it returns and how it changes the context are functions
/// of the node and the context alone.
pub trait ExprNode<S: SubState>: Sized {
    /// What evaluating this node yields: the produced value or failure,
    /// and the context afterwards. The default says nothing useful; an
    /// implementation proved against the pipeline's contracts overrides it.
    open spec fn spec_eval(&self, st: StateView<S>) -> (Result<Value, EvalError>, StateView<S>) {
        arbitrary()
    }

    /// Evaluates this node against the shared context.
    fn eval_expr(&self, state: &mut State<S>) -> (r: Result<Value, EvalError>)
        ensures
            ({
                let (sr, st2) = self.spec_eval(old(state)@);
                r == sr && final(state)@ == st2
            }),
    ;
}

/// The content of a bundled arithmetic node: a numeral leaf carrying the
/// characters of its lexeme, or a composite owning its two operand
/// subtrees exclusively.
pub enum ExprView {
    /// A numeral literal, by the characters of its lexeme.
    Literal(Seq<char>),
    /// An addition.
    Add { a: Box<ExprView>, b: Box<ExprView> },
    /// A subtraction.
    Sub { a: Box<ExprView>, b: Box<ExprView> },
    /// A multiplication.
    Mul { a: Box<ExprView>, b: Box<ExprView> },
    /// A division.
    Div { a: Box<ExprView>, b: Box<ExprView> },
}

} // verus!
