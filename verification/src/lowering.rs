//! What lowering reads off the syntax tree before it builds anything.

use crate::ast::expressions::{AtomicExpr, AtomicExprView, Expression, ExpressionView};
use vstd::prelude::*;

verus! {

/// The exit codes go by name in the source: the number that a call of one
/// stands for, if the expression is such a call. `ExitSuccess` is nought
/// and `ExitFailure` is one, whatever the call is given.
pub open spec fn exit_code_of(expr: ExpressionView) -> Option<u64> {
    match expr {
        ExpressionView::Atomic(AtomicExprView::FnCall(call)) => if call.target == "ExitSuccess"@ {
            Some(0u64)
        } else if call.target == "ExitFailure"@ {
            Some(1u64)
        } else {
            None
        },
        _ => None,
    }
}

fn same_text(text: &String, word: &str) -> (r: bool)
    ensures
        r == (text@ == word@),
{
    let other = String::from_str(word);
    *text == other
}

/// Computes `exit_code_of`.
pub fn exit_code(expr: &Expression) -> (r: Option<u64>)
    ensures
        r == exit_code_of(expr.deep_view()),
{
    match expr {
        Expression::Atomic(AtomicExpr::FnCall(call)) => {
            proof {
                reveal_with_fuel(Expression::model, 2);
                assert(expr.deep_view() == ExpressionView::Atomic(
                    AtomicExprView::FnCall(call.deep_view()),
                ));
                assert(call.deep_view().target == call.target.name@);
            }
            if same_text(&call.target.name, "ExitSuccess") {
                Some(0)
            } else if same_text(&call.target.name, "ExitFailure") {
                Some(1)
            } else {
                None
            }
        },
        Expression::Atomic(_) => None,
        Expression::Compound(_) => None,
    }
}

} // verus!
