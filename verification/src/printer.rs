//! A pretty-printer for expressions: parenthesized prefix form, as in
//! `(* (- 123) (group 45.67))`.

use vstd::prelude::*;

use crate::ast::Assignment;
use crate::ast::Binary;
use crate::ast::Call;
use crate::ast::Expr;
use crate::ast::Get;
use crate::ast::Grouping;
use crate::ast::Literal;
use crate::ast::Logical;
use crate::ast::SetProp;
use crate::ast::Unary;

verus! {

/// Renders an expression in parenthesized prefix form.
pub fn pretty_print(expr: &Expr) -> (r: String)
    decreases *expr,
{
    match expr {
        Expr::Literal(lit) => pretty_print_litteral(lit),
        Expr::Grouping(group) => pretty_print_grouping(group),
        Expr::Unary(unary) => pretty_print_unary(unary),
        Expr::Binary(binary) => pretty_print_binary(binary),
        Expr::Variable(v) => v.name.lexeme.clone(),
        Expr::Assignment(assignment) => pretty_print_assignment(assignment),
        Expr::Logical(logical) => pretty_print_logical(logical),
        Expr::Call(call) => pretty_print_call(call),
        Expr::Get(get) => pretty_print_get(get),
        Expr::SetProp(set_prop) => pretty_print_set(set_prop),
    }
}

/// A number or string literal prints its text, booleans print themselves,
/// and the null literal prints `nil`.
fn pretty_print_litteral(literal: &Literal) -> (r: String)
    decreases *literal,
{
    match literal {
        Literal::Number(n) => n.clone(),
        Literal::Str(s) => s.clone(),
        Literal::True => String::from_str("true"),
        Literal::False => String::from_str("false"),
        Literal::Null => String::from_str("nil"),
    }
}

fn pretty_print_grouping(group: &Grouping) -> (r: String)
    decreases *group,
{
    let mut s = String::from_str("(group ");
    let inner = pretty_print(&*group.expression);
    s.append(inner.as_str());
    s.append(")");
    s
}

fn pretty_print_unary(unary: &Unary) -> (r: String)
    decreases *unary,
{
    let mut s = String::from_str("(");
    s.append(unary.operator.lexeme.as_str());
    s.append(" ");
    let right = pretty_print(&*unary.right);
    s.append(right.as_str());
    s.append(")");
    s
}

fn pretty_print_binary(binary: &Binary) -> (r: String)
    decreases *binary,
{
    let mut s = String::from_str("(");
    s.append(binary.operator.lexeme.as_str());
    s.append(" ");
    let left = pretty_print(&*binary.left);
    s.append(left.as_str());
    s.append(" ");
    let right = pretty_print(&*binary.right);
    s.append(right.as_str());
    s.append(")");
    s
}

fn pretty_print_logical(logical: &Logical) -> (r: String)
    decreases *logical,
{
    let mut s = String::from_str("(");
    s.append(logical.operator.lexeme.as_str());
    s.append(" ");
    let left = pretty_print(&*logical.left);
    s.append(left.as_str());
    s.append(" ");
    let right = pretty_print(&*logical.right);
    s.append(right.as_str());
    s.append(")");
    s
}

fn pretty_print_assignment(assignment: &Assignment) -> (r: String)
    decreases *assignment,
{
    let mut s = String::from_str("(= ");
    s.append(assignment.name.lexeme.as_str());
    s.append(" ");
    let value = pretty_print(&*assignment.value);
    s.append(value.as_str());
    s.append(")");
    s
}

fn pretty_print_call(call: &Call) -> (r: String)
    decreases *call,
{
    let mut s = String::from_str("(call ");
    let callee = pretty_print(&*call.callee);
    s.append(callee.as_str());
    s.append(")");
    s
}

fn pretty_print_get(get: &Get) -> (r: String)
    decreases *get,
{
    let mut s = String::from_str("(get ");
    let object = pretty_print(&*get.object);
    s.append(object.as_str());
    s.append(" ");
    s.append(get.name.lexeme.as_str());
    s.append(")");
    s
}

fn pretty_print_set(set_prop: &SetProp) -> (r: String)
    decreases *set_prop,
{
    let mut s = String::from_str("(set ");
    let object = pretty_print(&*set_prop.object);
    s.append(object.as_str());
    s.append(" ");
    s.append(set_prop.name.lexeme.as_str());
    s.append(" ");
    let value = pretty_print(&*set_prop.value);
    s.append(value.as_str());
    s.append(")");
    s
}

} // verus!
