//! What each syntax-tree construct compiles to.
//!
//! These relations state, for a successful compilation, exactly which
//! instruction segment and which constants a construct appends: the
//! operand of every constant load, the short-circuit and branch skeletons
//! with their jump distances, the slot of every local, the `POP`s that
//! close a block.  The compiler's per-construct contracts (see
//! [`crate::compiler`]) promise them, so which code a program compiles to
//! is part of the contract, not only of the body.
//!
//! Sub-expression segments are bound existentially and constrained by the
//! sub-construct's own relation, mirroring the recursion of the grammar.

use vstd::prelude::*;

use crate::ast::Call;
use crate::ast::Declaration;
use crate::ast::DeclarationWithLineNo;
use crate::ast::Expr;
use crate::ast::FunDecl;
use crate::ast::IfStmt;
use crate::ast::LetDecl;
use crate::ast::Literal;
use crate::ast::Logical;
use crate::ast::ReturnStmt;
use crate::ast::Statement;
use crate::ast::WhileStmt;
use crate::compiler::Local;
use crate::compiler::number_lookup;
use crate::compiler::resolve_spec;
use crate::instr::Instr;
use crate::instr::decode_list;
use crate::instr::total_size;
use crate::token::TokenType;
use crate::value::Function;
use crate::value::Value;

verus! {

/// A trigger marker: names one choice of a bound segment or stack in the
/// relations below, so that a proof can introduce a witness by asserting
/// `segment(w)`.  It carries no constraint of its own.
pub open spec fn segment<A>(x: A) -> bool {
    true
}

/// The instruction a binary operator token compiles to, if any.
pub open spec fn binary_op_instr(t: TokenType) -> Option<Instr> {
    match t {
        TokenType::Minus => Some(Instr::Subtract),
        TokenType::Plus => Some(Instr::Add),
        TokenType::Slash => Some(Instr::Divide),
        TokenType::Star => Some(Instr::Multiply),
        TokenType::EqualEqual => Some(Instr::EqualEqual),
        TokenType::BangEqual => Some(Instr::BangEqual),
        TokenType::Less => Some(Instr::Less),
        TokenType::LessEqual => Some(Instr::LessEqual),
        TokenType::Greater => Some(Instr::Greater),
        TokenType::GreaterEqual => Some(Instr::GreaterEqual),
        _ => None,
    }
}

/// What a literal compiles to: a constant load for numbers (their bits
/// from the number table) and strings, `TRUE`/`FALSE` for the booleans;
/// `null` does not compile.
pub open spec fn lowers_literal(
    lit: Literal,
    numbers: Seq<(String, u64)>,
    cbase: int,
    code: Seq<Instr>,
    consts: Seq<Value>,
) -> bool {
    match lit {
        Literal::Number(s) => match number_lookup(numbers, s@) {
            Some(bits) => cbase < 256 && code == seq![Instr::Constant(cbase as u8)] && consts
                == seq![Value::Number(bits)],
            None => false,
        },
        Literal::Str(s) => cbase < 256 && code == seq![Instr::Constant(cbase as u8)] && consts
            == seq![Value::Str(s)],
        Literal::True => code == seq![Instr::True] && consts == Seq::<Value>::empty(),
        Literal::False => code == seq![Instr::False] && consts == Seq::<Value>::empty(),
        Literal::Null => false,
    }
}

/// What one expression compiles to: `code` is the instruction segment it
/// appends and `consts` the constants it appends to a pool already holding
/// `cbase` values; `locals` is the compiler's locals stack, read for
/// variable resolution.  Evaluating the segment leaves one value on the
/// stack.
pub open spec fn lowers_expr(
    e: Expr,
    numbers: Seq<(String, u64)>,
    locals: Seq<Local>,
    cbase: int,
    code: Seq<Instr>,
    consts: Seq<Value>,
) -> bool
    decreases e, 0int,
{
    match e {
        Expr::Literal(lit) => lowers_literal(lit, numbers, cbase, code, consts),
        Expr::Grouping(g) => lowers_expr(*g.expression, numbers, locals, cbase, code, consts),
        Expr::Unary(u) => {
            let op = match u.operator.typ {
                TokenType::Minus => Some(Instr::Negate),
                TokenType::Not => Some(Instr::Not),
                _ => None,
            };
            match op {
                Some(i) => exists|rc: Seq<Instr>|
                    #![trigger segment(rc)]
                    code == rc + seq![i] && lowers_expr(
                        *u.right,
                        numbers,
                        locals,
                        cbase,
                        rc,
                        consts,
                    ),
                None => false,
            }
        },
        Expr::Binary(b) => match binary_op_instr(b.operator.typ) {
            Some(i) => exists|lc: Seq<Instr>, lk: Seq<Value>, rc: Seq<Instr>, rk: Seq<Value>|
                #![trigger segment(lc), segment(lk), segment(rc), segment(rk)]
                {
                    &&& code == lc + rc + seq![i]
                    &&& consts == lk + rk
                    &&& lowers_expr(*b.left, numbers, locals, cbase, lc, lk)
                    &&& lowers_expr(
                        *b.right,
                        numbers,
                        locals,
                        cbase + lk.len(),
                        rc,
                        rk,
                    )
                },
            None => false,
        },
        Expr::Logical(lg) => {
            let jump = match lg.operator.typ {
                TokenType::And => Some(0int),
                TokenType::Or => Some(1int),
                _ => None,
            };
            match jump {
                Some(which) => exists|
                    lc: Seq<Instr>,
                    lk: Seq<Value>,
                    rc: Seq<Instr>,
                    rk: Seq<Value>,
                |
                    #![trigger segment(lc), segment(lk), segment(rc), segment(rk)]
                    {
                        let d = 1 + total_size(rc);
                        let j = if which == 0 {
                            Instr::JumpIfFalse(d as u16)
                        } else {
                            Instr::JumpIfTrue(d as u16)
                        };
                        &&& d <= 65535
                        &&& code == lc + seq![j, Instr::Pop] + rc
                        &&& consts == lk + rk
                        &&& lowers_expr(*lg.left, numbers, locals, cbase, lc, lk)
                        &&& lowers_expr(
                            *lg.right,
                            numbers,
                            locals,
                            cbase + lk.len(),
                            rc,
                            rk,
                        )
                    },
                None => false,
            }
        },
        Expr::Variable(v) => match resolve_spec(locals, v.name.lexeme@) {
            Some(slot) => code == seq![Instr::GetLocal(slot as u8)] && consts
                == Seq::<Value>::empty(),
            None => cbase < 256 && code == seq![Instr::GetGlobal(cbase as u8)] && consts
                == seq![Value::Str(v.name.lexeme)],
        },
        Expr::Assignment(a) => exists|vc: Seq<Instr>, vk: Seq<Value>|
            #![trigger segment(vc), segment(vk)]
            {
                &&& lowers_expr(*a.value, numbers, locals, cbase, vc, vk)
                &&& match resolve_spec(locals, a.name.lexeme@) {
                    Some(slot) => code == vc + seq![Instr::SetLocal(slot as u8)] && consts == vk,
                    None => cbase + vk.len() < 256 && code == vc + seq![
                        Instr::SetGlobal((cbase + vk.len()) as u8),
                    ] && consts == vk + seq![Value::Str(a.name.lexeme)],
                }
            },
        Expr::Call(c) => exists|fc: Seq<Instr>, fk: Seq<Value>, ac: Seq<Instr>, ak: Seq<Value>|
            #![trigger segment(fc), segment(fk), segment(ac), segment(ak)]
            {
                &&& c.arguments@.len() <= 255
                &&& code == fc + ac + seq![Instr::Call(c.arguments@.len() as u8)]
                &&& consts == fk + ak
                &&& lowers_expr(*c.callee, numbers, locals, cbase, fc, fk)
                &&& lowers_args(
                    c.arguments,
                    c.arguments@.len() as int,
                    numbers,
                    locals,
                    cbase + fk.len(),
                    ac,
                    ak,
                )
            },
        Expr::Get(_) => false,
        Expr::SetProp(_) => false,
    }
}

/// What the first `upto` arguments compile to: their segments in order,
/// each seeing the constants the ones before it added.
pub open spec fn lowers_args(
    args: Vec<Expr>,
    upto: int,
    numbers: Seq<(String, u64)>,
    locals: Seq<Local>,
    cbase: int,
    code: Seq<Instr>,
    consts: Seq<Value>,
) -> bool
    decreases args, upto,
{
    if upto == 0 {
        code == Seq::<Instr>::empty() && consts == Seq::<Value>::empty()
    } else if 0 < upto <= args@.len() {
        exists|pc: Seq<Instr>, pk: Seq<Value>, hc: Seq<Instr>, hk: Seq<Value>|
            #![trigger segment(pc), segment(pk), segment(hc), segment(hk)]
            {
                &&& code == pc + hc
                &&& consts == pk + hk
                &&& lowers_args(args, upto - 1, numbers, locals, cbase, pc, pk)
                &&& lowers_expr(
                    args@[upto - 1],
                    numbers,
                    locals,
                    cbase + pk.len(),
                    hc,
                    hk,
                )
            }
    } else {
        false
    }
}

/// What one statement compiles to.  Statements leave the locals stack as
/// they found it and their code is stack-neutral path by path.
pub open spec fn lowers_stmt(
    st: Statement,
    numbers: Seq<(String, u64)>,
    locals: Seq<Local>,
    depth: u8,
    cbase: int,
    code: Seq<Instr>,
    consts: Seq<Value>,
) -> bool
    decreases st, 0int,
{
    match st {
        Statement::ExprStmt(e) => exists|ec: Seq<Instr>|
            #![trigger segment(ec)]
            code == ec + seq![Instr::Pop] && lowers_expr(
                e,
                numbers,
                locals,
                cbase,
                ec,
                consts,
            ),
        Statement::PrintStmt(e) => exists|ec: Seq<Instr>|
            #![trigger segment(ec)]
            code == ec + seq![Instr::Print] && lowers_expr(
                e,
                numbers,
                locals,
                cbase,
                ec,
                consts,
            ),
        Statement::ReturnStmt(rs) => match rs.expr {
            Some(e) => exists|ec: Seq<Instr>|
                #![trigger segment(ec)]
                code == ec + seq![Instr::Return] && lowers_expr(
                    e,
                    numbers,
                    locals,
                    cbase,
                    ec,
                    consts,
                ),
            None => code == seq![Instr::False, Instr::Return] && consts
                == Seq::<Value>::empty(),
        },
        Statement::IfStmt(s) => exists|
            cc: Seq<Instr>,
            ck: Seq<Value>,
            tc: Seq<Instr>,
            tk: Seq<Value>,
            ec: Seq<Instr>,
            ek: Seq<Value>,
        |
            #![trigger segment(cc), segment(ck), segment(tc), segment(tk), segment(ec), segment(ek)]
            {
                let d1 = total_size(tc) + 4;
                let d2 = total_size(ec) + 1;
                &&& d1 <= 65535
                &&& d2 <= 65535
                &&& code == cc + seq![Instr::JumpIfFalse(d1 as u16), Instr::Pop] + tc + seq![
                    Instr::Jump(d2 as u16),
                    Instr::Pop,
                ] + ec
                &&& consts == ck + tk + ek
                &&& lowers_expr(s.condition, numbers, locals, cbase, cc, ck)
                &&& lowers_stmt(
                    *s.then_branch,
                    numbers,
                    locals,
                    depth,
                    cbase + ck.len(),
                    tc,
                    tk,
                )
                &&& lowers_opt_stmt(
                    s.else_branch,
                    numbers,
                    locals,
                    depth,
                    cbase + ck.len() + tk.len(),
                    ec,
                    ek,
                )
            },
        Statement::WhileStmt(s) => exists|
            cc: Seq<Instr>,
            ck: Seq<Value>,
            bc: Seq<Instr>,
            bk: Seq<Value>,
        |
            #![trigger segment(cc), segment(ck), segment(bc), segment(bk)]
            {
                let d1 = total_size(bc) + 4;
                let dl = total_size(cc) + total_size(bc) + 7;
                &&& d1 <= 65535
                &&& dl <= 65535
                &&& code == cc + seq![Instr::JumpIfFalse(d1 as u16), Instr::Pop] + bc + seq![
                    Instr::Loop(dl as u16),
                    Instr::Pop,
                ]
                &&& consts == ck + bk
                &&& lowers_expr(s.condition, numbers, locals, cbase, cc, ck)
                &&& lowers_stmt(
                    *s.body,
                    numbers,
                    locals,
                    depth,
                    cbase + ck.len(),
                    bc,
                    bk,
                )
            },
        Statement::Block(ds) => exists|dc: Seq<Instr>, locals_out: Seq<Local>|
            #![trigger segment(dc), segment(locals_out)]
            {
                let nb = locals_out.len() - locals.len();
                &&& depth < 255
                &&& lowers_decls(
                    ds,
                    ds@.len() as int,
                    numbers,
                    locals,
                    (depth + 1) as u8,
                    cbase,
                    dc,
                    consts,
                    locals_out,
                )
                &&& nb <= 255
                &&& code == dc + if nb == 1 {
                    seq![Instr::Pop]
                } else if nb > 1 {
                    seq![Instr::PopN(nb as u8)]
                } else {
                    Seq::<Instr>::empty()
                }
            },
    }
}

/// What an optional statement compiles to: nothing when absent.
pub open spec fn lowers_opt_stmt(
    opt: Option<Box<Statement>>,
    numbers: Seq<(String, u64)>,
    locals: Seq<Local>,
    depth: u8,
    cbase: int,
    code: Seq<Instr>,
    consts: Seq<Value>,
) -> bool
    decreases opt, 1int,
{
    match opt {
        Some(st) => lowers_stmt(*st, numbers, locals, depth, cbase, code, consts),
        None => code == Seq::<Instr>::empty() && consts == Seq::<Value>::empty(),
    }
}

/// What one declaration compiles to; `locals_out` is the locals stack it
/// leaves behind (a `let` or `fun` inside a block appends one entry).
pub open spec fn lowers_decl(
    d: Declaration,
    numbers: Seq<(String, u64)>,
    locals: Seq<Local>,
    depth: u8,
    cbase: int,
    code: Seq<Instr>,
    consts: Seq<Value>,
    locals_out: Seq<Local>,
) -> bool
    decreases d, 0int,
{
    match d {
        Declaration::Statement(st) => locals_out == locals && lowers_stmt(
            st,
            numbers,
            locals,
            depth,
            cbase,
            code,
            consts,
        ),
        Declaration::LetDecl(l) => lowers_let(
            l,
            numbers,
            locals,
            depth,
            cbase,
            code,
            consts,
            locals_out,
        ),
        Declaration::FunDecl(f) => lowers_fun(
            f,
            numbers,
            locals,
            depth,
            cbase,
            code,
            consts,
            locals_out,
        ),
    }
}

/// What `let` compiles to: the initializer, then a named global
/// definition at top level, or a new local slot — no opcode — inside a
/// block.  A `let` without initializer does not compile.
pub open spec fn lowers_let(
    l: LetDecl,
    numbers: Seq<(String, u64)>,
    locals: Seq<Local>,
    depth: u8,
    cbase: int,
    code: Seq<Instr>,
    consts: Seq<Value>,
    locals_out: Seq<Local>,
) -> bool
    decreases l, 0int,
{
    match l.initializer {
        Some(e) => exists|ic: Seq<Instr>, ik: Seq<Value>|
            #![trigger segment(ic), segment(ik)]
            {
                &&& lowers_expr(e, numbers, locals, cbase, ic, ik)
                &&& if depth > 0 {
                    code == ic && consts == ik && locals_out == locals.push(
                        (Local { name: l.identifier.lexeme, depth }),
                    )
                } else {
                    &&& cbase + ik.len() < 256
                    &&& code == ic + seq![Instr::DefineGlobal((cbase + ik.len()) as u8)]
                    &&& consts == ik + seq![Value::Str(l.identifier.lexeme)]
                    &&& locals_out == locals
                }
            },
        None => false,
    }
}

/// What `fun` compiles to: a function object of the declared name and
/// arity — its own chunk is built by a sub-compiler, whose contract
/// (see [`crate::compiler::Compiler`]) governs the body's code — loaded
/// as a constant here and bound like a `let`.
pub open spec fn lowers_fun(
    f: FunDecl,
    numbers: Seq<(String, u64)>,
    locals: Seq<Local>,
    depth: u8,
    cbase: int,
    code: Seq<Instr>,
    consts: Seq<Value>,
    locals_out: Seq<Local>,
) -> bool
    decreases f, 0int,
{
    exists|func: std::rc::Rc<Function>|
        #![trigger segment(func)]
        {
            &&& func.arity == f.params@.len()
            &&& func.name == f.name.lexeme
            &&& cbase < 256
            &&& if depth > 0 {
                &&& code == seq![Instr::Constant(cbase as u8)]
                &&& consts == seq![Value::Function(func)]
                &&& locals_out == locals.push((Local { name: f.name.lexeme, depth }))
            } else {
                &&& cbase + 1 < 256
                &&& code == seq![
                    Instr::Constant(cbase as u8),
                    Instr::DefineGlobal((cbase + 1) as u8),
                ]
                &&& consts == seq![Value::Function(func), Value::Str(f.name.lexeme)]
                &&& locals_out == locals
            }
        }
}

/// How a compiled body ends: the script with `EOF`, a user function with
/// an implicit `return false`.
pub open spec fn tail_instrs(t: crate::compiler::FunctionType) -> Seq<Instr> {
    match t {
        crate::compiler::FunctionType::Script => seq![Instr::Eof],
        crate::compiler::FunctionType::Function(_) => seq![Instr::False, Instr::Return],
    }
}

/// What the first `upto` declarations compile to: their segments in
/// order, the locals stack threaded through from one to the next.
pub open spec fn lowers_decls(
    ds: Vec<DeclarationWithLineNo>,
    upto: int,
    numbers: Seq<(String, u64)>,
    locals: Seq<Local>,
    depth: u8,
    cbase: int,
    code: Seq<Instr>,
    consts: Seq<Value>,
    locals_out: Seq<Local>,
) -> bool
    decreases ds, upto,
{
    if upto == 0 {
        code == Seq::<Instr>::empty() && consts == Seq::<Value>::empty() && locals_out == locals
    } else if 0 < upto <= ds@.len() {
        exists|pc: Seq<Instr>, pk: Seq<Value>, mid: Seq<Local>, hc: Seq<Instr>, hk: Seq<Value>|
            #![trigger segment(pc), segment(pk), segment(mid), segment(hc), segment(hk)]
            {
                &&& code == pc + hc
                &&& consts == pk + hk
                &&& lowers_decls(ds, upto - 1, numbers, locals, depth, cbase, pc, pk, mid)
                &&& lowers_decl(
                    ds@[upto - 1].decl,
                    numbers,
                    mid,
                    depth,
                    cbase + pk.len(),
                    hc,
                    hk,
                    locals_out,
                )
            }
    } else {
        false
    }
}

} // verus!
