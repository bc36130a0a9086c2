//! Control flow over checked code: whether a block always ends by leaving
//! (`return`, `break`, `continue`, `panic`) and whether every path returns a value.
use vstd::prelude::*;
use super::{TypedBlock, TypedStmt, TypedExpr, TypedExprKind, TypedMatchArm, TypedStringPart, TypedIsTarget, TypedAssignTarget};
use super::checker::TypeChecker;

verus! {

/// The block's last statement leaves it: `return`, an error return,
/// `break`, `continue`, or a call of `panic`.
pub open spec fn diverges(b: TypedBlock) -> bool {
    b.stmts@.len() > 0 && match b.stmts@.last() {
        TypedStmt::Return(_) | TypedStmt::ReturnError(_) | TypedStmt::Break | TypedStmt::Continue => true,
        TypedStmt::Expr(e) => e.kind is Panic,
        _ => false,
    }
}

/// Every path through the block ends in a `return` of a value (or an error
/// return, or a `loop` that no `break` leaves, which can only be left by
/// returning).
pub open spec fn block_returns(b: TypedBlock) -> bool
    decreases b,
{
    if b.stmts@.len() == 0 {
        false
    } else {
        match b.stmts@.last() {
            TypedStmt::Return(v) => v is Some,
            TypedStmt::ReturnError(_) => true,
            TypedStmt::Expr(e) => match e.kind {
                TypedExprKind::If(_, then_block, else_expr) => match else_expr {
                    Some(x) => block_returns(then_block) && expr_returns(*x),
                    None => false,
                },
                TypedExprKind::Match(_, arms) => arms@.len() > 0 && arms_return(arms@),
                TypedExprKind::Block(inner) => block_returns(inner),
                TypedExprKind::Loop(body) => no_break_block(body),
                _ => false,
            },
            _ => false,
        }
    }
}

/// No `break` in the expression leaves an enclosing loop: breaks inside a
/// nested loop leave that loop, and a closure's body is not run here.
pub open spec fn no_break_expr(e: TypedExpr) -> bool
    decreases e,
{
    match e.kind {
        TypedExprKind::InterpolatedString(parts) => forall|i: int|
            0 <= i < parts@.len() ==> match #[trigger] parts@[i] {
                TypedStringPart::Expr(x) => no_break_expr(x),
                TypedStringPart::Literal(_) => true,
            },
        TypedExprKind::BinOp(l, _, r) => no_break_expr(*l) && no_break_expr(*r),
        TypedExprKind::Index(l, r) => no_break_expr(*l) && no_break_expr(*r),
        TypedExprKind::Range(l, r) => no_break_expr(*l) && no_break_expr(*r),
        TypedExprKind::UnaryOp(_, x) => no_break_expr(*x),
        TypedExprKind::FieldAccess(x, _) => no_break_expr(*x),
        TypedExprKind::ErrorLit(x) => no_break_expr(*x),
        TypedExprKind::As(x, _) => no_break_expr(*x),
        TypedExprKind::AsSafe(x, _) => no_break_expr(*x),
        TypedExprKind::Try(x) => no_break_expr(*x),
        TypedExprKind::Is(x, t) => no_break_expr(*x) && match t {
            TypedIsTarget::Expr(y) => no_break_expr(*y),
            _ => true,
        },
        TypedExprKind::Call(f, args) => no_break_expr(*f) && forall|i: int| 0 <= i < args@.len() ==> no_break_expr(#[trigger] args@[i]),
        TypedExprKind::MethodCall(o, _, args) => no_break_expr(*o) && forall|i: int|
            0 <= i < args@.len() ==> no_break_expr(#[trigger] args@[i]),
        TypedExprKind::StaticMethodCall(_, _, args) => forall|i: int| 0 <= i < args@.len() ==> no_break_expr(#[trigger] args@[i]),
        TypedExprKind::ArrayLit(args) => forall|i: int| 0 <= i < args@.len() ==> no_break_expr(#[trigger] args@[i]),
        TypedExprKind::TupleLit(args) => forall|i: int| 0 <= i < args@.len() ==> no_break_expr(#[trigger] args@[i]),
        TypedExprKind::EnumVariant(_, _, args) => forall|i: int| 0 <= i < args@.len() ==> no_break_expr(#[trigger] args@[i]),
        TypedExprKind::Panic(args) => forall|i: int| 0 <= i < args@.len() ==> no_break_expr(#[trigger] args@[i]),
        TypedExprKind::MapLit(ts) => forall|i: int|
            0 <= i < ts@.len() ==> no_break_expr((#[trigger] ts@[i]).0) && no_break_expr(ts@[i].1),
        TypedExprKind::StructLit(_, fs, sp) => (forall|i: int| 0 <= i < fs@.len() ==> no_break_expr((#[trigger] fs@[i]).1))
            && match sp {
            Some(p) => no_break_expr(*p.0),
            None => true,
        },
        TypedExprKind::If(c, tb, te) => no_break_expr(*c) && no_break_block(tb) && match te {
            Some(x) => no_break_expr(*x),
            None => true,
        },
        TypedExprKind::Match(sc, arms) => no_break_expr(*sc) && forall|i: int|
            0 <= i < arms@.len() ==> no_break_expr((#[trigger] arms@[i]).body),
        TypedExprKind::For(_, _, it, _) => no_break_expr(*it),
        TypedExprKind::While(c, _) => no_break_expr(*c),
        TypedExprKind::Guard(_, c, b) => no_break_expr(*c) && no_break_block(b),
        TypedExprKind::Block(b) => no_break_block(b),
        _ => true,
    }
}

/// No statement of the block has a `break` that leaves an enclosing loop.
pub open spec fn no_break_block(b: TypedBlock) -> bool
    decreases b,
{
    forall|i: int| 0 <= i < b.stmts@.len() ==> no_break_stmt(#[trigger] b.stmts@[i])
}

/// The statement is no `break`, and none of its expressions holds one that
/// leaves an enclosing loop.
pub open spec fn no_break_stmt(s: TypedStmt) -> bool
    decreases s,
{
    match s {
        TypedStmt::Break => false,
        TypedStmt::Let(d) => no_break_expr(d.value),
        TypedStmt::LetTuple(_, v) => no_break_expr(v),
        TypedStmt::Assign(t, v) => no_break_expr(*v) && match *t {
            TypedAssignTarget::Field(o, _, _) => no_break_expr(o),
            TypedAssignTarget::Index(o, i, _) => no_break_expr(o) && no_break_expr(i),
            TypedAssignTarget::Variable(_, _) => true,
        },
        TypedStmt::Return(v) => match v {
            Some(e) => no_break_expr(e),
            None => true,
        },
        TypedStmt::ReturnError(e) => no_break_expr(e),
        TypedStmt::Expr(e) => no_break_expr(e),
        TypedStmt::Continue => true,
    }
}

/// Whether a list of expressions holds no `break` that leaves a loop.
#[verifier::loop_isolation(false)]
pub fn exprs_no_break(v: &Vec<TypedExpr>) -> (r: bool)
    ensures
        r == forall|i: int| 0 <= i < v@.len() ==> no_break_expr(#[trigger] v@[i]),
    decreases v, 1nat,
{
    let mut i: usize = 0;
    while i < v.len()
        invariant
            i <= v@.len(),
            forall|j: int| 0 <= j < i ==> no_break_expr(#[trigger] v@[j]),
        decreases v.len() - i,
    {
        proof {
            assert(decreases_to!(*v => v@[i as int]));
        }
        if !expr_no_break(&v[i]) {
            return false;
        }
        i = i + 1;
    }
    true
}

/// Whether the block holds no `break` that leaves an enclosing loop.
#[verifier::loop_isolation(false)]
pub fn block_no_break(b: &TypedBlock) -> (r: bool)
    ensures
        r == no_break_block(*b),
    decreases b, 1nat,
{
    let mut i: usize = 0;
    while i < b.stmts.len()
        invariant
            i <= b.stmts@.len(),
            forall|j: int| 0 <= j < i ==> no_break_stmt(#[trigger] b.stmts@[j]),
        decreases b.stmts.len() - i,
    {
        proof {
            assert(decreases_to!(b.stmts => b.stmts@[i as int]));
        }
        if !stmt_no_break(&b.stmts[i]) {
            return false;
        }
        i = i + 1;
    }
    true
}

/// Whether the statement holds no `break` that leaves an enclosing loop.
pub fn stmt_no_break(s: &TypedStmt) -> (r: bool)
    ensures
        r == no_break_stmt(*s),
    decreases s, 1nat,
{
    match s {
        TypedStmt::Break => false,
        TypedStmt::Let(d) => expr_no_break(&d.value),
        TypedStmt::LetTuple(_, v) => expr_no_break(v),
        TypedStmt::Assign(t, v) => {
            if !expr_no_break(v) {
                return false;
            }
            match &**t {
                TypedAssignTarget::Field(o, _, _) => expr_no_break(o),
                TypedAssignTarget::Index(o, i, _) => expr_no_break(o) && expr_no_break(i),
                TypedAssignTarget::Variable(_, _) => true,
            }
        },
        TypedStmt::Return(v) => match v {
            Some(e) => expr_no_break(e),
            None => true,
        },
        TypedStmt::ReturnError(e) => expr_no_break(e),
        TypedStmt::Expr(e) => expr_no_break(e),
        TypedStmt::Continue => true,
    }
}

/// Whether the expression holds no `break` that leaves an enclosing loop.
#[verifier::loop_isolation(false)]
pub fn expr_no_break(e: &TypedExpr) -> (r: bool)
    ensures
        r == no_break_expr(*e),
    decreases e, 1nat,
{
    match &e.kind {
        TypedExprKind::InterpolatedString(parts) => {
            let mut i: usize = 0;
            while i < parts.len()
                invariant
                    i <= parts@.len(),
                    forall|j: int| 0 <= j < i ==> match #[trigger] parts@[j] {
                        TypedStringPart::Expr(x) => no_break_expr(x),
                        TypedStringPart::Literal(_) => true,
                    },
                decreases parts.len() - i,
            {
                proof {
                    assert(decreases_to!(*parts => parts@[i as int]));
                }
                match &parts[i] {
                    TypedStringPart::Expr(x) => {
                        if !expr_no_break(x) {
                            return false;
                        }
                    },
                    TypedStringPart::Literal(_) => {},
                }
                i = i + 1;
            }
            true
        },
        TypedExprKind::BinOp(l, _, r) => expr_no_break(l) && expr_no_break(r),
        TypedExprKind::Index(l, r) => expr_no_break(l) && expr_no_break(r),
        TypedExprKind::Range(l, r) => expr_no_break(l) && expr_no_break(r),
        TypedExprKind::UnaryOp(_, x) => expr_no_break(x),
        TypedExprKind::FieldAccess(x, _) => expr_no_break(x),
        TypedExprKind::ErrorLit(x) => expr_no_break(x),
        TypedExprKind::As(x, _) => expr_no_break(x),
        TypedExprKind::AsSafe(x, _) => expr_no_break(x),
        TypedExprKind::Try(x) => expr_no_break(x),
        TypedExprKind::Is(x, t) => expr_no_break(x) && match t {
            TypedIsTarget::Expr(y) => expr_no_break(y),
            _ => true,
        },
        TypedExprKind::Call(f, args) => expr_no_break(f) && exprs_no_break(args),
        TypedExprKind::MethodCall(o, _, args) => expr_no_break(o) && exprs_no_break(args),
        TypedExprKind::StaticMethodCall(_, _, args) => exprs_no_break(args),
        TypedExprKind::ArrayLit(args) => exprs_no_break(args),
        TypedExprKind::TupleLit(args) => exprs_no_break(args),
        TypedExprKind::EnumVariant(_, _, args) => exprs_no_break(args),
        TypedExprKind::Panic(args) => exprs_no_break(args),
        TypedExprKind::MapLit(ts) => {
            let mut i: usize = 0;
            while i < ts.len()
                invariant
                    i <= ts@.len(),
                    forall|j: int| 0 <= j < i ==> no_break_expr((#[trigger] ts@[j]).0) && no_break_expr(ts@[j].1),
                decreases ts.len() - i,
            {
                proof {
                    assert(decreases_to!(*ts => ts@[i as int]));
                }
                if !expr_no_break(&ts[i].0) || !expr_no_break(&ts[i].1) {
                    return false;
                }
                i = i + 1;
            }
            true
        },
        TypedExprKind::StructLit(_, fs, sp) => {
            let mut i: usize = 0;
            while i < fs.len()
                invariant
                    i <= fs@.len(),
                    forall|j: int| 0 <= j < i ==> no_break_expr((#[trigger] fs@[j]).1),
                decreases fs.len() - i,
            {
                proof {
                    assert(decreases_to!(*fs => fs@[i as int]));
                }
                if !expr_no_break(&fs[i].1) {
                    return false;
                }
                i = i + 1;
            }
            match sp {
                Some(p) => expr_no_break(&p.0),
                None => true,
            }
        },
        TypedExprKind::If(c, tb, te) => {
            if !expr_no_break(c) || !block_no_break(tb) {
                return false;
            }
            match te {
                Some(x) => expr_no_break(x),
                None => true,
            }
        },
        TypedExprKind::Match(sc, arms) => {
            if !expr_no_break(sc) {
                return false;
            }
            let mut i: usize = 0;
            while i < arms.len()
                invariant
                    i <= arms@.len(),
                    forall|j: int| 0 <= j < i ==> no_break_expr((#[trigger] arms@[j]).body),
                decreases arms.len() - i,
            {
                proof {
                    assert(decreases_to!(*arms => arms@[i as int]));
                }
                if !expr_no_break(&arms[i].body) {
                    return false;
                }
                i = i + 1;
            }
            true
        },
        TypedExprKind::For(_, _, it, _) => expr_no_break(it),
        TypedExprKind::While(c, _) => expr_no_break(c),
        TypedExprKind::Guard(_, c, b) => expr_no_break(c) && block_no_break(b),
        TypedExprKind::Block(b) => block_no_break(b),
        _ => true,
    }
}

/// Every path through an expression that ends a block returns.
pub open spec fn expr_returns(e: TypedExpr) -> bool
    decreases e,
{
    match e.kind {
        TypedExprKind::Block(b) => block_returns(b),
        TypedExprKind::If(_, then_block, else_expr) => match else_expr {
            Some(x) => block_returns(then_block) && expr_returns(*x),
            None => false,
        },
        TypedExprKind::Match(_, arms) => arms@.len() > 0 && arms_return(arms@),
        _ => false,
    }
}

/// Every arm's body returns.
pub open spec fn arms_return(arms: Seq<TypedMatchArm>) -> bool
    decreases arms,
{
    if arms.len() == 0 {
        true
    } else {
        arms_return(arms.drop_last()) && expr_returns(arms.last().body)
    }
}

impl TypeChecker {
    /// Whether the block's last statement leaves it.
    pub fn block_diverges(block: &TypedBlock) -> (r: bool)
        ensures
            r == diverges(*block),
    {
        let n = block.stmts.len();
        if n == 0 {
            return false;
        }
        match &block.stmts[n - 1] {
            TypedStmt::Return(_) | TypedStmt::ReturnError(_) | TypedStmt::Break | TypedStmt::Continue => true,
            TypedStmt::Expr(e) => matches!(e.kind, TypedExprKind::Panic(_)),
            _ => false,
        }
    }

    /// Whether every path through the block returns a value.
    pub fn block_always_returns(&self, block: &TypedBlock) -> (r: bool)
        ensures
            r == block_returns(*block),
        decreases block, 1nat,
    {
        let n = block.stmts.len();
        if n == 0 {
            return false;
        }
        proof {
            assert(decreases_to!(block.stmts => block.stmts@[n - 1]));
        }
        match &block.stmts[n - 1] {
            TypedStmt::Return(v) => v.is_some(),
            TypedStmt::ReturnError(_) => true,
            TypedStmt::Expr(e) => match &e.kind {
                TypedExprKind::If(_, then_block, else_expr) => match else_expr {
                    Some(x) => self.block_always_returns(then_block) && self.expr_always_returns(x),
                    None => false,
                },
                TypedExprKind::Match(_, arms) => arms.len() > 0 && self.arms_always_return(arms),
                TypedExprKind::Block(inner) => self.block_always_returns(inner),
                TypedExprKind::Loop(body) => block_no_break(body),
                _ => false,
            },
            _ => false,
        }
    }

    /// Whether every path through an expression that ends a block returns.
    pub fn expr_always_returns(&self, expr: &TypedExpr) -> (r: bool)
        ensures
            r == expr_returns(*expr),
        decreases expr, 1nat,
    {
        match &expr.kind {
            TypedExprKind::Block(b) => self.block_always_returns(b),
            TypedExprKind::If(_, then_block, else_expr) => match else_expr {
                Some(x) => self.block_always_returns(then_block) && self.expr_always_returns(x),
                None => false,
            },
            TypedExprKind::Match(_, arms) => arms.len() > 0 && self.arms_always_return(arms),
            _ => false,
        }
    }

    #[verifier::loop_isolation(false)]
    fn arms_always_return(&self, arms: &Vec<TypedMatchArm>) -> (r: bool)
        ensures
            r == arms_return(arms@),
        decreases arms, 1nat,
    {
        let mut i: usize = 0;
        while i < arms.len()
            invariant
                i <= arms@.len(),
                arms_return(arms@.take(i as int)),
            decreases arms.len() - i,
        {
            proof {
                assert(decreases_to!(*arms => arms@[i as int]));
            }
            assert(arms@.take(i + 1).drop_last() =~= arms@.take(i as int));
            if !self.expr_always_returns(&arms[i].body) {
                proof {
                    lemma_arms_return_prefix(arms@, i + 1);
                }
                return false;
            }
            i = i + 1;
        }
        assert(arms@.take(i as int) =~= arms@);
        true
    }
}

/// An arm that does not return makes the whole list fail.
pub proof fn lemma_arms_return_prefix(arms: Seq<TypedMatchArm>, n: int)
    requires
        0 <= n <= arms.len(),
        !arms_return(arms.take(n)),
    ensures
        !arms_return(arms),
    decreases arms.len() - n,
{
    if n < arms.len() {
        assert(arms.take(n + 1).drop_last() =~= arms.take(n));
        lemma_arms_return_prefix(arms, n + 1);
    } else {
        assert(arms.take(n) =~= arms);
    }
}

} // verus!
