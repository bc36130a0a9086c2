//! Which mutable variables are captured by closures. A mutable variable that
//! some closure of the function refers to may change at any call, so `is`
//! checks on it must not narrow its type.
use vstd::prelude::*;
use crate::ast::{Block, Stmt, StmtKind, Expr, ExprKind, AssignTarget, StringPart, Param, MatchArm};
use crate::text::str_eq;
use super::{Type, Table};
use super::suggest::views_of;

verus! {

/// Whether a list of names holds `s`.
pub fn names_contain(v: &Vec<String>, s: &str) -> (r: bool)
    ensures
        r == views_of(v@).contains(s@),
{
    let mut i: usize = 0;
    while i < v.len()
        invariant
            i <= v@.len(),
            forall|j: int| 0 <= j < i ==> v@[j]@ != s@,
        decreases v.len() - i,
    {
        if str_eq(v[i].as_str(), s) {
            assert(views_of(v@)[i as int] == s@);
            return true;
        }
        i = i + 1;
    }
    assert forall|j: int| 0 <= j < views_of(v@).len() implies views_of(v@)[j] != s@ by {
        assert(views_of(v@)[j] == v@[j]@);
    }
    false
}

/// Adds a name to a list of distinct names.
pub fn add_name(v: &mut Vec<String>, s: &str)
    ensures
        forall|x: Seq<char>|
            #![trigger views_of(final(v)@).contains(x)]
            #![trigger views_of(old(v)@).contains(x)]
            views_of(final(v)@).contains(x) <==> (views_of(old(v)@).contains(x) || x == s@),
{
    if !names_contain(v, s) {
        let ghost before = views_of(v@);
        v.push(s.to_string());
        assert(views_of(v@) =~= before.push(s@));
        proof {
            lemma_contains_push(before, s@);
        }
    }
}

/// What a sequence holds after a push.
pub proof fn lemma_contains_push(a: Seq<Seq<char>>, y: Seq<char>)
    ensures
        forall|x: Seq<char>| a.push(y).contains(x) <==> (a.contains(x) || x == y),
{
    assert forall|x: Seq<char>| a.push(y).contains(x) <==> (a.contains(x) || x == y) by {
        if a.contains(x) {
            let i = choose|i: int| 0 <= i < a.len() && a[i] == x;
            assert(a.push(y)[i] == x);
        }
        if x == y {
            assert(a.push(y)[a.len() as int] == x);
        }
        if a.push(y).contains(x) {
            let i = choose|i: int| 0 <= i < a.push(y).len() && a.push(y)[i] == x;
            if i < a.len() {
                assert(a[i] == x);
            }
        }
    }
}

/// What a concatenation holds.
pub proof fn lemma_contains_concat(a: Seq<Seq<char>>, b: Seq<Seq<char>>)
    ensures
        forall|x: Seq<char>| (a + b).contains(x) <==> (a.contains(x) || b.contains(x)),
{
    assert forall|x: Seq<char>| (a + b).contains(x) <==> (a.contains(x) || b.contains(x)) by {
        if a.contains(x) {
            let i = choose|i: int| 0 <= i < a.len() && a[i] == x;
            assert((a + b)[i] == x);
        }
        if b.contains(x) {
            let i = choose|i: int| 0 <= i < b.len() && b[i] == x;
            assert((a + b)[a.len() + i] == x);
        }
        if (a + b).contains(x) {
            let i = choose|i: int| 0 <= i < (a + b).len() && (a + b)[i] == x;
            if i < a.len() {
                assert(a[i] == x);
            } else {
                assert(b[i - a.len()] == x);
            }
        }
    }
}

/// The names declared with `let mut` in a block, including nested blocks of
/// `if`, `for`, `while`, `loop` and plain blocks (but not of closures).
pub open spec fn mut_decls_block(b: Block) -> Seq<Seq<char>>
    decreases b,
{
    mut_decls_stmts(b.stmts@)
}

pub open spec fn mut_decls_stmts(stmts: Seq<Stmt>) -> Seq<Seq<char>>
    decreases stmts,
{
    if stmts.len() == 0 {
        Seq::empty()
    } else {
        mut_decls_stmts(stmts.drop_last()) + match stmts.last().kind {
            StmtKind::Let(d) => if d.mutable {
                seq![d.name@]
            } else {
                Seq::empty()
            },
            StmtKind::Expr(e) => mut_decls_expr(e),
            _ => Seq::empty(),
        }
    }
}

pub open spec fn mut_decls_expr(e: Expr) -> Seq<Seq<char>>
    decreases e,
{
    match e.kind {
        ExprKind::If(_, then_block, else_expr) => mut_decls_block(then_block) + match else_expr {
            Some(x) => mut_decls_expr(*x),
            None => Seq::empty(),
        },
        ExprKind::For(_, _, _, body) => mut_decls_block(body),
        ExprKind::While(_, body) => mut_decls_block(body),
        ExprKind::Loop(body) => mut_decls_block(body),
        ExprKind::Block(body) => mut_decls_block(body),
        _ => Seq::empty(),
    }
}

/// Adds the names declared with `let mut` in the block.
pub fn collect_mut_declarations(block: &Block, mutable_vars: &mut Vec<String>)
    ensures
        forall|x: Seq<char>|
            #![trigger views_of(final(mutable_vars)@).contains(x)]
            #![trigger views_of(old(mutable_vars)@).contains(x)]
            views_of(final(mutable_vars)@).contains(x) <==> (views_of(old(mutable_vars)@).contains(x)
            || mut_decls_block(*block).contains(x)),
    decreases block, 1nat,
{
    let ghost start = views_of(mutable_vars@);
    let mut i: usize = 0;
    while i < block.stmts.len()
        invariant
            i <= block.stmts@.len(),
            forall|x: Seq<char>|
                #![trigger views_of(mutable_vars@).contains(x)]
                #![trigger start.contains(x)]
                views_of(mutable_vars@).contains(x) <==> (start.contains(x)
                || mut_decls_stmts(block.stmts@.take(i as int)).contains(x)),
        decreases block.stmts.len() - i,
    {
        proof {
            assert(decreases_to!(block.stmts => block.stmts@[i as int]));
        }
        let ghost v0 = views_of(mutable_vars@);
        assert(block.stmts@.take(i + 1).drop_last() =~= block.stmts@.take(i as int));
        assert(block.stmts@.take(i + 1).last() == block.stmts@[i as int]);
        let ghost prefix = mut_decls_stmts(block.stmts@.take(i as int));
        let ghost next = mut_decls_stmts(block.stmts@.take(i + 1));
        match &block.stmts[i].kind {
            StmtKind::Let(decl) => {
                if decl.mutable {
                    add_name(mutable_vars, decl.name.as_str());
                    proof {
                        let one = seq![decl.name@];
                        assert(next =~= prefix + one);
                        lemma_contains_concat(prefix, one);
                        assert(one[0] == decl.name@);
                        let v1 = views_of(mutable_vars@);
                        assert forall|x: Seq<char>| v1.contains(x) <==> (start.contains(x) || next.contains(x)) by {
                            assert(v1.contains(x) <==> (v0.contains(x) || x == decl.name@));
                            assert(v0.contains(x) <==> (start.contains(x) || prefix.contains(x)));
                            assert((prefix + one).contains(x) <==> (prefix.contains(x) || one.contains(x)));
                            if one.contains(x) {
                                let k = choose|k: int| 0 <= k < one.len() && one[k] == x;
                                assert(k == 0);
                            }
                        }
                    }
                } else {
                    assert(next =~= prefix);
                }
            },
            StmtKind::Expr(e) => {
                collect_mut_decls_in_expr(e, mutable_vars);
                proof {
                    let d = mut_decls_expr(*e);
                    assert(next =~= prefix + d);
                    lemma_contains_concat(prefix, d);
                    let v1 = views_of(mutable_vars@);
                    assert forall|x: Seq<char>| v1.contains(x) <==> (start.contains(x) || next.contains(x)) by {
                        assert(v1.contains(x) <==> (v0.contains(x) || d.contains(x)));
                        assert(v0.contains(x) <==> (start.contains(x) || prefix.contains(x)));
                        assert((prefix + d).contains(x) <==> (prefix.contains(x) || d.contains(x)));
                    }
                }
            },
            _ => {
                assert(next =~= prefix);
            },
        }
        i = i + 1;
    }
    assert(block.stmts@.take(i as int) =~= block.stmts@);
}

/// Adds the names declared with `let mut` in the blocks nested in an expression.
pub fn collect_mut_decls_in_expr(expr: &Expr, mutable_vars: &mut Vec<String>)
    ensures
        forall|x: Seq<char>|
            #![trigger views_of(final(mutable_vars)@).contains(x)]
            #![trigger views_of(old(mutable_vars)@).contains(x)]
            views_of(final(mutable_vars)@).contains(x) <==> (views_of(old(mutable_vars)@).contains(x)
            || mut_decls_expr(*expr).contains(x)),
    decreases expr, 1nat,
{
    let ghost v0 = views_of(mutable_vars@);
    match &expr.kind {
        ExprKind::If(_, then_block, else_expr) => {
            collect_mut_declarations(then_block, mutable_vars);
            let ghost v1 = views_of(mutable_vars@);
            let ghost b = mut_decls_block(*then_block);
            match else_expr {
                Some(e) => {
                    collect_mut_decls_in_expr(e, mutable_vars);
                    proof {
                        let d = mut_decls_expr(**e);
                        lemma_contains_concat(b, d);
                        let v2 = views_of(mutable_vars@);
                        assert(mut_decls_expr(*expr) == b + d);
                        assert forall|x: Seq<char>| v2.contains(x) <==> (v0.contains(x) || (b + d).contains(x)) by {
                            assert(v2.contains(x) <==> (v1.contains(x) || d.contains(x)));
                            assert(v1.contains(x) <==> (v0.contains(x) || b.contains(x)));
                            assert((b + d).contains(x) <==> (b.contains(x) || d.contains(x)));
                        }
                    }
                },
                None => {
                    assert(mut_decls_expr(*expr) =~= b);
                },
            }
        },
        ExprKind::For(_, _, _, body) => collect_mut_declarations(body, mutable_vars),
        ExprKind::While(_, body) => collect_mut_declarations(body, mutable_vars),
        ExprKind::Loop(body) => collect_mut_declarations(body, mutable_vars),
        ExprKind::Block(body) => collect_mut_declarations(body, mutable_vars),
        _ => {},
    }
}

/// The names in the scopes that are bound as mutable.
pub open spec fn mutable_in_scopes(scopes: Seq<Table<(Type, bool)>>, x: Seq<char>) -> bool {
    exists|s: int, k: int|
        0 <= s < scopes.len() && 0 <= k < scopes[s].entries@.len() && scopes[s].entries@[k].0@ == x
            && #[trigger] scopes[s].entries@[k].1.1
}

/// The mutable variables, in scope or declared in `block`, that some closure
/// in the block refers to (by name or by assigning to it).
pub fn find_captured_mut_vars(block: &Block, scopes: &Vec<Table<(Type, bool)>>) -> (r: Vec<String>)
    ensures
        forall|x: Seq<char>| #[trigger] views_of(r@).contains(x) <==> ((mutable_in_scopes(scopes@, x)
            || mut_decls_block(*block).contains(x)) && closures_refer_stmts(block.stmts@, x)),
{
    let mut mutable_vars: Vec<String> = Vec::new();
    let mut s: usize = 0;
    while s < scopes.len()
        invariant
            s <= scopes@.len(),
            forall|x: Seq<char>| #[trigger] views_of(mutable_vars@).contains(x) <==> exists|a: int, b: int|
                0 <= a < s && 0 <= b < scopes@[a].entries@.len() && scopes@[a].entries@[b].0@ == x
                    && #[trigger] scopes@[a].entries@[b].1.1,
        decreases scopes.len() - s,
    {
        let mut k: usize = 0;
        while k < scopes[s].entries.len()
            invariant
                s < scopes@.len(),
                k <= scopes@[s as int].entries@.len(),
                forall|x: Seq<char>| #[trigger] views_of(mutable_vars@).contains(x) <==> (exists|a: int, b: int|
                    0 <= a < s && 0 <= b < scopes@[a].entries@.len() && scopes@[a].entries@[b].0@ == x
                        && #[trigger] scopes@[a].entries@[b].1.1) || (exists|b: int|
                    0 <= b < k && scopes@[s as int].entries@[b].0@ == x && #[trigger] scopes@[s as int].entries@[b].1.1),
            decreases scopes@[s as int].entries@.len() - k,
        {
            if scopes[s].entries[k].1.1 {
                add_name(&mut mutable_vars, scopes[s].entries[k].0.as_str());
            }
            k = k + 1;
        }
        s = s + 1;
    }
    assert forall|x: Seq<char>| #[trigger] views_of(mutable_vars@).contains(x) <==> mutable_in_scopes(scopes@, x) by {
        if mutable_in_scopes(scopes@, x) {
            let (a, b) = choose|a: int, b: int|
                0 <= a < scopes@.len() && 0 <= b < scopes@[a].entries@.len() && scopes@[a].entries@[b].0@ == x
                    && #[trigger] scopes@[a].entries@[b].1.1;
            assert(scopes@[a].entries@[b].1.1);
        }
    }
    collect_mut_declarations(block, &mut mutable_vars);
    let ghost mv = views_of(mutable_vars@);
    let mut result: Vec<String> = Vec::new();
    let mut i: usize = 0;
    assert(block.stmts@.take(0) =~= Seq::<Stmt>::empty());
    while i < block.stmts.len()
        invariant
            i <= block.stmts@.len(),
            mv == views_of(mutable_vars@),
            forall|x: Seq<char>| #[trigger] views_of(result@).contains(x) <==> (mv.contains(x) && closures_refer_stmts(
                block.stmts@.take(i as int),
                x,
            )),
        decreases block.stmts.len() - i,
    {
        proof {
            assert(block.stmts@.take(i as int + 1).drop_last() =~= block.stmts@.take(i as int));
            assert(block.stmts@.take(i as int + 1).last() == block.stmts@[i as int]);
        }
        find_lambdas_in_stmt(&block.stmts[i], &mutable_vars, &mut result);
        i = i + 1;
    }
    assert(block.stmts@.take(block.stmts@.len() as int) =~= block.stmts@);
    result
}

/// `x` names a parameter of a closure with parameters `ps`.
pub open spec fn is_param(ps: Seq<Param>, x: Seq<char>) -> bool {
    exists|j: int| 0 <= j < ps.len() && #[trigger] ps[j].name@ == x
}

/// Some closure in `e` refers to the outer variable `x` (by name, or by
/// assigning to it) in its body, outside closures nested deeper.
pub open spec fn closure_refers(e: Expr, x: Seq<char>) -> bool
    decreases e,
{
    match e.kind {
        ExprKind::Lambda(params, _, body) => (!is_param(params@, x) && idents_stmts(body.stmts@).contains(x))
            || closures_refer_stmts(body.stmts@, x),
        ExprKind::BinOp(l, _, r) => closure_refers(*l, x) || closure_refers(*r, x),
        ExprKind::Range(l, r) => closure_refers(*l, x) || closure_refers(*r, x),
        ExprKind::Index(l, r) => closure_refers(*l, x) || closure_refers(*r, x),
        ExprKind::UnaryOp(_, a) => closure_refers(*a, x),
        ExprKind::FieldAccess(a, _) => closure_refers(*a, x),
        ExprKind::TypeAccess(a, _) => closure_refers(*a, x),
        ExprKind::ErrorLit(a) => closure_refers(*a, x),
        ExprKind::As(a, _) => closure_refers(*a, x),
        ExprKind::AsSafe(a, _) => closure_refers(*a, x),
        ExprKind::Is(a, _) => closure_refers(*a, x),
        ExprKind::Try(a) => closure_refers(*a, x),
        ExprKind::Call(f, args) => closure_refers(*f, x) || closures_refer_exprs(args@, x),
        ExprKind::MethodCall(o, _, args) => closure_refers(*o, x) || closures_refer_exprs(args@, x),
        ExprKind::StaticMethodCall(_, _, args) => closures_refer_exprs(args@, x),
        ExprKind::ArrayLit(es) => closures_refer_exprs(es@, x),
        ExprKind::TupleLit(es) => closures_refer_exprs(es@, x),
        ExprKind::MapLit(entries) => closures_refer_entries(entries@, x),
        ExprKind::StructLit(_, _, fields, spread) => closures_refer_fields(fields@, x) || match spread {
            Some(sp) => closure_refers(*sp, x),
            None => false,
        },
        ExprKind::EnumVariant(_, _, args) => closures_refer_exprs(args@, x),
        ExprKind::QualifiedEnumVariant(_, _, _, args) => closures_refer_exprs(args@, x),
        ExprKind::If(c, tb, ee) => closure_refers(*c, x) || closures_refer_stmts(tb.stmts@, x) || match ee {
            Some(a) => closure_refers(*a, x),
            None => false,
        },
        ExprKind::Match(sc, arms) => closure_refers(*sc, x) || closures_refer_arms(arms@, x),
        ExprKind::For(_, _, it, body) => closure_refers(*it, x) || closures_refer_stmts(body.stmts@, x),
        ExprKind::While(c, body) => closure_refers(*c, x) || closures_refer_stmts(body.stmts@, x),
        ExprKind::Loop(body) => closures_refer_stmts(body.stmts@, x),
        ExprKind::Block(body) => closures_refer_stmts(body.stmts@, x),
        ExprKind::Guard(_, c, body) => closure_refers(*c, x) || closures_refer_stmts(body.stmts@, x),
        ExprKind::InterpolatedString(parts) => closures_refer_parts(parts@, x),
        _ => false,
    }
}

pub open spec fn closures_refer_exprs(es: Seq<Expr>, x: Seq<char>) -> bool
    decreases es,
{
    es.len() > 0 && (closures_refer_exprs(es.drop_last(), x) || closure_refers(es.last(), x))
}

pub open spec fn closures_refer_entries(es: Seq<(Expr, Expr)>, x: Seq<char>) -> bool
    decreases es,
{
    es.len() > 0 && (closures_refer_entries(es.drop_last(), x) || closure_refers(es.last().0, x) || closure_refers(
        es.last().1,
        x,
    ))
}

pub open spec fn closures_refer_fields(fs: Seq<(String, Expr)>, x: Seq<char>) -> bool
    decreases fs,
{
    fs.len() > 0 && (closures_refer_fields(fs.drop_last(), x) || closure_refers(fs.last().1, x))
}

pub open spec fn closures_refer_arms(arms: Seq<MatchArm>, x: Seq<char>) -> bool
    decreases arms,
{
    arms.len() > 0 && (closures_refer_arms(arms.drop_last(), x) || closure_refers(arms.last().body, x))
}

pub open spec fn closures_refer_parts(ps: Seq<StringPart>, x: Seq<char>) -> bool
    decreases ps,
{
    ps.len() > 0 && (closures_refer_parts(ps.drop_last(), x) || match ps.last() {
        StringPart::Expr(e) => closure_refers(*e, x),
        StringPart::Literal(_) => false,
    })
}

pub open spec fn closures_refer_stmts(ss: Seq<Stmt>, x: Seq<char>) -> bool
    decreases ss,
{
    ss.len() > 0 && (closures_refer_stmts(ss.drop_last(), x) || closures_refer_stmt(ss.last(), x))
}

pub open spec fn closures_refer_stmt(st: Stmt, x: Seq<char>) -> bool
    decreases st,
{
    match st.kind {
        StmtKind::Let(d) => closure_refers(d.value, x),
        StmtKind::LetTuple(_, e) => closure_refers(e, x),
        StmtKind::Assign(_, e) => closure_refers(e, x),
        StmtKind::Return(v) => match v {
            Some(e) => closure_refers(e, x),
            None => false,
        },
        StmtKind::ReturnError(e) => closure_refers(e, x),
        StmtKind::Expr(e) => closure_refers(e, x),
        _ => false,
    }
}

/// Adds the mutable variables that closures inside the statement refer to.
pub fn find_lambdas_in_stmt(stmt: &Stmt, mutable_vars: &Vec<String>, captured: &mut Vec<String>)
    ensures
        forall|x: Seq<char>| #[trigger] views_of(final(captured)@).contains(x) <==> (views_of(old(captured)@).contains(x)
            || (views_of(mutable_vars@).contains(x) && closures_refer_stmt(*stmt, x))),
    decreases stmt, 1nat,
{
    match &stmt.kind {
        StmtKind::Let(decl) => find_lambdas_in_expr(&decl.value, mutable_vars, captured),
        StmtKind::LetTuple(_, e) => find_lambdas_in_expr(e, mutable_vars, captured),
        StmtKind::Assign(_, e) => find_lambdas_in_expr(e, mutable_vars, captured),
        StmtKind::Return(Some(e)) => find_lambdas_in_expr(e, mutable_vars, captured),
        StmtKind::ReturnError(e) => find_lambdas_in_expr(e, mutable_vars, captured),
        StmtKind::Expr(e) => find_lambdas_in_expr(e, mutable_vars, captured),
        _ => {},
    }
}

/// `find_lambdas_in_stmt` for each statement of a block.
pub fn find_lambdas_in_stmts(stmts: &Vec<Stmt>, mutable_vars: &Vec<String>, captured: &mut Vec<String>)
    ensures
        forall|x: Seq<char>| #[trigger] views_of(final(captured)@).contains(x) <==> (views_of(old(captured)@).contains(x)
            || (views_of(mutable_vars@).contains(x) && closures_refer_stmts(stmts@, x))),
    decreases stmts, 2nat,
{
    let ghost start = views_of(captured@);
    let mut i: usize = 0;
    assert(stmts@.take(0) =~= Seq::<Stmt>::empty());
    while i < stmts.len()
        invariant
            i <= stmts@.len(),
            forall|x: Seq<char>| #[trigger] views_of(captured@).contains(x) <==> (start.contains(x) || (views_of(
                mutable_vars@,
            ).contains(x) && closures_refer_stmts(stmts@.take(i as int), x))),
        decreases stmts.len() - i,
    {
        proof {
            assert(decreases_to!(*stmts => stmts@[i as int]));
            assert(stmts@.take(i as int + 1).drop_last() =~= stmts@.take(i as int));
            assert(stmts@.take(i as int + 1).last() == stmts@[i as int]);
        }
        find_lambdas_in_stmt(&stmts[i], mutable_vars, captured);
        i = i + 1;
    }
    assert(stmts@.take(stmts@.len() as int) =~= stmts@);
}

/// `find_lambdas_in_expr` for each expression of a list.
pub fn find_lambdas_in_exprs(exprs: &Vec<Expr>, mutable_vars: &Vec<String>, captured: &mut Vec<String>)
    ensures
        forall|x: Seq<char>| #[trigger] views_of(final(captured)@).contains(x) <==> (views_of(old(captured)@).contains(x)
            || (views_of(mutable_vars@).contains(x) && closures_refer_exprs(exprs@, x))),
    decreases exprs, 2nat,
{
    let ghost start = views_of(captured@);
    let mut i: usize = 0;
    assert(exprs@.take(0) =~= Seq::<Expr>::empty());
    while i < exprs.len()
        invariant
            i <= exprs@.len(),
            forall|x: Seq<char>| #[trigger] views_of(captured@).contains(x) <==> (start.contains(x) || (views_of(
                mutable_vars@,
            ).contains(x) && closures_refer_exprs(exprs@.take(i as int), x))),
        decreases exprs.len() - i,
    {
        proof {
            assert(decreases_to!(*exprs => exprs@[i as int]));
            assert(exprs@.take(i as int + 1).drop_last() =~= exprs@.take(i as int));
            assert(exprs@.take(i as int + 1).last() == exprs@[i as int]);
        }
        find_lambdas_in_expr(&exprs[i], mutable_vars, captured);
        i = i + 1;
    }
    assert(exprs@.take(exprs@.len() as int) =~= exprs@);
}

/// Adds the mutable variables that closures inside the expression refer to.
#[verifier::loop_isolation(false)]
pub fn find_lambdas_in_expr(expr: &Expr, mutable_vars: &Vec<String>, captured: &mut Vec<String>)
    ensures
        forall|x: Seq<char>| #[trigger] views_of(final(captured)@).contains(x) <==> (views_of(old(captured)@).contains(x)
            || (views_of(mutable_vars@).contains(x) && closure_refers(*expr, x))),
    decreases expr, 3nat,
{
    let ghost s0 = views_of(captured@);
    match &expr.kind {
        ExprKind::Lambda(params, _, body) => {
            let mut param_names: Vec<String> = Vec::new();
            let mut i: usize = 0;
            while i < params.len()
                invariant
                    i <= params@.len(),
                    forall|x: Seq<char>| #[trigger] views_of(param_names@).contains(x) <==> is_param(
                        params@.take(i as int),
                        x,
                    ),
                decreases params.len() - i,
            {
                add_name(&mut param_names, params[i].name.as_str());
                proof {
                    let t1 = params@.take(i as int + 1);
                    assert forall|x: Seq<char>| #[trigger] views_of(param_names@).contains(x) <==> is_param(t1, x) by {
                        if is_param(t1, x) {
                            let j = choose|j: int| 0 <= j < t1.len() && #[trigger] t1[j].name@ == x;
                            if j < i {
                                assert(params@.take(i as int)[j] == t1[j]);
                            }
                        }
                        if is_param(params@.take(i as int), x) {
                            let j = choose|j: int| 0 <= j < i && #[trigger] params@.take(i as int)[j].name@ == x;
                            assert(t1[j] == params@.take(i as int)[j]);
                        }
                        if x == params@[i as int].name@ {
                            assert(t1[i as int] == params@[i as int]);
                        }
                    }
                }
                i = i + 1;
            }
            assert(params@.take(params@.len() as int) =~= params@);
            collect_idents_in_block(body, mutable_vars, &param_names, captured);
            find_lambdas_in_stmts(&body.stmts, mutable_vars, captured);
        },
        ExprKind::BinOp(l, _, r) | ExprKind::Range(l, r) | ExprKind::Index(l, r) => {
            find_lambdas_in_expr(l, mutable_vars, captured);
            find_lambdas_in_expr(r, mutable_vars, captured);
        },
        ExprKind::UnaryOp(_, e) | ExprKind::FieldAccess(e, _) | ExprKind::TypeAccess(e, _) | ExprKind::ErrorLit(e)
        | ExprKind::As(e, _) | ExprKind::AsSafe(e, _) | ExprKind::Is(e, _) | ExprKind::Try(e) => {
            find_lambdas_in_expr(e, mutable_vars, captured);
        },
        ExprKind::Call(f, args) => {
            find_lambdas_in_expr(f, mutable_vars, captured);
            find_lambdas_in_exprs(args, mutable_vars, captured);
        },
        ExprKind::MethodCall(obj, _, args) => {
            find_lambdas_in_expr(obj, mutable_vars, captured);
            find_lambdas_in_exprs(args, mutable_vars, captured);
        },
        ExprKind::StaticMethodCall(_, _, args) => find_lambdas_in_exprs(args, mutable_vars, captured),
        ExprKind::ArrayLit(elems) | ExprKind::TupleLit(elems) => find_lambdas_in_exprs(elems, mutable_vars, captured),
        ExprKind::MapLit(entries) => {
            let mut i: usize = 0;
            assert(entries@.take(0) =~= Seq::<(Expr, Expr)>::empty());
            while i < entries.len()
                invariant
                    i <= entries@.len(),
                    forall|x: Seq<char>| #[trigger] views_of(captured@).contains(x) <==> (s0.contains(x) || (views_of(
                        mutable_vars@,
                    ).contains(x) && closures_refer_entries(entries@.take(i as int), x))),
                decreases entries.len() - i,
            {
                proof {
                    assert(decreases_to!(*entries => entries@[i as int]));
                    assert(entries@.take(i as int + 1).drop_last() =~= entries@.take(i as int));
                    assert(entries@.take(i as int + 1).last() == entries@[i as int]);
                }
                find_lambdas_in_expr(&entries[i].0, mutable_vars, captured);
                find_lambdas_in_expr(&entries[i].1, mutable_vars, captured);
                i = i + 1;
            }
            assert(entries@.take(entries@.len() as int) =~= entries@);
        },
        ExprKind::StructLit(_, _, fields, spread) => {
            let mut i: usize = 0;
            assert(fields@.take(0) =~= Seq::<(String, Expr)>::empty());
            while i < fields.len()
                invariant
                    i <= fields@.len(),
                    forall|x: Seq<char>| #[trigger] views_of(captured@).contains(x) <==> (s0.contains(x) || (views_of(
                        mutable_vars@,
                    ).contains(x) && closures_refer_fields(fields@.take(i as int), x))),
                decreases fields.len() - i,
            {
                proof {
                    assert(decreases_to!(*fields => fields@[i as int]));
                    assert(fields@.take(i as int + 1).drop_last() =~= fields@.take(i as int));
                    assert(fields@.take(i as int + 1).last() == fields@[i as int]);
                }
                find_lambdas_in_expr(&fields[i].1, mutable_vars, captured);
                i = i + 1;
            }
            assert(fields@.take(fields@.len() as int) =~= fields@);
            match spread {
                Some(s) => find_lambdas_in_expr(s, mutable_vars, captured),
                None => {},
            }
        },
        ExprKind::EnumVariant(_, _, args) | ExprKind::QualifiedEnumVariant(_, _, _, args) => {
            find_lambdas_in_exprs(args, mutable_vars, captured);
        },
        ExprKind::If(c, then_block, else_expr) => {
            find_lambdas_in_expr(c, mutable_vars, captured);
            find_lambdas_in_stmts(&then_block.stmts, mutable_vars, captured);
            match else_expr {
                Some(e) => find_lambdas_in_expr(e, mutable_vars, captured),
                None => {},
            }
        },
        ExprKind::Match(scrutinee, arms) => {
            find_lambdas_in_expr(scrutinee, mutable_vars, captured);
            let ghost s1 = views_of(captured@);
            let mut i: usize = 0;
            assert(arms@.take(0) =~= Seq::<crate::ast::MatchArm>::empty());
            while i < arms.len()
                invariant
                    i <= arms@.len(),
                    forall|x: Seq<char>| #[trigger] views_of(captured@).contains(x) <==> (s1.contains(x) || (views_of(
                        mutable_vars@,
                    ).contains(x) && closures_refer_arms(arms@.take(i as int), x))),
                decreases arms.len() - i,
            {
                proof {
                    assert(decreases_to!(*arms => arms@[i as int]));
                    assert(arms@.take(i as int + 1).drop_last() =~= arms@.take(i as int));
                    assert(arms@.take(i as int + 1).last() == arms@[i as int]);
                }
                find_lambdas_in_expr(&arms[i].body, mutable_vars, captured);
                i = i + 1;
            }
            assert(arms@.take(arms@.len() as int) =~= arms@);
        },
        ExprKind::For(_, _, iter, body) | ExprKind::While(iter, body) => {
            find_lambdas_in_expr(iter, mutable_vars, captured);
            find_lambdas_in_stmts(&body.stmts, mutable_vars, captured);
        },
        ExprKind::Loop(body) | ExprKind::Block(body) => find_lambdas_in_stmts(&body.stmts, mutable_vars, captured),
        ExprKind::Guard(_, e, body) => {
            find_lambdas_in_expr(e, mutable_vars, captured);
            find_lambdas_in_stmts(&body.stmts, mutable_vars, captured);
        },
        ExprKind::InterpolatedString(parts) => {
            let mut i: usize = 0;
            assert(parts@.take(0) =~= Seq::<StringPart>::empty());
            while i < parts.len()
                invariant
                    i <= parts@.len(),
                    forall|x: Seq<char>| #[trigger] views_of(captured@).contains(x) <==> (s0.contains(x) || (views_of(
                        mutable_vars@,
                    ).contains(x) && closures_refer_parts(parts@.take(i as int), x))),
                decreases parts.len() - i,
            {
                proof {
                    assert(decreases_to!(*parts => parts@[i as int]));
                    assert(parts@.take(i as int + 1).drop_last() =~= parts@.take(i as int));
                    assert(parts@.take(i as int + 1).last() == parts@[i as int]);
                }
                match &parts[i] {
                    StringPart::Expr(e) => find_lambdas_in_expr(e, mutable_vars, captured),
                    StringPart::Literal(_) => {},
                }
                i = i + 1;
            }
            assert(parts@.take(parts@.len() as int) =~= parts@);
        },
        _ => {},
    }
}

/// `new` is `old` with exactly those names of `found` added that a closure
/// may capture (mutable outer variables, not parameters).
pub open spec fn adds_captures(
    old: Seq<Seq<char>>,
    new: Seq<Seq<char>>,
    mv: Seq<String>,
    ps: Seq<String>,
    found: Seq<Seq<char>>,
) -> bool {
    forall|x: Seq<char>| #[trigger] new.contains(x) <==> (old.contains(x) || (capturable(mv, ps, x) && found.contains(x)))
}

/// Adding the names of two lists one after the other adds those of both.
pub proof fn lemma_adds_compose(
    s0: Seq<Seq<char>>,
    s1: Seq<Seq<char>>,
    s2: Seq<Seq<char>>,
    mv: Seq<String>,
    ps: Seq<String>,
    f1: Seq<Seq<char>>,
    f2: Seq<Seq<char>>,
)
    requires
        adds_captures(s0, s1, mv, ps, f1),
        adds_captures(s1, s2, mv, ps, f2),
    ensures
        adds_captures(s0, s2, mv, ps, f1 + f2),
{
    lemma_contains_concat(f1, f2);
    assert forall|x: Seq<char>| #[trigger] s2.contains(x) <==> (s0.contains(x) || (capturable(mv, ps, x) && (f1
        + f2).contains(x))) by {
        assert(s1.contains(x) <==> (s0.contains(x) || (capturable(mv, ps, x) && f1.contains(x))));
    }
}

/// Adding nothing leaves the names as they were.
pub proof fn lemma_adds_nothing(s0: Seq<Seq<char>>, mv: Seq<String>, ps: Seq<String>)
    ensures
        adds_captures(s0, s0, mv, ps, Seq::empty()),
{
}

/// The names an expression refers to as variables (and assigns to),
/// outside the closures nested in it.
pub open spec fn idents_expr(e: Expr) -> Seq<Seq<char>>
    decreases e,
{
    match e.kind {
        ExprKind::Ident(n) => seq![n@],
        ExprKind::BinOp(l, _, r) => idents_expr(*l) + idents_expr(*r),
        ExprKind::Range(l, r) => idents_expr(*l) + idents_expr(*r),
        ExprKind::Index(l, r) => idents_expr(*l) + idents_expr(*r),
        ExprKind::UnaryOp(_, x) => idents_expr(*x),
        ExprKind::FieldAccess(x, _) => idents_expr(*x),
        ExprKind::TypeAccess(x, _) => idents_expr(*x),
        ExprKind::ErrorLit(x) => idents_expr(*x),
        ExprKind::As(x, _) => idents_expr(*x),
        ExprKind::AsSafe(x, _) => idents_expr(*x),
        ExprKind::Is(x, _) => idents_expr(*x),
        ExprKind::Try(x) => idents_expr(*x),
        ExprKind::Call(f, args) => idents_expr(*f) + idents_exprs(args@),
        ExprKind::MethodCall(o, _, args) => idents_expr(*o) + idents_exprs(args@),
        ExprKind::If(c, tb, ee) => idents_expr(*c) + idents_stmts(tb.stmts@) + match ee {
            Some(x) => idents_expr(*x),
            None => Seq::empty(),
        },
        ExprKind::Block(b) => idents_stmts(b.stmts@),
        ExprKind::Loop(b) => idents_stmts(b.stmts@),
        ExprKind::StaticMethodCall(_, _, args) => idents_exprs(args@),
        ExprKind::ArrayLit(args) => idents_exprs(args@),
        ExprKind::TupleLit(args) => idents_exprs(args@),
        ExprKind::EnumVariant(_, _, args) => idents_exprs(args@),
        ExprKind::QualifiedEnumVariant(_, _, _, args) => idents_exprs(args@),
        ExprKind::MapLit(pairs) => idents_pairs(pairs@),
        ExprKind::StructLit(_, _, fs, sp) => idents_fields(fs@) + match sp {
            Some(x) => idents_expr(*x),
            None => Seq::empty(),
        },
        ExprKind::Match(sc, arms) => idents_expr(*sc) + idents_arms(arms@),
        ExprKind::For(_, _, it, b) => idents_expr(*it) + idents_stmts(b.stmts@),
        ExprKind::While(c, b) => idents_expr(*c) + idents_stmts(b.stmts@),
        ExprKind::Guard(_, c, b) => idents_expr(*c) + idents_stmts(b.stmts@),
        ExprKind::InterpolatedString(parts) => idents_parts(parts@),
        _ => Seq::empty(),
    }
}

pub open spec fn idents_pairs(ps: Seq<(Expr, Expr)>) -> Seq<Seq<char>>
    decreases ps,
{
    if ps.len() == 0 {
        Seq::empty()
    } else {
        idents_pairs(ps.drop_last()) + idents_expr(ps.last().0) + idents_expr(ps.last().1)
    }
}

pub open spec fn idents_fields(fs: Seq<(String, Expr)>) -> Seq<Seq<char>>
    decreases fs,
{
    if fs.len() == 0 {
        Seq::empty()
    } else {
        idents_fields(fs.drop_last()) + idents_expr(fs.last().1)
    }
}

pub open spec fn idents_arms(arms: Seq<MatchArm>) -> Seq<Seq<char>>
    decreases arms,
{
    if arms.len() == 0 {
        Seq::empty()
    } else {
        idents_arms(arms.drop_last()) + idents_expr(arms.last().body)
    }
}

pub open spec fn idents_parts(parts: Seq<StringPart>) -> Seq<Seq<char>>
    decreases parts,
{
    if parts.len() == 0 {
        Seq::empty()
    } else {
        idents_parts(parts.drop_last()) + match parts.last() {
            StringPart::Expr(x) => idents_expr(*x),
            StringPart::Literal(_) => Seq::empty(),
        }
    }
}

pub open spec fn idents_exprs(es: Seq<Expr>) -> Seq<Seq<char>>
    decreases es,
{
    if es.len() == 0 {
        Seq::empty()
    } else {
        idents_exprs(es.drop_last()) + idents_expr(es.last())
    }
}

pub open spec fn idents_stmts(ss: Seq<Stmt>) -> Seq<Seq<char>>
    decreases ss,
{
    if ss.len() == 0 {
        Seq::empty()
    } else {
        idents_stmts(ss.drop_last()) + idents_stmt(ss.last())
    }
}

/// The variable an assignment writes to, if it writes to a variable.
pub open spec fn assigned_name(target: AssignTarget) -> Seq<Seq<char>> {
    match target {
        AssignTarget::Variable(n) => seq![n@],
        _ => Seq::empty(),
    }
}

pub open spec fn idents_stmt(st: Stmt) -> Seq<Seq<char>>
    decreases st,
{
    match st.kind {
        StmtKind::Let(d) => idents_expr(d.value),
        StmtKind::LetTuple(_, e) => idents_expr(e),
        StmtKind::Assign(target, e) => assigned_name(target) + idents_expr(e),
        StmtKind::Return(v) => match v {
            Some(e) => idents_expr(e),
            None => Seq::empty(),
        },
        StmtKind::ReturnError(e) => idents_expr(e),
        StmtKind::Expr(e) => idents_expr(e),
        _ => Seq::empty(),
    }
}

/// The names a closure body may capture: mutable outer variables that are
/// not parameters of the closure.
pub open spec fn capturable(mutable_vars: Seq<String>, params: Seq<String>, x: Seq<char>) -> bool {
    views_of(mutable_vars).contains(x) && !views_of(params).contains(x)
}

/// Adds the mutable outer variables the block refers to.
pub fn collect_idents_in_block(block: &Block, mutable_vars: &Vec<String>, param_names: &Vec<String>, captured: &mut Vec<String>)
    ensures
        adds_captures(
            views_of(old(captured)@),
            views_of(final(captured)@),
            mutable_vars@,
            param_names@,
            idents_stmts(block.stmts@),
        ),
    decreases block, 2nat,
{
    let ghost start = views_of(captured@);
    proof {
        lemma_adds_nothing(start, mutable_vars@, param_names@);
        assert(block.stmts@.take(0) =~= Seq::<Stmt>::empty());
    }
    let mut i: usize = 0;
    while i < block.stmts.len()
        invariant
            i <= block.stmts@.len(),
            adds_captures(start, views_of(captured@), mutable_vars@, param_names@, idents_stmts(block.stmts@.take(i as int))),
        decreases block.stmts.len() - i,
    {
        proof {
            assert(decreases_to!(block.stmts => block.stmts@[i as int]));
        }
        let ghost mid = views_of(captured@);
        collect_idents_in_stmt(&block.stmts[i], mutable_vars, param_names, captured);
        proof {
            let ss = block.stmts@;
            lemma_adds_compose(
                start,
                mid,
                views_of(captured@),
                mutable_vars@,
                param_names@,
                idents_stmts(ss.take(i as int)),
                idents_stmt(ss[i as int]),
            );
            assert(ss.take(i as int + 1).drop_last() =~= ss.take(i as int));
            assert(ss.take(i as int + 1).last() == ss[i as int]);
        }
        i = i + 1;
    }
    assert(block.stmts@.take(block.stmts@.len() as int) =~= block.stmts@);
}

/// Adds a name if it is a capturable mutable variable.
fn capture_if_mutable(name: &str, mutable_vars: &Vec<String>, params: &Vec<String>, captured: &mut Vec<String>)
    ensures
        adds_captures(views_of(old(captured)@), views_of(final(captured)@), mutable_vars@, params@, seq![name@]),
{
    if names_contain(mutable_vars, name) && !names_contain(params, name) {
        add_name(captured, name);
    }
    assert forall|x: Seq<char>| #[trigger] views_of(captured@).contains(x) <==> (views_of(old(captured)@).contains(x)
        || (capturable(mutable_vars@, params@, x) && seq![name@].contains(x))) by {
        if seq![name@].contains(x) {
            assert(x == name@);
        }
        if x == name@ {
            assert(seq![name@][0] == x);
        }
    }
}

/// Adds the mutable outer variables the statement refers to.
pub fn collect_idents_in_stmt(stmt: &Stmt, mutable_vars: &Vec<String>, params: &Vec<String>, captured: &mut Vec<String>)
    ensures
        adds_captures(views_of(old(captured)@), views_of(final(captured)@), mutable_vars@, params@, idents_stmt(*stmt)),
    decreases stmt, 1nat,
{
    let ghost s0 = views_of(captured@);
    match &stmt.kind {
        StmtKind::Let(d) => collect_idents_in_expr(&d.value, mutable_vars, params, captured),
        StmtKind::LetTuple(_, e) => collect_idents_in_expr(e, mutable_vars, params, captured),
        StmtKind::Assign(target, e) => {
            match target {
                AssignTarget::Variable(name) => capture_if_mutable(name.as_str(), mutable_vars, params, captured),
                _ => {
                    proof {
                        lemma_adds_nothing(s0, mutable_vars@, params@);
                    }
                },
            }
            let ghost s1 = views_of(captured@);
            collect_idents_in_expr(e, mutable_vars, params, captured);
            proof {
                lemma_adds_compose(s0, s1, views_of(captured@), mutable_vars@, params@, assigned_name(*target), idents_expr(*e));
            }
        },
        StmtKind::Return(Some(e)) => collect_idents_in_expr(e, mutable_vars, params, captured),
        StmtKind::ReturnError(e) => collect_idents_in_expr(e, mutable_vars, params, captured),
        StmtKind::Expr(e) => collect_idents_in_expr(e, mutable_vars, params, captured),
        _ => {
            proof {
                lemma_adds_nothing(s0, mutable_vars@, params@);
            }
        },
    }
}

/// `collect_idents_in_expr` for each expression of a list.
fn collect_idents_in_exprs(exprs: &Vec<Expr>, mutable_vars: &Vec<String>, params: &Vec<String>, captured: &mut Vec<String>)
    ensures
        adds_captures(views_of(old(captured)@), views_of(final(captured)@), mutable_vars@, params@, idents_exprs(exprs@)),
    decreases exprs, 2nat,
{
    let ghost start = views_of(captured@);
    proof {
        lemma_adds_nothing(start, mutable_vars@, params@);
        assert(exprs@.take(0) =~= Seq::<Expr>::empty());
    }
    let mut i: usize = 0;
    while i < exprs.len()
        invariant
            i <= exprs@.len(),
            adds_captures(start, views_of(captured@), mutable_vars@, params@, idents_exprs(exprs@.take(i as int))),
        decreases exprs.len() - i,
    {
        proof {
            assert(decreases_to!(*exprs => exprs@[i as int]));
        }
        let ghost mid = views_of(captured@);
        collect_idents_in_expr(&exprs[i], mutable_vars, params, captured);
        proof {
            let es = exprs@;
            lemma_adds_compose(
                start,
                mid,
                views_of(captured@),
                mutable_vars@,
                params@,
                idents_exprs(es.take(i as int)),
                idents_expr(es[i as int]),
            );
            assert(es.take(i as int + 1).drop_last() =~= es.take(i as int));
            assert(es.take(i as int + 1).last() == es[i as int]);
        }
        i = i + 1;
    }
    assert(exprs@.take(exprs@.len() as int) =~= exprs@);
}

/// Adds the mutable outer variables the expression refers to (closures
/// nested inside it are not entered).
#[verifier::loop_isolation(false)]
pub fn collect_idents_in_expr(expr: &Expr, mutable_vars: &Vec<String>, params: &Vec<String>, captured: &mut Vec<String>)
    ensures
        adds_captures(views_of(old(captured)@), views_of(final(captured)@), mutable_vars@, params@, idents_expr(*expr)),
    decreases expr, 3nat,
{
    let ghost s0 = views_of(captured@);
    let ghost mv = mutable_vars@;
    let ghost ps = params@;
    match &expr.kind {
        ExprKind::Ident(name) => capture_if_mutable(name.as_str(), mutable_vars, params, captured),
        ExprKind::BinOp(l, _, r) | ExprKind::Range(l, r) | ExprKind::Index(l, r) => {
            collect_idents_in_expr(l, mutable_vars, params, captured);
            let ghost s1 = views_of(captured@);
            collect_idents_in_expr(r, mutable_vars, params, captured);
            proof {
                lemma_adds_compose(s0, s1, views_of(captured@), mv, ps, idents_expr(**l), idents_expr(**r));
            }
        },
        ExprKind::UnaryOp(_, e) | ExprKind::FieldAccess(e, _) | ExprKind::TypeAccess(e, _) | ExprKind::ErrorLit(e)
        | ExprKind::As(e, _) | ExprKind::AsSafe(e, _) | ExprKind::Is(e, _) | ExprKind::Try(e) => {
            collect_idents_in_expr(e, mutable_vars, params, captured);
        },
        ExprKind::Call(f, args) => {
            collect_idents_in_expr(f, mutable_vars, params, captured);
            let ghost s1 = views_of(captured@);
            collect_idents_in_exprs(args, mutable_vars, params, captured);
            proof {
                lemma_adds_compose(s0, s1, views_of(captured@), mv, ps, idents_expr(**f), idents_exprs(args@));
            }
        },
        ExprKind::MethodCall(obj, _, args) => {
            collect_idents_in_expr(obj, mutable_vars, params, captured);
            let ghost s1 = views_of(captured@);
            collect_idents_in_exprs(args, mutable_vars, params, captured);
            proof {
                lemma_adds_compose(s0, s1, views_of(captured@), mv, ps, idents_expr(**obj), idents_exprs(args@));
            }
        },
        ExprKind::If(c, then_b, else_e) => {
            collect_idents_in_expr(c, mutable_vars, params, captured);
            let ghost s1 = views_of(captured@);
            collect_idents_in_block(then_b, mutable_vars, params, captured);
            let ghost s2 = views_of(captured@);
            match else_e {
                Some(e) => collect_idents_in_expr(e, mutable_vars, params, captured),
                None => {
                    proof {
                        lemma_adds_nothing(s2, mv, ps);
                    }
                },
            }
            proof {
                let last: Seq<Seq<char>> = match else_e {
                    Some(x) => idents_expr(**x),
                    None => Seq::empty(),
                };
                lemma_adds_compose(s0, s1, s2, mv, ps, idents_expr(**c), idents_stmts(then_b.stmts@));
                lemma_adds_compose(
                    s0,
                    s2,
                    views_of(captured@),
                    mv,
                    ps,
                    idents_expr(**c) + idents_stmts(then_b.stmts@),
                    last,
                );
            }
        },
        ExprKind::Block(b) | ExprKind::Loop(b) => collect_idents_in_block(b, mutable_vars, params, captured),
        ExprKind::StaticMethodCall(_, _, args) | ExprKind::ArrayLit(args) | ExprKind::TupleLit(args)
        | ExprKind::EnumVariant(_, _, args) | ExprKind::QualifiedEnumVariant(_, _, _, args) => {
            collect_idents_in_exprs(args, mutable_vars, params, captured);
        },
        ExprKind::For(_, _, c, b) | ExprKind::While(c, b) | ExprKind::Guard(_, c, b) => {
            collect_idents_in_expr(c, mutable_vars, params, captured);
            let ghost s1 = views_of(captured@);
            collect_idents_in_block(b, mutable_vars, params, captured);
            proof {
                lemma_adds_compose(s0, s1, views_of(captured@), mv, ps, idents_expr(**c), idents_stmts(b.stmts@));
            }
        },
        ExprKind::MapLit(pairs) => {
            proof {
                lemma_adds_nothing(s0, mv, ps);
                assert(pairs@.take(0) =~= Seq::<(Expr, Expr)>::empty());
            }
            let mut i: usize = 0;
            while i < pairs.len()
                invariant
                    i <= pairs@.len(),
                    mv == mutable_vars@,
                    ps == params@,
                    adds_captures(s0, views_of(captured@), mv, ps, idents_pairs(pairs@.take(i as int))),
                decreases pairs.len() - i,
            {
                proof {
                    assert(decreases_to!(*pairs => pairs@[i as int]));
                    assert(decreases_to!(*expr => pairs@[i as int].0));
                    assert(decreases_to!(*expr => pairs@[i as int].1));
                }
                let ghost mid = views_of(captured@);
                collect_idents_in_expr(&pairs[i].0, mutable_vars, params, captured);
                let ghost mid2 = views_of(captured@);
                collect_idents_in_expr(&pairs[i].1, mutable_vars, params, captured);
                proof {
                    let es = pairs@;
                    assert(es.take(i as int + 1).drop_last() =~= es.take(i as int));
                    assert(es.take(i as int + 1).last() == es[i as int]);
                    lemma_adds_compose(s0, mid, mid2, mv, ps, idents_pairs(es.take(i as int)), idents_expr(es[i as int].0));
                    lemma_adds_compose(s0, mid2, views_of(captured@), mv, ps, idents_pairs(es.take(i as int)) + idents_expr(es[i as int].0), idents_expr(es[i as int].1));
                }
                i = i + 1;
            }
            assert(pairs@.take(pairs@.len() as int) =~= pairs@);
        },
        ExprKind::Match(sc, arms) => {
            collect_idents_in_expr(sc, mutable_vars, params, captured);
            let ghost s1 = views_of(captured@);
            proof {
                lemma_adds_nothing(s1, mv, ps);
                assert(arms@.take(0) =~= Seq::<MatchArm>::empty());
            }
            let mut i: usize = 0;
            while i < arms.len()
                invariant
                    i <= arms@.len(),
                    mv == mutable_vars@,
                    ps == params@,
                    adds_captures(s1, views_of(captured@), mv, ps, idents_arms(arms@.take(i as int))),
                decreases arms.len() - i,
            {
                proof {
                    assert(decreases_to!(*arms => arms@[i as int]));
                    assert(decreases_to!(*expr => arms@[i as int].body));
                }
                let ghost mid = views_of(captured@);
                collect_idents_in_expr(&arms[i].body, mutable_vars, params, captured);
                proof {
                    let es = arms@;
                    assert(es.take(i as int + 1).drop_last() =~= es.take(i as int));
                    assert(es.take(i as int + 1).last() == es[i as int]);
                    lemma_adds_compose(s1, mid, views_of(captured@), mv, ps, idents_arms(es.take(i as int)), idents_expr(es[i as int].body));
                }
                i = i + 1;
            }
            assert(arms@.take(arms@.len() as int) =~= arms@);
            proof {
                lemma_adds_compose(s0, s1, views_of(captured@), mv, ps, idents_expr(**sc), idents_arms(arms@));
            }
        },
        ExprKind::StructLit(_, _, fs, sp) => {
            proof {
                lemma_adds_nothing(s0, mv, ps);
                assert(fs@.take(0) =~= Seq::<(String, Expr)>::empty());
            }
            let mut i: usize = 0;
            while i < fs.len()
                invariant
                    i <= fs@.len(),
                    mv == mutable_vars@,
                    ps == params@,
                    adds_captures(s0, views_of(captured@), mv, ps, idents_fields(fs@.take(i as int))),
                decreases fs.len() - i,
            {
                proof {
                    assert(decreases_to!(*fs => fs@[i as int]));
                    assert(decreases_to!(*expr => fs@[i as int].1));
                }
                let ghost mid = views_of(captured@);
                collect_idents_in_expr(&fs[i].1, mutable_vars, params, captured);
                proof {
                    let es = fs@;
                    assert(es.take(i as int + 1).drop_last() =~= es.take(i as int));
                    assert(es.take(i as int + 1).last() == es[i as int]);
                    lemma_adds_compose(s0, mid, views_of(captured@), mv, ps, idents_fields(es.take(i as int)), idents_expr(es[i as int].1));
                }
                i = i + 1;
            }
            assert(fs@.take(fs@.len() as int) =~= fs@);
            let ghost s1 = views_of(captured@);
            match sp {
                Some(x) => collect_idents_in_expr(x, mutable_vars, params, captured),
                None => {
                    proof {
                        lemma_adds_nothing(s1, mv, ps);
                    }
                },
            }
            proof {
                let last: Seq<Seq<char>> = match sp {
                    Some(x) => idents_expr(**x),
                    None => Seq::empty(),
                };
                lemma_adds_compose(s0, s1, views_of(captured@), mv, ps, idents_fields(fs@), last);
            }
        },
        ExprKind::InterpolatedString(parts) => {
            proof {
                lemma_adds_nothing(s0, mv, ps);
                assert(parts@.take(0) =~= Seq::<StringPart>::empty());
            }
            let mut i: usize = 0;
            while i < parts.len()
                invariant
                    i <= parts@.len(),
                    mv == mutable_vars@,
                    ps == params@,
                    adds_captures(s0, views_of(captured@), mv, ps, idents_parts(parts@.take(i as int))),
                decreases parts.len() - i,
            {
                proof {
                    assert(decreases_to!(*parts => parts@[i as int]));
                }
                let ghost mid = views_of(captured@);
                match &parts[i] {
                    StringPart::Expr(x) => {
                        proof {
                            assert(decreases_to!(parts@[i as int] => **x));
                            assert(decreases_to!(*expr => **x));
                        }
                        collect_idents_in_expr(x, mutable_vars, params, captured);
                    },
                    StringPart::Literal(_) => {
                        proof {
                            lemma_adds_nothing(mid, mv, ps);
                        }
                    },
                }
                proof {
                    let es = parts@;
                    assert(es.take(i as int + 1).drop_last() =~= es.take(i as int));
                    assert(es.take(i as int + 1).last() == es[i as int]);
                    let last: Seq<Seq<char>> = match es[i as int] {
                        StringPart::Expr(x) => idents_expr(*x),
                        StringPart::Literal(_) => Seq::empty(),
                    };
                    lemma_adds_compose(s0, mid, views_of(captured@), mv, ps, idents_parts(es.take(i as int)), last);
                }
                i = i + 1;
            }
            assert(parts@.take(parts@.len() as int) =~= parts@);
        },
        _ => {
            proof {
                lemma_adds_nothing(s0, mv, ps);
            }
        },
    }
}

} // verus!
