//! The variables that closures use and capture.
use vstd::prelude::*;
use crate::types::{Type, TypeView, TypedBlock, TypedStmt, TypedExpr, TypedExprKind, TypedAssignTarget, TypedStringPart};
use crate::types::suggest::views_of;
use crate::types::capture::{names_contain, add_name, lemma_contains_push, lemma_contains_concat};
use super::uses::{occurs_stmts, bound_stmts, lemma_scan_stmts};

verus! {

/// The names of a list of parameters.
pub open spec fn param_names(params: Seq<(String, Type)>) -> Seq<Seq<char>> {
    Seq::new(params.len(), |i: int| params[i].0@)
}

/// Every parameter name is among `defined`.
pub open spec fn covers(defined: Seq<Seq<char>>, params: Seq<Seq<char>>) -> bool {
    forall|x: Seq<char>| #[trigger] params.contains(x) ==> defined.contains(x)
}

/// `new` holds `old` and otherwise only names that are not parameters.
pub open spec fn adds_no_param(old: Seq<Seq<char>>, new: Seq<Seq<char>>, params: Seq<Seq<char>>) -> bool {
    forall|x: Seq<char>| #[trigger] new.contains(x) ==> old.contains(x) || !params.contains(x)
}

/// The names every set of defined names keeps.
pub open spec fn grows(old: Seq<Seq<char>>, new: Seq<Seq<char>>) -> bool {
    forall|x: Seq<char>| #[trigger] old.contains(x) ==> new.contains(x)
}

/// The names a piece of code uses (as variables or assignment targets) and
/// the names it defines (with `let`, `for`, `guard let`, or as closure
/// parameters), as the free-variable scan visits them.
pub open spec fn join_names(
    a: (Seq<Seq<char>>, Seq<Seq<char>>),
    b: (Seq<Seq<char>>, Seq<Seq<char>>),
) -> (Seq<Seq<char>>, Seq<Seq<char>>) {
    (a.0 + b.0, a.1 + b.1)
}

pub open spec fn no_names() -> (Seq<Seq<char>>, Seq<Seq<char>>) {
    (Seq::empty(), Seq::empty())
}

pub open spec fn uses(n: Seq<char>) -> (Seq<Seq<char>>, Seq<Seq<char>>) {
    (seq![n], Seq::empty())
}

pub open spec fn defines(ns: Seq<Seq<char>>) -> (Seq<Seq<char>>, Seq<Seq<char>>) {
    (Seq::empty(), ns)
}

pub open spec fn opt_name(n: Option<String>) -> Seq<Seq<char>> {
    match n {
        Some(x) => seq![x@],
        None => Seq::empty(),
    }
}

pub open spec fn names_expr(e: TypedExpr) -> (Seq<Seq<char>>, Seq<Seq<char>>)
    decreases e,
{
    match e.kind {
        TypedExprKind::Ident(n) => uses(n@),
        TypedExprKind::BinOp(l, _, r) => join_names(names_expr(*l), names_expr(*r)),
        TypedExprKind::Range(l, r) => join_names(names_expr(*l), names_expr(*r)),
        TypedExprKind::UnaryOp(_, x) => names_expr(*x),
        TypedExprKind::As(x, _) => names_expr(*x),
        TypedExprKind::AsSafe(x, _) => names_expr(*x),
        TypedExprKind::Is(x, _) => names_expr(*x),
        TypedExprKind::Try(x) => names_expr(*x),
        TypedExprKind::ErrorLit(x) => names_expr(*x),
        TypedExprKind::FieldAccess(x, _) => names_expr(*x),
        TypedExprKind::Index(l, r) => join_names(names_expr(*l), names_expr(*r)),
        TypedExprKind::Call(f, args) => join_names(names_expr(*f), names_exprs(args@)),
        TypedExprKind::MethodCall(o, _, args) => join_names(names_expr(*o), names_exprs(args@)),
        TypedExprKind::StaticMethodCall(_, _, args) => names_exprs(args@),
        TypedExprKind::EnumVariant(_, _, args) => names_exprs(args@),
        TypedExprKind::Panic(args) => names_exprs(args@),
        TypedExprKind::ArrayLit(args) => names_exprs(args@),
        TypedExprKind::TupleLit(args) => names_exprs(args@),
        TypedExprKind::MapLit(entries) => names_entries(entries@),
        TypedExprKind::StructLit(_, fields, spread) => join_names(names_fields(fields@), spread_names(spread)),
        TypedExprKind::If(c, tb, ee) => join_names(join_names(names_expr(*c), names_stmts(tb.stmts@)), else_names(ee)),
        TypedExprKind::Match(sc, arms) => join_names(names_expr(*sc), names_arms(arms@)),
        TypedExprKind::For(v1, v2, it, body) => join_names(
            join_names(names_expr(*it), defines(seq![v1@] + opt_name(v2))),
            names_stmts(body.stmts@),
        ),
        TypedExprKind::While(c, body) => join_names(names_expr(*c), names_stmts(body.stmts@)),
        TypedExprKind::Loop(body) => names_stmts(body.stmts@),
        TypedExprKind::Block(body) => names_stmts(body.stmts@),
        TypedExprKind::Guard(bind, x, body) => join_names(
            join_names(names_expr(*x), names_stmts(body.stmts@)),
            defines(opt_name(bind)),
        ),
        TypedExprKind::Lambda(ps, _, body) => join_names(defines(param_names(ps@)), names_stmts(body.stmts@)),
        TypedExprKind::InterpolatedString(parts) => names_parts(parts@),
        _ => no_names(),
    }
}

pub open spec fn target_names(t: TypedAssignTarget) -> (Seq<Seq<char>>, Seq<Seq<char>>)
    decreases t,
{
    match t {
        TypedAssignTarget::Variable(n, _) => uses(n@),
        TypedAssignTarget::Field(o, _, _) => names_expr(o),
        TypedAssignTarget::Index(o, i, _) => join_names(names_expr(o), names_expr(i)),
    }
}

pub open spec fn spread_names(sp: Option<(Box<TypedExpr>, Vec<(String, Type)>)>) -> (Seq<Seq<char>>, Seq<Seq<char>>)
    decreases sp,
{
    match sp {
        Some(x) => if x.1@.len() > 0 {
            names_expr(*x.0)
        } else {
            no_names()
        },
        None => no_names(),
    }
}

pub open spec fn else_names(e: Option<Box<TypedExpr>>) -> (Seq<Seq<char>>, Seq<Seq<char>>)
    decreases e,
{
    match e {
        Some(x) => names_expr(*x),
        None => no_names(),
    }
}

pub open spec fn part_names(p: TypedStringPart) -> (Seq<Seq<char>>, Seq<Seq<char>>)
    decreases p,
{
    match p {
        TypedStringPart::Expr(x) => names_expr(x),
        TypedStringPart::Literal(_) => no_names(),
    }
}

pub open spec fn names_exprs(es: Seq<TypedExpr>) -> (Seq<Seq<char>>, Seq<Seq<char>>)
    decreases es,
{
    if es.len() == 0 {
        no_names()
    } else {
        join_names(names_exprs(es.drop_last()), names_expr(es.last()))
    }
}

pub open spec fn names_entries(es: Seq<(TypedExpr, TypedExpr)>) -> (Seq<Seq<char>>, Seq<Seq<char>>)
    decreases es,
{
    if es.len() == 0 {
        no_names()
    } else {
        join_names(join_names(names_entries(es.drop_last()), names_expr(es.last().0)), names_expr(es.last().1))
    }
}

pub open spec fn names_fields(fs: Seq<(String, TypedExpr)>) -> (Seq<Seq<char>>, Seq<Seq<char>>)
    decreases fs,
{
    if fs.len() == 0 {
        no_names()
    } else {
        join_names(names_fields(fs.drop_last()), names_expr(fs.last().1))
    }
}

pub open spec fn names_arms(arms: Seq<crate::types::TypedMatchArm>) -> (Seq<Seq<char>>, Seq<Seq<char>>)
    decreases arms,
{
    if arms.len() == 0 {
        no_names()
    } else {
        join_names(names_arms(arms.drop_last()), names_expr(arms.last().body))
    }
}

pub open spec fn names_parts(ps: Seq<TypedStringPart>) -> (Seq<Seq<char>>, Seq<Seq<char>>)
    decreases ps,
{
    if ps.len() == 0 {
        no_names()
    } else {
        join_names(names_parts(ps.drop_last()), part_names(ps.last()))
    }
}

pub open spec fn names_stmts(ss: Seq<TypedStmt>) -> (Seq<Seq<char>>, Seq<Seq<char>>)
    decreases ss,
{
    if ss.len() == 0 {
        no_names()
    } else {
        join_names(names_stmts(ss.drop_last()), names_stmt(ss.last()))
    }
}

pub open spec fn names_stmt(st: TypedStmt) -> (Seq<Seq<char>>, Seq<Seq<char>>)
    decreases st,
{
    match st {
        TypedStmt::Let(d) => join_names(names_expr(d.value), defines(seq![d.name@])),
        TypedStmt::LetTuple(bs, v) => join_names(names_expr(v), defines(param_names(bs@))),
        TypedStmt::Assign(t, v) => join_names(target_names(*t), names_expr(*v)),
        TypedStmt::Return(v) => match v {
            Some(x) => names_expr(x),
            None => no_names(),
        },
        TypedStmt::ReturnError(x) => names_expr(x),
        TypedStmt::Expr(x) => names_expr(x),
        _ => no_names(),
    }
}

/// One step of the scan, from defined names `d0` and free names `f0` to
/// `d1` and `f1`, over code with names `n`: free names only grow, and only
/// by names the code uses; every name it uses that was neither defined
/// before nor is defined anywhere in it becomes free; only names the code
/// defines become defined.
pub open spec fn free_step(
    d0: Seq<Seq<char>>,
    d1: Seq<Seq<char>>,
    f0: Seq<Seq<char>>,
    f1: Seq<Seq<char>>,
    n: (Seq<Seq<char>>, Seq<Seq<char>>),
) -> bool {
    &&& forall|x: Seq<char>| #[trigger] f0.contains(x) ==> f1.contains(x)
    &&& forall|x: Seq<char>| #[trigger] f1.contains(x) ==> f0.contains(x) || n.0.contains(x)
    &&& forall|x: Seq<char>| #[trigger] n.0.contains(x) && !d0.contains(x) && !n.1.contains(x) ==> f1.contains(x)
    &&& forall|x: Seq<char>| #[trigger] d1.contains(x) ==> d0.contains(x) || n.1.contains(x)
}

pub proof fn lemma_free_compose(
    d0: Seq<Seq<char>>,
    d1: Seq<Seq<char>>,
    d2: Seq<Seq<char>>,
    f0: Seq<Seq<char>>,
    f1: Seq<Seq<char>>,
    f2: Seq<Seq<char>>,
    a: (Seq<Seq<char>>, Seq<Seq<char>>),
    b: (Seq<Seq<char>>, Seq<Seq<char>>),
)
    requires
        free_step(d0, d1, f0, f1, a),
        free_step(d1, d2, f1, f2, b),
    ensures
        free_step(d0, d2, f0, f2, join_names(a, b)),
{
    lemma_contains_concat(a.0, b.0);
    lemma_contains_concat(a.1, b.1);
    let j = join_names(a, b);
    assert forall|x: Seq<char>| #[trigger] j.0.contains(x) && !d0.contains(x) && !j.1.contains(x) implies f2.contains(x) by {
        if a.0.contains(x) {
            assert(f1.contains(x));
        } else {
            assert(b.0.contains(x));
            assert(!d1.contains(x));
        }
    }
    assert forall|x: Seq<char>| #[trigger] f2.contains(x) implies f0.contains(x) || j.0.contains(x) by {
        if f1.contains(x) {
        }
    }
    assert forall|x: Seq<char>| #[trigger] d2.contains(x) implies d0.contains(x) || j.1.contains(x) by {
        if d1.contains(x) {
        }
    }
}

pub proof fn lemma_free_none(d: Seq<Seq<char>>, f: Seq<Seq<char>>)
    ensures
        free_step(d, d, f, f, no_names()),
{
}

/// Records a use of `name`: a name not defined so far is free.
fn use_name(name: &String, defined: &Vec<String>, free: &mut Vec<String>, ghost_params: Ghost<Seq<Seq<char>>>)
    requires
        covers(views_of(defined@), ghost_params@),
    ensures
        adds_no_param(views_of(old(free)@), views_of(final(free)@), ghost_params@),
        free_step(views_of(defined@), views_of(defined@), views_of(old(free)@), views_of(final(free)@), uses(name@)),
{
    let ghost before = views_of(free@);
    let ghost one = uses(name@).0;
    proof {
        assert(one[0] == name@);
        assert forall|x: Seq<char>| #[trigger] one.contains(x) <==> x == name@ by {
            if one.contains(x) {
                let k = choose|k: int| 0 <= k < one.len() && one[k] == x;
            }
        }
    }
    if !names_contain(defined, name.as_str()) {
        free.push(name.clone());
        assert(views_of(free@) =~= before.push(name@));
        proof {
            lemma_contains_push(before, name@);
            assert(views_of(free@)[before.len() as int] == name@);
            assert(views_of(free@).contains(name@));
        }
    }
    proof {
        let after = views_of(free@);
        assert forall|x: Seq<char>| #[trigger] before.contains(x) implies after.contains(x) by {}
        assert forall|x: Seq<char>| #[trigger] after.contains(x) implies before.contains(x) || one.contains(x) by {}
        assert forall|x: Seq<char>| #[trigger] one.contains(x) && !views_of(defined@).contains(x)
            && !uses(name@).1.contains(x) implies after.contains(x) by {
            assert(x == name@);
        }
    }
}

/// Adds a defined name.
fn define_name(defined: &mut Vec<String>, name: &str, f: Ghost<Seq<Seq<char>>>, ps: Ghost<Seq<Seq<char>>>)
    requires
        covers(views_of(old(defined)@), ps@),
    ensures
        covers(views_of(final(defined)@), ps@),
        free_step(views_of(old(defined)@), views_of(final(defined)@), f@, f@, defines(seq![name@])),
        forall|x: Seq<char>| #[trigger] views_of(final(defined)@).contains(x) <==> (views_of(old(defined)@).contains(x) || x == name@),
{
    add_name(defined, name);
    proof {
        assert(seq![name@][0] == name@);
        assert forall|x: Seq<char>| #[trigger] views_of(defined@).contains(x) implies views_of(old(defined)@).contains(x)
            || defines(seq![name@]).1.contains(x) by {
            if x == name@ {
                assert(defines(seq![name@]).1[0] == x);
            }
        }
    }
}

/// The free variables of a closure body: names used before any definition
/// of them in the body (parameters count as defined), each listed once, in
/// order of first use. Every free name is used in the body and is not a
/// parameter; every name the body uses, that is neither a parameter nor
/// defined anywhere in the body, is free.
pub fn collect_free_vars(body: &TypedBlock, params: &Vec<(String, Type)>) -> (free: Vec<String>)
    ensures
        forall|x: Seq<char>| #[trigger] views_of(free@).contains(x) ==> !param_names(params@).contains(x)
            && names_stmts(body.stmts@).0.contains(x),
        forall|x: Seq<char>| #[trigger] names_stmts(body.stmts@).0.contains(x) && !param_names(params@).contains(x)
            && !names_stmts(body.stmts@).1.contains(x) ==> views_of(free@).contains(x),
        forall|i: int, j: int| 0 <= i < j < free@.len() ==> free@[i]@ != free@[j]@,
        forall|x: Seq<char>| occurs_stmts(body.stmts@, x) && !param_names(params@).contains(x) && !bound_stmts(body.stmts@, x)
            ==> #[trigger] views_of(free@).contains(x),
        forall|x: Seq<char>| #[trigger] views_of(free@).contains(x) ==> occurs_stmts(body.stmts@, x) && !param_names(params@).contains(x),
{
    let ghost ps = param_names(params@);
    let mut defined: Vec<String> = Vec::new();
    let mut i: usize = 0;
    while i < params.len()
        invariant
            i <= params@.len(),
            ps == param_names(params@),
            forall|k: int| 0 <= k < i ==> views_of(defined@).contains(params@[k].0@),
            forall|x: Seq<char>| #[trigger] views_of(defined@).contains(x) ==> ps.contains(x),
        decreases params.len() - i,
    {
        let ghost before = views_of(defined@);
        add_name(&mut defined, params[i].0.as_str());
        assert forall|k: int| 0 <= k < i + 1 implies #[trigger] views_of(defined@).contains(params@[k].0@) by {
            if k < i {
                assert(before.contains(params@[k].0@));
            }
        }
        assert(ps[i as int] == params@[i as int].0@);
        i = i + 1;
    }
    assert forall|x: Seq<char>| #[trigger] ps.contains(x) implies views_of(defined@).contains(x) by {
        let k = choose|k: int| 0 <= k < ps.len() && ps[k] == x;
        assert(views_of(defined@).contains(params@[k].0@));
    }
    let ghost d0 = views_of(defined@);
    let mut all: Vec<String> = Vec::new();
    collect_free_in_block(body, &mut defined, &mut all, Ghost(ps));
    let ghost n = names_stmts(body.stmts@);
    let mut free: Vec<String> = Vec::new();
    let mut k: usize = 0;
    while k < all.len()
        invariant
            k <= all@.len(),
            forall|x: Seq<char>| #[trigger] views_of(all@).contains(x) ==> !ps.contains(x) && n.0.contains(x),
            forall|x: Seq<char>| #[trigger] views_of(free@).contains(x) ==> views_of(all@).contains(x),
            forall|j: int| 0 <= j < k ==> views_of(free@).contains(all@[j]@),
            forall|a: int, b: int| 0 <= a < b < free@.len() ==> free@[a]@ != free@[b]@,
        decreases all.len() - k,
    {
        if !names_contain(&free, all[k].as_str()) {
            let ghost before = views_of(free@);
            assert(views_of(all@)[k as int] == all@[k as int]@);
            assert(views_of(all@).contains(all@[k as int]@));
            free.push(all[k].clone());
            assert(views_of(free@) =~= before.push(all@[k as int]@));
            proof {
                lemma_contains_push(before, all@[k as int]@);
                assert forall|x: Seq<char>| #[trigger] views_of(free@).contains(x) implies views_of(all@).contains(x) by {
                    if before.contains(x) {
                    }
                }
                assert forall|j: int| 0 <= j < k + 1 implies #[trigger] views_of(free@).contains(all@[j]@) by {
                    if j < k {
                        assert(before.contains(all@[j]@));
                    }
                }
                assert forall|a: int, b: int| 0 <= a < b < free@.len() implies free@[a]@ != free@[b]@ by {
                    if b == free@.len() - 1 {
                        assert(before[a] == free@[a]@);
                    }
                }
            }
        }
        k = k + 1;
    }
    proof {
        assert forall|x: Seq<char>| #[trigger] views_of(free@).contains(x) implies !param_names(params@).contains(x)
            && n.0.contains(x) by {
            assert(views_of(all@).contains(x));
        }
        assert forall|x: Seq<char>| #[trigger] n.0.contains(x) && !param_names(params@).contains(x) && !n.1.contains(x)
            implies views_of(free@).contains(x) by {
            assert(!d0.contains(x));
            assert(views_of(all@).contains(x));
            let j = choose|j: int| 0 <= j < views_of(all@).len() && views_of(all@)[j] == x;
            assert(views_of(free@).contains(all@[j]@));
        }
        assert forall|x: Seq<char>| occurs_stmts(body.stmts@, x) && !param_names(params@).contains(x) && !bound_stmts(body.stmts@, x)
            implies #[trigger] views_of(free@).contains(x) by {
            lemma_scan_stmts(body.stmts@, x);
        }
        assert forall|x: Seq<char>| #[trigger] views_of(free@).contains(x) implies occurs_stmts(body.stmts@, x) && !param_names(params@).contains(x) by {
            lemma_scan_stmts(body.stmts@, x);
        }
    }
    free
}

/// Collects the free names of each statement of a block, in order.
pub fn collect_free_in_block(block: &TypedBlock, defined: &mut Vec<String>, free: &mut Vec<String>, ps: Ghost<Seq<Seq<char>>>)
    requires
        covers(views_of(old(defined)@), ps@),
    ensures
        covers(views_of(final(defined)@), ps@),
        adds_no_param(views_of(old(free)@), views_of(final(free)@), ps@),
        free_step(
            views_of(old(defined)@),
            views_of(final(defined)@),
            views_of(old(free)@),
            views_of(final(free)@),
            names_stmts(block.stmts@),
        ),
    decreases block, 3nat,
{
    let ghost f0 = views_of(free@);
    let ghost d0 = views_of(defined@);
    proof {
        lemma_free_none(d0, f0);
        assert(block.stmts@.take(0) =~= Seq::<TypedStmt>::empty());
    }
    let mut i: usize = 0;
    while i < block.stmts.len()
        invariant
            i <= block.stmts@.len(),
            covers(views_of(defined@), ps@),
            adds_no_param(f0, views_of(free@), ps@),
            free_step(d0, views_of(defined@), f0, views_of(free@), names_stmts(block.stmts@.take(i as int))),
        decreases block.stmts.len() - i,
    {
        proof {
            assert(decreases_to!(block.stmts => block.stmts@[i as int]));
        }
        let ghost d1 = views_of(defined@);
        let ghost f1 = views_of(free@);
        collect_free_in_stmt(&block.stmts[i], defined, free, ps);
        proof {
            let ss = block.stmts@;
            lemma_free_compose(
                d0,
                d1,
                views_of(defined@),
                f0,
                f1,
                views_of(free@),
                names_stmts(ss.take(i as int)),
                names_stmt(ss[i as int]),
            );
            assert(ss.take(i as int + 1).drop_last() =~= ss.take(i as int));
            assert(ss.take(i as int + 1).last() == ss[i as int]);
        }
        i = i + 1;
    }
    assert(block.stmts@.take(block.stmts@.len() as int) =~= block.stmts@);
}

/// Collects the free names of a statement; `let` and destructuring define names.
pub fn collect_free_in_stmt(stmt: &TypedStmt, defined: &mut Vec<String>, free: &mut Vec<String>, ps: Ghost<Seq<Seq<char>>>)
    requires
        covers(views_of(old(defined)@), ps@),
    ensures
        covers(views_of(final(defined)@), ps@),
        adds_no_param(views_of(old(free)@), views_of(final(free)@), ps@),
        free_step(
            views_of(old(defined)@),
            views_of(final(defined)@),
            views_of(old(free)@),
            views_of(final(free)@),
            names_stmt(*stmt),
        ),
    decreases stmt, 2nat,
{
    let ghost d0 = views_of(defined@);
    let ghost f0 = views_of(free@);
    match stmt {
        TypedStmt::Let(decl) => {
            collect_free_in_expr(&decl.value, defined, free, ps);
            let ghost d1 = views_of(defined@);
            define_name(defined, decl.name.as_str(), Ghost(views_of(free@)), ps);
            proof {
                lemma_free_compose(d0, d1, views_of(defined@), f0, views_of(free@), views_of(free@), names_expr(decl.value), defines(seq![decl.name@]));
            }
        },
        TypedStmt::LetTuple(bindings, value) => {
            collect_free_in_expr(value, defined, free, ps);
            let ghost d1 = views_of(defined@);
            let ghost f1 = views_of(free@);
            proof {
                lemma_free_none(d1, f1);
                assert(param_names(bindings@.take(0)) =~= Seq::<Seq<char>>::empty());
            }
            let mut i: usize = 0;
            while i < bindings.len()
                invariant
                    i <= bindings@.len(),
                    covers(views_of(defined@), ps@),
                    f1 == views_of(free@),
                    free_step(d1, views_of(defined@), f1, f1, defines(param_names(bindings@.take(i as int)))),
                decreases bindings.len() - i,
            {
                let ghost d2 = views_of(defined@);
                define_name(defined, bindings[i].0.as_str(), Ghost(f1), ps);
                proof {
                    lemma_free_compose(d1, d2, views_of(defined@), f1, f1, f1, defines(param_names(bindings@.take(i as int))), defines(seq![bindings@[i as int].0@]));
                    assert(param_names(bindings@.take(i as int + 1)) =~= param_names(bindings@.take(i as int)) + seq![bindings@[i as int].0@]);
                    assert(join_names(defines(param_names(bindings@.take(i as int))), defines(seq![bindings@[i as int].0@])) =~= defines(param_names(bindings@.take(i as int + 1))));
                }
                i = i + 1;
            }
            proof {
                assert(bindings@.take(bindings@.len() as int) =~= bindings@);
                lemma_free_compose(d0, d1, views_of(defined@), f0, f1, f1, names_expr(*value), defines(param_names(bindings@)));
            }
        },
        TypedStmt::Assign(target, value) => {
            match &**target {
                TypedAssignTarget::Variable(name, _) => use_name(name, defined, free, ps),
                TypedAssignTarget::Field(obj, _, _) => collect_free_in_expr(obj, defined, free, ps),
                TypedAssignTarget::Index(obj, idx, _) => {
                    collect_free_in_expr(obj, defined, free, ps);
                    let ghost d1 = views_of(defined@);
                    let ghost f1 = views_of(free@);
                    collect_free_in_expr(idx, defined, free, ps);
                    proof {
                        lemma_free_compose(d0, d1, views_of(defined@), f0, f1, views_of(free@), names_expr(*obj), names_expr(*idx));
                    }
                },
            }
            let ghost d1 = views_of(defined@);
            let ghost f1 = views_of(free@);
            collect_free_in_expr(value, defined, free, ps);
            proof {
                lemma_free_compose(d0, d1, views_of(defined@), f0, f1, views_of(free@), target_names(**target), names_expr(**value));
            }
        },
        TypedStmt::Return(Some(e)) | TypedStmt::ReturnError(e) | TypedStmt::Expr(e) => {
            collect_free_in_expr(e, defined, free, ps);
        },
        _ => {
            proof {
                lemma_free_none(d0, f0);
            }
        },
    }
}

/// `collect_free_in_expr` for each expression of a list.
fn collect_free_in_exprs(exprs: &Vec<TypedExpr>, defined: &mut Vec<String>, free: &mut Vec<String>, ps: Ghost<Seq<Seq<char>>>)
    requires
        covers(views_of(old(defined)@), ps@),
    ensures
        covers(views_of(final(defined)@), ps@),
        adds_no_param(views_of(old(free)@), views_of(final(free)@), ps@),
        free_step(
            views_of(old(defined)@),
            views_of(final(defined)@),
            views_of(old(free)@),
            views_of(final(free)@),
            names_exprs(exprs@),
        ),
    decreases exprs, 3nat,
{
    let ghost f0 = views_of(free@);
    let ghost d0 = views_of(defined@);
    proof {
        lemma_free_none(d0, f0);
        assert(exprs@.take(0) =~= Seq::<TypedExpr>::empty());
    }
    let mut i: usize = 0;
    while i < exprs.len()
        invariant
            i <= exprs@.len(),
            covers(views_of(defined@), ps@),
            adds_no_param(f0, views_of(free@), ps@),
            free_step(d0, views_of(defined@), f0, views_of(free@), names_exprs(exprs@.take(i as int))),
        decreases exprs.len() - i,
    {
        proof {
            assert(decreases_to!(*exprs => exprs@[i as int]));
        }
        let ghost d1 = views_of(defined@);
        let ghost f1 = views_of(free@);
        collect_free_in_expr(&exprs[i], defined, free, ps);
        proof {
            let es = exprs@;
            lemma_free_compose(d0, d1, views_of(defined@), f0, f1, views_of(free@), names_exprs(es.take(i as int)), names_expr(es[i as int]));
            assert(es.take(i as int + 1).drop_last() =~= es.take(i as int));
            assert(es.take(i as int + 1).last() == es[i as int]);
        }
        i = i + 1;
    }
    assert(exprs@.take(exprs@.len() as int) =~= exprs@);
}

/// A copy of a list of names.
fn copy_names(v: &Vec<String>) -> (r: Vec<String>)
    ensures
        views_of(r@) == views_of(v@),
{
    let mut out: Vec<String> = Vec::new();
    let mut i: usize = 0;
    while i < v.len()
        invariant
            i <= v@.len(),
            views_of(out@) == views_of(v@.take(i as int)),
        decreases v.len() - i,
    {
        let ghost before = views_of(out@);
        let c = v[i].clone();
        assert(c@ == v@[i as int]@);
        out.push(c);
        assert(views_of(out@) =~= before.push(c@));
        assert(views_of(v@.take(i + 1)) =~= views_of(v@.take(i as int)).push(v@[i as int]@));
        assert(views_of(out@) =~= views_of(v@.take(i + 1)));
        i = i + 1;
    }
    assert(v@.take(i as int) =~= v@);
    out
}

/// Collects the free names of an expression, in order of use.
#[verifier::loop_isolation(false)]
pub fn collect_free_in_expr(expr: &TypedExpr, defined: &mut Vec<String>, free: &mut Vec<String>, ps: Ghost<Seq<Seq<char>>>)
    requires
        covers(views_of(old(defined)@), ps@),
    ensures
        covers(views_of(final(defined)@), ps@),
        adds_no_param(views_of(old(free)@), views_of(final(free)@), ps@),
        free_step(
            views_of(old(defined)@),
            views_of(final(defined)@),
            views_of(old(free)@),
            views_of(final(free)@),
            names_expr(*expr),
        ),
    decreases expr, 4nat,
{
    let ghost f0 = views_of(free@);
    let ghost d0 = views_of(defined@);
    match &expr.kind {
        TypedExprKind::Ident(name) => use_name(name, defined, free, ps),
        TypedExprKind::BinOp(l, _, r) | TypedExprKind::Range(l, r) | TypedExprKind::Index(l, r) => {
            collect_free_in_expr(l, defined, free, ps);
            let ghost d1 = views_of(defined@);
            let ghost f1 = views_of(free@);
            collect_free_in_expr(r, defined, free, ps);
            proof {
                lemma_free_compose(d0, d1, views_of(defined@), f0, f1, views_of(free@), names_expr(**l), names_expr(**r));
            }
        },
        TypedExprKind::UnaryOp(_, e) | TypedExprKind::As(e, _) | TypedExprKind::AsSafe(e, _) | TypedExprKind::Is(e, _)
        | TypedExprKind::Try(e) | TypedExprKind::ErrorLit(e) | TypedExprKind::FieldAccess(e, _) => {
            collect_free_in_expr(e, defined, free, ps);
        },
        TypedExprKind::Call(f, args) => {
            collect_free_in_expr(f, defined, free, ps);
            let ghost d1 = views_of(defined@);
            let ghost f1 = views_of(free@);
            collect_free_in_exprs(args, defined, free, ps);
            proof {
                lemma_free_compose(d0, d1, views_of(defined@), f0, f1, views_of(free@), names_expr(**f), names_exprs(args@));
            }
        },
        TypedExprKind::MethodCall(obj, _, args) => {
            collect_free_in_expr(obj, defined, free, ps);
            let ghost d1 = views_of(defined@);
            let ghost f1 = views_of(free@);
            collect_free_in_exprs(args, defined, free, ps);
            proof {
                lemma_free_compose(d0, d1, views_of(defined@), f0, f1, views_of(free@), names_expr(**obj), names_exprs(args@));
            }
        },
        TypedExprKind::StaticMethodCall(_, _, args) | TypedExprKind::EnumVariant(_, _, args) | TypedExprKind::Panic(args)
        | TypedExprKind::ArrayLit(args) | TypedExprKind::TupleLit(args) => {
            collect_free_in_exprs(args, defined, free, ps);
        },
        TypedExprKind::MapLit(entries) => {
            proof {
                lemma_free_none(d0, f0);
                assert(entries@.take(0) =~= Seq::<(TypedExpr, TypedExpr)>::empty());
            }
            let mut i: usize = 0;
            while i < entries.len()
                invariant
                    i <= entries@.len(),
                    covers(views_of(defined@), ps@),
                    adds_no_param(f0, views_of(free@), ps@),
                    free_step(d0, views_of(defined@), f0, views_of(free@), names_entries(entries@.take(i as int))),
                decreases entries.len() - i,
            {
                proof {
                    assert(decreases_to!(*entries => entries@[i as int]));
                }
                let ghost d1 = views_of(defined@);
                let ghost f1 = views_of(free@);
                collect_free_in_expr(&entries[i].0, defined, free, ps);
                let ghost d2 = views_of(defined@);
                let ghost f2 = views_of(free@);
                collect_free_in_expr(&entries[i].1, defined, free, ps);
                proof {
                    let es = entries@;
                    lemma_free_compose(d0, d1, d2, f0, f1, f2, names_entries(es.take(i as int)), names_expr(es[i as int].0));
                    lemma_free_compose(
                        d0,
                        d2,
                        views_of(defined@),
                        f0,
                        f2,
                        views_of(free@),
                        join_names(names_entries(es.take(i as int)), names_expr(es[i as int].0)),
                        names_expr(es[i as int].1),
                    );
                    assert(es.take(i as int + 1).drop_last() =~= es.take(i as int));
                    assert(es.take(i as int + 1).last() == es[i as int]);
                }
                i = i + 1;
            }
            assert(entries@.take(entries@.len() as int) =~= entries@);
        },
        TypedExprKind::StructLit(_, fields, spread) => {
            proof {
                lemma_free_none(d0, f0);
                assert(fields@.take(0) =~= Seq::<(String, TypedExpr)>::empty());
            }
            let mut i: usize = 0;
            while i < fields.len()
                invariant
                    i <= fields@.len(),
                    covers(views_of(defined@), ps@),
                    adds_no_param(f0, views_of(free@), ps@),
                    free_step(d0, views_of(defined@), f0, views_of(free@), names_fields(fields@.take(i as int))),
                decreases fields.len() - i,
            {
                proof {
                    assert(decreases_to!(*fields => fields@[i as int]));
                }
                let ghost d1 = views_of(defined@);
                let ghost f1 = views_of(free@);
                collect_free_in_expr(&fields[i].1, defined, free, ps);
                proof {
                    let fs = fields@;
                    lemma_free_compose(d0, d1, views_of(defined@), f0, f1, views_of(free@), names_fields(fs.take(i as int)), names_expr(fs[i as int].1));
                    assert(fs.take(i as int + 1).drop_last() =~= fs.take(i as int));
                    assert(fs.take(i as int + 1).last() == fs[i as int]);
                }
                i = i + 1;
            }
            assert(fields@.take(fields@.len() as int) =~= fields@);
            let ghost d1 = views_of(defined@);
            let ghost f1 = views_of(free@);
            match spread {
                Some((source, supplied)) => {
                    if supplied.len() > 0 {
                        collect_free_in_expr(source, defined, free, ps);
                    } else {
                        proof {
                            lemma_free_none(d1, f1);
                        }
                    }
                },
                None => {
                    proof {
                        lemma_free_none(d1, f1);
                    }
                },
            }
            proof {
                lemma_free_compose(d0, d1, views_of(defined@), f0, f1, views_of(free@), names_fields(fields@), spread_names(*spread));
            }
        },
        TypedExprKind::If(cond, then_b, else_e) => {
            collect_free_in_expr(cond, defined, free, ps);
            let ghost d1 = views_of(defined@);
            let ghost f1 = views_of(free@);
            collect_free_in_block(then_b, defined, free, ps);
            let ghost d2 = views_of(defined@);
            let ghost f2 = views_of(free@);
            match else_e {
                Some(e) => collect_free_in_expr(e, defined, free, ps),
                None => {
                    proof {
                        lemma_free_none(d2, f2);
                    }
                },
            }
            proof {
                let tail = else_names(*else_e);
                lemma_free_compose(d0, d1, d2, f0, f1, f2, names_expr(**cond), names_stmts(then_b.stmts@));
                lemma_free_compose(
                    d0,
                    d2,
                    views_of(defined@),
                    f0,
                    f2,
                    views_of(free@),
                    join_names(names_expr(**cond), names_stmts(then_b.stmts@)),
                    tail,
                );
            }
        },
        TypedExprKind::Match(scrut, arms) => {
            collect_free_in_expr(scrut, defined, free, ps);
            let ghost d1 = views_of(defined@);
            let ghost f1 = views_of(free@);
            proof {
                lemma_free_none(d1, f1);
                assert(arms@.take(0) =~= Seq::<crate::types::TypedMatchArm>::empty());
            }
            let mut i: usize = 0;
            while i < arms.len()
                invariant
                    i <= arms@.len(),
                    covers(views_of(defined@), ps@),
                    adds_no_param(f0, views_of(free@), ps@),
                    free_step(d1, views_of(defined@), f1, views_of(free@), names_arms(arms@.take(i as int))),
                decreases arms.len() - i,
            {
                proof {
                    assert(decreases_to!(*arms => arms@[i as int]));
                }
                let ghost d2 = views_of(defined@);
                let ghost f2 = views_of(free@);
                collect_free_in_expr(&arms[i].body, defined, free, ps);
                proof {
                    let a = arms@;
                    lemma_free_compose(d1, d2, views_of(defined@), f1, f2, views_of(free@), names_arms(a.take(i as int)), names_expr(a[i as int].body));
                    assert(a.take(i as int + 1).drop_last() =~= a.take(i as int));
                    assert(a.take(i as int + 1).last() == a[i as int]);
                }
                i = i + 1;
            }
            proof {
                assert(arms@.take(arms@.len() as int) =~= arms@);
                lemma_free_compose(d0, d1, views_of(defined@), f0, f1, views_of(free@), names_expr(**scrut), names_arms(arms@));
            }
        },
        TypedExprKind::For(v1, v2, iter, body) => {
            collect_free_in_expr(iter, defined, free, ps);
            let ghost d1 = views_of(defined@);
            let ghost f1 = views_of(free@);
            define_name(defined, v1.as_str(), Ghost(f1), ps);
            let ghost d2 = views_of(defined@);
            match v2 {
                Some(v) => define_name(defined, v.as_str(), Ghost(f1), ps),
                None => {
                    proof {
                        lemma_free_none(d2, f1);
                    }
                },
            }
            let ghost d3 = views_of(defined@);
            proof {
                let second = if v2.is_some() {
                    defines(opt_name(*v2))
                } else {
                    no_names()
                };
                lemma_free_compose(d1, d2, d3, f1, f1, f1, defines(seq![v1@]), second);
                assert(join_names(defines(seq![v1@]), second).0 =~= defines(seq![v1@] + opt_name(*v2)).0);
                assert(join_names(defines(seq![v1@]), second).1 =~= defines(seq![v1@] + opt_name(*v2)).1);
            }
            collect_free_in_block(body, defined, free, ps);
            proof {
                lemma_free_compose(d0, d1, d3, f0, f1, f1, names_expr(**iter), defines(seq![v1@] + opt_name(*v2)));
                lemma_free_compose(
                    d0,
                    d3,
                    views_of(defined@),
                    f0,
                    f1,
                    views_of(free@),
                    join_names(names_expr(**iter), defines(seq![v1@] + opt_name(*v2))),
                    names_stmts(body.stmts@),
                );
            }
        },
        TypedExprKind::While(cond, body) => {
            collect_free_in_expr(cond, defined, free, ps);
            let ghost d1 = views_of(defined@);
            let ghost f1 = views_of(free@);
            collect_free_in_block(body, defined, free, ps);
            proof {
                lemma_free_compose(d0, d1, views_of(defined@), f0, f1, views_of(free@), names_expr(**cond), names_stmts(body.stmts@));
            }
        },
        TypedExprKind::Loop(body) | TypedExprKind::Block(body) => collect_free_in_block(body, defined, free, ps),
        TypedExprKind::Guard(binding, e, else_b) => {
            collect_free_in_expr(e, defined, free, ps);
            let ghost d1 = views_of(defined@);
            let ghost f1 = views_of(free@);
            collect_free_in_block(else_b, defined, free, ps);
            let ghost d2 = views_of(defined@);
            let ghost f2 = views_of(free@);
            match binding {
                Some(n) => define_name(defined, n.as_str(), Ghost(f2), ps),
                None => {
                    proof {
                        lemma_free_none(d2, f2);
                    }
                },
            }
            proof {
                lemma_free_compose(d0, d1, d2, f0, f1, f2, names_expr(**e), names_stmts(else_b.stmts@));
                lemma_free_compose(
                    d0,
                    d2,
                    views_of(defined@),
                    f0,
                    f2,
                    f2,
                    join_names(names_expr(**e), names_stmts(else_b.stmts@)),
                    defines(opt_name(*binding)),
                );
            }
        },
        TypedExprKind::Lambda(params, _, body) => {
            let mut inner = copy_names(defined);
            let mut i: usize = 0;
            while i < params.len()
                invariant
                    i <= params@.len(),
                    covers(views_of(inner@), ps@),
                    forall|x: Seq<char>| #[trigger] views_of(inner@).contains(x) <==> (d0.contains(x) || param_names(
                        params@.take(i as int),
                    ).contains(x)),
                decreases params.len() - i,
            {
                let ghost before = views_of(inner@);
                add_name(&mut inner, params[i].0.as_str());
                proof {
                    let pt = param_names(params@.take(i as int));
                    let pt1 = param_names(params@.take(i as int + 1));
                    assert(pt1 =~= pt.push(params@[i as int].0@));
                    lemma_contains_push(pt, params@[i as int].0@);
                    assert forall|x: Seq<char>| #[trigger] views_of(inner@).contains(x) <==> (d0.contains(x) || pt1.contains(
                        x,
                    )) by {
                        assert(views_of(inner@).contains(x) <==> (before.contains(x) || x == params@[i as int].0@));
                        assert(before.contains(x) <==> (d0.contains(x) || pt.contains(x)));
                        assert(pt.push(params@[i as int].0@).contains(x) <==> (pt.contains(x) || x == params@[i as int].0@));
                    }
                }
                i = i + 1;
            }
            assert(params@.take(params@.len() as int) =~= params@);
            let ghost i0 = views_of(inner@);
            collect_free_in_block(body, &mut inner, free, ps);
            proof {
                let n = join_names(defines(param_names(params@)), names_stmts(body.stmts@));
                let nb = names_stmts(body.stmts@);
                lemma_contains_concat(Seq::<Seq<char>>::empty(), nb.0);
                lemma_contains_concat(param_names(params@), nb.1);
                assert forall|x: Seq<char>| #[trigger] n.0.contains(x) && !d0.contains(x) && !n.1.contains(x) implies views_of(
                    free@,
                ).contains(x) by {
                    assert(nb.0.contains(x));
                    assert(!i0.contains(x));
                }
                assert forall|x: Seq<char>| #[trigger] views_of(free@).contains(x) implies f0.contains(x) || n.0.contains(x) by {
                }
            }
        },
        TypedExprKind::InterpolatedString(parts) => {
            proof {
                lemma_free_none(d0, f0);
                assert(parts@.take(0) =~= Seq::<TypedStringPart>::empty());
            }
            let mut i: usize = 0;
            while i < parts.len()
                invariant
                    i <= parts@.len(),
                    covers(views_of(defined@), ps@),
                    adds_no_param(f0, views_of(free@), ps@),
                    free_step(d0, views_of(defined@), f0, views_of(free@), names_parts(parts@.take(i as int))),
                decreases parts.len() - i,
            {
                proof {
                    assert(decreases_to!(*parts => parts@[i as int]));
                }
                let ghost d1 = views_of(defined@);
                let ghost f1 = views_of(free@);
                match &parts[i] {
                    TypedStringPart::Expr(e) => collect_free_in_expr(e, defined, free, ps),
                    TypedStringPart::Literal(_) => {
                        proof {
                            lemma_free_none(d1, f1);
                        }
                    },
                }
                proof {
                    let p = parts@;
                    lemma_free_compose(d0, d1, views_of(defined@), f0, f1, views_of(free@), names_parts(p.take(i as int)), part_names(p[i as int]));
                    assert(p.take(i as int + 1).drop_last() =~= p.take(i as int));
                    assert(p.take(i as int + 1).last() == p[i as int]);
                }
                i = i + 1;
            }
            assert(parts@.take(parts@.len() as int) =~= parts@);
        },
        _ => {
            proof {
                lemma_free_none(d0, f0);
            }
        },
    }
}

/// Some closure in `e` (nested ones included) has `x` among the names its
/// body uses and not among its parameters; when `strict`, also not among the
/// names its body defines.
pub open spec fn closure_free(e: TypedExpr, x: Seq<char>, strict: bool) -> bool
    decreases e,
{
    match e.kind {
        TypedExprKind::Lambda(ps, _, body) => (names_stmts(body.stmts@).0.contains(x) && !param_names(ps@).contains(x)
            && (!strict || !names_stmts(body.stmts@).1.contains(x))) || closure_free_stmts(body.stmts@, x, strict),
        TypedExprKind::BinOp(l, _, r) => closure_free(*l, x, strict) || closure_free(*r, x, strict),
        TypedExprKind::Range(l, r) => closure_free(*l, x, strict) || closure_free(*r, x, strict),
        TypedExprKind::UnaryOp(_, a) => closure_free(*a, x, strict),
        TypedExprKind::As(a, _) => closure_free(*a, x, strict),
        TypedExprKind::AsSafe(a, _) => closure_free(*a, x, strict),
        TypedExprKind::Try(a) => closure_free(*a, x, strict),
        TypedExprKind::ErrorLit(a) => closure_free(*a, x, strict),
        TypedExprKind::Call(f, args) => closure_free(*f, x, strict) || closure_free_exprs(args@, x, strict),
        TypedExprKind::MethodCall(o, _, args) => closure_free(*o, x, strict) || closure_free_exprs(args@, x, strict),
        TypedExprKind::If(c, tb, ee) => closure_free(*c, x, strict) || closure_free_stmts(tb.stmts@, x, strict)
            || closure_free_else(ee, x, strict),
        TypedExprKind::Block(b) => closure_free_stmts(b.stmts@, x, strict),
        TypedExprKind::For(_, _, it, body) => closure_free(*it, x, strict) || closure_free_stmts(body.stmts@, x, strict),
        TypedExprKind::While(c, body) => closure_free(*c, x, strict) || closure_free_stmts(body.stmts@, x, strict),
        TypedExprKind::Guard(_, c, body) => closure_free(*c, x, strict) || closure_free_stmts(body.stmts@, x, strict),
        TypedExprKind::Loop(b) => closure_free_stmts(b.stmts@, x, strict),
        TypedExprKind::Match(sc, arms) => closure_free(*sc, x, strict) || closure_free_arms(arms@, x, strict),
        TypedExprKind::ArrayLit(es) => closure_free_exprs(es@, x, strict),
        TypedExprKind::TupleLit(es) => closure_free_exprs(es@, x, strict),
        TypedExprKind::StructLit(_, fields, spread) => closure_free_fields(fields@, x, strict) || closure_free_spread(
            spread,
            x,
            strict,
        ),
        _ => false,
    }
}

pub open spec fn closure_free_else(e: Option<Box<TypedExpr>>, x: Seq<char>, strict: bool) -> bool
    decreases e,
{
    match e {
        Some(a) => closure_free(*a, x, strict),
        None => false,
    }
}

pub open spec fn closure_free_spread(
    sp: Option<(Box<TypedExpr>, Vec<(String, Type)>)>,
    x: Seq<char>,
    strict: bool,
) -> bool
    decreases sp,
{
    match sp {
        Some(a) => a.1@.len() > 0 && closure_free(*a.0, x, strict),
        None => false,
    }
}

pub open spec fn closure_free_exprs(es: Seq<TypedExpr>, x: Seq<char>, strict: bool) -> bool
    decreases es,
{
    es.len() > 0 && (closure_free_exprs(es.drop_last(), x, strict) || closure_free(es.last(), x, strict))
}

pub open spec fn closure_free_fields(fs: Seq<(String, TypedExpr)>, x: Seq<char>, strict: bool) -> bool
    decreases fs,
{
    fs.len() > 0 && (closure_free_fields(fs.drop_last(), x, strict) || closure_free(fs.last().1, x, strict))
}

pub open spec fn closure_free_arms(arms: Seq<crate::types::TypedMatchArm>, x: Seq<char>, strict: bool) -> bool
    decreases arms,
{
    arms.len() > 0 && (closure_free_arms(arms.drop_last(), x, strict) || closure_free(arms.last().body, x, strict))
}

pub open spec fn closure_free_stmts(ss: Seq<TypedStmt>, x: Seq<char>, strict: bool) -> bool
    decreases ss,
{
    ss.len() > 0 && (closure_free_stmts(ss.drop_last(), x, strict) || closure_free_stmt(ss.last(), x, strict))
}

pub open spec fn closure_free_stmt(st: TypedStmt, x: Seq<char>, strict: bool) -> bool
    decreases st,
{
    match st {
        TypedStmt::Let(d) => closure_free(d.value, x, strict),
        TypedStmt::Assign(_, v) => closure_free(*v, x, strict),
        TypedStmt::Return(v) => match v {
            Some(a) => closure_free(a, x, strict),
            None => false,
        },
        TypedStmt::ReturnError(a) => closure_free(a, x, strict),
        TypedStmt::Expr(a) => closure_free(a, x, strict),
        _ => false,
    }
}

/// The names in `set` have no repetitions.
pub open spec fn distinct_names(set: Seq<String>) -> bool {
    forall|i: int, j: int| 0 <= i < j < set.len() ==> set[i]@ != set[j]@
}

pub open spec fn free_set(e: TypedExpr, strict: bool) -> Set<Seq<char>> {
    Set::new(|x: Seq<char>| closure_free(e, x, strict))
}

pub open spec fn free_set_exprs(es: Seq<TypedExpr>, strict: bool) -> Set<Seq<char>> {
    Set::new(|x: Seq<char>| closure_free_exprs(es, x, strict))
}

pub open spec fn free_set_stmts(ss: Seq<TypedStmt>, strict: bool) -> Set<Seq<char>> {
    Set::new(|x: Seq<char>| closure_free_stmts(ss, x, strict))
}

pub open spec fn free_set_stmt(st: TypedStmt, strict: bool) -> Set<Seq<char>> {
    Set::new(|x: Seq<char>| closure_free_stmt(st, x, strict))
}

pub open spec fn free_set_arms(a: Seq<crate::types::TypedMatchArm>, strict: bool) -> Set<Seq<char>> {
    Set::new(|x: Seq<char>| closure_free_arms(a, x, strict))
}

pub open spec fn free_set_fields(f: Seq<(String, TypedExpr)>, strict: bool) -> Set<Seq<char>> {
    Set::new(|x: Seq<char>| closure_free_fields(f, x, strict))
}

/// From captured names `c0` to `c1`: nothing is lost, only names of `up`
/// are added, and every name of `low` is present.
pub open spec fn cap_step(c0: Seq<Seq<char>>, c1: Seq<Seq<char>>, up: Set<Seq<char>>, low: Set<Seq<char>>) -> bool {
    &&& forall|x: Seq<char>| #[trigger] c0.contains(x) ==> c1.contains(x)
    &&& forall|x: Seq<char>| #[trigger] c1.contains(x) ==> c0.contains(x) || up.contains(x)
    &&& forall|x: Seq<char>| #[trigger] low.contains(x) ==> c1.contains(x)
}

pub proof fn lemma_cap_compose(
    c0: Seq<Seq<char>>,
    c1: Seq<Seq<char>>,
    c2: Seq<Seq<char>>,
    u1: Set<Seq<char>>,
    l1: Set<Seq<char>>,
    u2: Set<Seq<char>>,
    l2: Set<Seq<char>>,
)
    requires
        cap_step(c0, c1, u1, l1),
        cap_step(c1, c2, u2, l2),
    ensures
        cap_step(c0, c2, u1.union(u2), l1.union(l2)),
{
    assert forall|x: Seq<char>| #[trigger] c2.contains(x) implies c0.contains(x) || u1.union(u2).contains(x) by {
        if c1.contains(x) {
        }
    }
    assert forall|x: Seq<char>| #[trigger] l1.union(l2).contains(x) implies c2.contains(x) by {
        if l1.contains(x) {
            assert(c1.contains(x));
        }
    }
}

pub proof fn lemma_cap_none(c: Seq<Seq<char>>)
    ensures
        cap_step(c, c, Set::empty(), Set::empty()),
{
}

pub proof fn lemma_cap_weaken(
    c0: Seq<Seq<char>>,
    c1: Seq<Seq<char>>,
    u: Set<Seq<char>>,
    l: Set<Seq<char>>,
    u2: Set<Seq<char>>,
    l2: Set<Seq<char>>,
)
    requires
        cap_step(c0, c1, u, l),
        u.subset_of(u2),
        l2.subset_of(l),
    ensures
        cap_step(c0, c1, u2, l2),
{
    assert forall|x: Seq<char>| #[trigger] c1.contains(x) implies c0.contains(x) || u2.contains(x) by {
        if c1.contains(x) && !c0.contains(x) {
            assert(u.contains(x));
        }
    }
    assert forall|x: Seq<char>| #[trigger] l2.contains(x) implies c1.contains(x) by {
        assert(l.contains(x));
    }
}

/// The variables that closures in a function body capture: the free
/// variables of every closure in it, nested closures included, each once.
/// A captured name is one that some closure's body uses and that is not
/// among that closure's parameters; every name that some closure's body uses
/// without it being a parameter or defined in that body is captured.
pub fn find_captured_vars_in_block(body: &TypedBlock, params: &Vec<(String, Type)>) -> (r: Vec<String>)
    ensures
        distinct_names(r@),
        forall|x: Seq<char>| #[trigger] views_of(r@).contains(x) ==> closure_free_stmts(body.stmts@, x, false),
        forall|x: Seq<char>| #[trigger] closure_free_stmts(body.stmts@, x, true) ==> views_of(r@).contains(x),
{
    let mut result: Vec<String> = Vec::new();
    find_lambdas_in_block(body, params, &mut result);
    proof {
        assert forall|x: Seq<char>| #[trigger] views_of(result@).contains(x) implies closure_free_stmts(
            body.stmts@,
            x,
            false,
        ) by {
            assert(free_set_stmts(body.stmts@, false).contains(x));
        }
        assert forall|x: Seq<char>| #[trigger] closure_free_stmts(body.stmts@, x, true) implies views_of(
            result@,
        ).contains(x) by {
            assert(free_set_stmts(body.stmts@, true).contains(x));
        }
    }
    result
}

/// Adds each name of `names` that `set` lacks, keeping `set` free of repetitions.
fn add_all(set: &mut Vec<String>, names: &Vec<String>)
    requires
        distinct_names(old(set)@),
    ensures
        distinct_names(final(set)@),
        forall|x: Seq<char>| #[trigger] views_of(final(set)@).contains(x) <==> (views_of(old(set)@).contains(x)
            || views_of(names@).contains(x)),
{
    let ghost s0 = views_of(set@);
    let mut k: usize = 0;
    assert(views_of(names@.take(0)) =~= Seq::<Seq<char>>::empty());
    while k < names.len()
        invariant
            k <= names@.len(),
            distinct_names(set@),
            forall|x: Seq<char>| #[trigger] views_of(set@).contains(x) <==> (s0.contains(x) || views_of(
                names@.take(k as int),
            ).contains(x)),
        decreases names.len() - k,
    {
        let ghost before = set@;
        if !names_contain(set, names[k].as_str()) {
            set.push(names[k].clone());
            assert forall|i: int, j: int| 0 <= i < j < set@.len() implies set@[i]@ != set@[j]@ by {
                if j == set@.len() - 1 {
                    assert(views_of(before)[i] == before[i]@);
                }
            }
            assert(views_of(set@) =~= views_of(before).push(names@[k as int]@));
            proof {
                lemma_contains_push(views_of(before), names@[k as int]@);
            }
        }
        proof {
            let t = views_of(names@.take(k as int));
            let t1 = views_of(names@.take(k as int + 1));
            assert(t1 =~= t.push(names@[k as int]@));
            lemma_contains_push(t, names@[k as int]@);
            assert forall|x: Seq<char>| #[trigger] views_of(set@).contains(x) <==> (s0.contains(x) || t1.contains(x)) by {
                assert(t.push(names@[k as int]@).contains(x) <==> (t.contains(x) || x == names@[k as int]@));
                assert(views_of(before).contains(x) <==> (s0.contains(x) || t.contains(x)));
            }
        }
        k = k + 1;
    }
    assert(names@.take(names@.len() as int) =~= names@);
}

pub fn find_lambdas_in_block(block: &TypedBlock, outer_params: &Vec<(String, Type)>, captured: &mut Vec<String>)
    requires
        distinct_names(old(captured)@),
    ensures
        distinct_names(final(captured)@),
        cap_step(
            views_of(old(captured)@),
            views_of(final(captured)@),
            free_set_stmts(block.stmts@, false),
            free_set_stmts(block.stmts@, true),
        ),
    decreases block, 3nat,
{
    let ghost c0 = views_of(captured@);
    let ghost ss = block.stmts@;
    proof {
        lemma_cap_none(c0);
        assert(free_set_stmts(ss.take(0), false) =~= Set::empty());
        assert(free_set_stmts(ss.take(0), true) =~= Set::empty());
    }
    let mut i: usize = 0;
    while i < block.stmts.len()
        invariant
            i <= block.stmts@.len(),
            ss == block.stmts@,
            distinct_names(captured@),
            cap_step(c0, views_of(captured@), free_set_stmts(ss.take(i as int), false), free_set_stmts(ss.take(i as int), true)),
        decreases block.stmts.len() - i,
    {
        proof {
            assert(decreases_to!(block.stmts => block.stmts@[i as int]));
        }
        let ghost c1 = views_of(captured@);
        find_lambdas_in_stmt(&block.stmts[i], outer_params, captured);
        proof {
            let t = ss.take(i as int);
            let t1 = ss.take(i as int + 1);
            assert(t1.drop_last() =~= t);
            assert(t1.last() == ss[i as int]);
            lemma_cap_compose(
                c0,
                c1,
                views_of(captured@),
                free_set_stmts(t, false),
                free_set_stmts(t, true),
                free_set_stmt(ss[i as int], false),
                free_set_stmt(ss[i as int], true),
            );
            assert(free_set_stmts(t, false).union(free_set_stmt(ss[i as int], false)) =~= free_set_stmts(t1, false));
            assert(free_set_stmts(t, true).union(free_set_stmt(ss[i as int], true)) =~= free_set_stmts(t1, true));
        }
        i = i + 1;
    }
    assert(ss.take(ss.len() as int) =~= ss);
}

pub fn find_lambdas_in_stmt(stmt: &TypedStmt, outer_params: &Vec<(String, Type)>, captured: &mut Vec<String>)
    requires
        distinct_names(old(captured)@),
    ensures
        distinct_names(final(captured)@),
        cap_step(
            views_of(old(captured)@),
            views_of(final(captured)@),
            free_set_stmt(*stmt, false),
            free_set_stmt(*stmt, true),
        ),
    decreases stmt, 2nat,
{
    let ghost c0 = views_of(captured@);
    match stmt {
        TypedStmt::Let(decl) => {
            find_lambdas_in_expr(&decl.value, outer_params, captured);
            assert(free_set(decl.value, false) =~= free_set_stmt(*stmt, false));
            assert(free_set(decl.value, true) =~= free_set_stmt(*stmt, true));
        },
        TypedStmt::Assign(_, value) => {
            find_lambdas_in_expr(value, outer_params, captured);
            assert(free_set(**value, false) =~= free_set_stmt(*stmt, false));
            assert(free_set(**value, true) =~= free_set_stmt(*stmt, true));
        },
        TypedStmt::Return(Some(e)) | TypedStmt::ReturnError(e) | TypedStmt::Expr(e) => {
            find_lambdas_in_expr(e, outer_params, captured);
            assert(free_set(*e, false) =~= free_set_stmt(*stmt, false));
            assert(free_set(*e, true) =~= free_set_stmt(*stmt, true));
        },
        _ => {
            proof {
                lemma_cap_none(c0);
                assert(free_set_stmt(*stmt, false) =~= Set::empty());
                assert(free_set_stmt(*stmt, true) =~= Set::empty());
            }
        },
    }
}

fn find_lambdas_in_exprs(exprs: &Vec<TypedExpr>, outer_params: &Vec<(String, Type)>, captured: &mut Vec<String>)
    requires
        distinct_names(old(captured)@),
    ensures
        distinct_names(final(captured)@),
        cap_step(
            views_of(old(captured)@),
            views_of(final(captured)@),
            free_set_exprs(exprs@, false),
            free_set_exprs(exprs@, true),
        ),
    decreases exprs, 3nat,
{
    let ghost c0 = views_of(captured@);
    let ghost es = exprs@;
    proof {
        lemma_cap_none(c0);
        assert(free_set_exprs(es.take(0), false) =~= Set::empty());
        assert(free_set_exprs(es.take(0), true) =~= Set::empty());
    }
    let mut i: usize = 0;
    while i < exprs.len()
        invariant
            i <= exprs@.len(),
            es == exprs@,
            distinct_names(captured@),
            cap_step(c0, views_of(captured@), free_set_exprs(es.take(i as int), false), free_set_exprs(es.take(i as int), true)),
        decreases exprs.len() - i,
    {
        proof {
            assert(decreases_to!(*exprs => exprs@[i as int]));
        }
        let ghost c1 = views_of(captured@);
        find_lambdas_in_expr(&exprs[i], outer_params, captured);
        proof {
            let t = es.take(i as int);
            let t1 = es.take(i as int + 1);
            assert(t1.drop_last() =~= t);
            assert(t1.last() == es[i as int]);
            lemma_cap_compose(
                c0,
                c1,
                views_of(captured@),
                free_set_exprs(t, false),
                free_set_exprs(t, true),
                free_set(es[i as int], false),
                free_set(es[i as int], true),
            );
            assert(free_set_exprs(t, false).union(free_set(es[i as int], false)) =~= free_set_exprs(t1, false));
            assert(free_set_exprs(t, true).union(free_set(es[i as int], true)) =~= free_set_exprs(t1, true));
        }
        i = i + 1;
    }
    assert(es.take(es.len() as int) =~= es);
}

/// Two children visited one after the other.
proof fn lemma_cap_pair(
    c0: Seq<Seq<char>>,
    c1: Seq<Seq<char>>,
    c2: Seq<Seq<char>>,
    u1: Set<Seq<char>>,
    l1: Set<Seq<char>>,
    u2: Set<Seq<char>>,
    l2: Set<Seq<char>>,
    u: Set<Seq<char>>,
    l: Set<Seq<char>>,
)
    requires
        cap_step(c0, c1, u1, l1),
        cap_step(c1, c2, u2, l2),
        u1.union(u2).subset_of(u),
        l.subset_of(l1.union(l2)),
    ensures
        cap_step(c0, c2, u, l),
{
    lemma_cap_compose(c0, c1, c2, u1, l1, u2, l2);
    lemma_cap_weaken(c0, c2, u1.union(u2), l1.union(l2), u, l);
}

#[verifier::loop_isolation(false)]
pub fn find_lambdas_in_expr(expr: &TypedExpr, outer_params: &Vec<(String, Type)>, captured: &mut Vec<String>)
    requires
        distinct_names(old(captured)@),
    ensures
        distinct_names(final(captured)@),
        cap_step(views_of(old(captured)@), views_of(final(captured)@), free_set(*expr, false), free_set(*expr, true)),
    decreases expr, 4nat,
{
    let ghost c0 = views_of(captured@);
    let ghost up = free_set(*expr, false);
    let ghost low = free_set(*expr, true);
    match &expr.kind {
        TypedExprKind::Lambda(params, _, body) => {
            let free = collect_free_vars(body, params);
            add_all(captured, &free);
            let ghost c1 = views_of(captured@);
            let ghost nb = names_stmts(body.stmts@);
            let ghost u1 = Set::new(|x: Seq<char>| nb.0.contains(x) && !param_names(params@).contains(x));
            let ghost l1 = Set::new(
                |x: Seq<char>| nb.0.contains(x) && !param_names(params@).contains(x) && !nb.1.contains(x),
            );
            assert(cap_step(c0, c1, u1, l1));
            find_lambdas_in_block(body, params, captured);
            proof {
                lemma_cap_pair(
                    c0,
                    c1,
                    views_of(captured@),
                    u1,
                    l1,
                    free_set_stmts(body.stmts@, false),
                    free_set_stmts(body.stmts@, true),
                    up,
                    low,
                );
            }
        },
        TypedExprKind::BinOp(l, _, r) | TypedExprKind::Range(l, r) => {
            find_lambdas_in_expr(l, outer_params, captured);
            let ghost c1 = views_of(captured@);
            find_lambdas_in_expr(r, outer_params, captured);
            proof {
                lemma_cap_pair(
                    c0,
                    c1,
                    views_of(captured@),
                    free_set(**l, false),
                    free_set(**l, true),
                    free_set(**r, false),
                    free_set(**r, true),
                    up,
                    low,
                );
            }
        },
        TypedExprKind::UnaryOp(_, e) | TypedExprKind::As(e, _) | TypedExprKind::AsSafe(e, _) | TypedExprKind::Try(e)
        | TypedExprKind::ErrorLit(e) => {
            find_lambdas_in_expr(e, outer_params, captured);
            proof {
                lemma_cap_weaken(c0, views_of(captured@), free_set(**e, false), free_set(**e, true), up, low);
            }
        },
        TypedExprKind::Call(f, args) => {
            find_lambdas_in_expr(f, outer_params, captured);
            let ghost c1 = views_of(captured@);
            find_lambdas_in_exprs(args, outer_params, captured);
            proof {
                lemma_cap_pair(
                    c0,
                    c1,
                    views_of(captured@),
                    free_set(**f, false),
                    free_set(**f, true),
                    free_set_exprs(args@, false),
                    free_set_exprs(args@, true),
                    up,
                    low,
                );
            }
        },
        TypedExprKind::MethodCall(obj, _, args) => {
            find_lambdas_in_expr(obj, outer_params, captured);
            let ghost c1 = views_of(captured@);
            find_lambdas_in_exprs(args, outer_params, captured);
            proof {
                lemma_cap_pair(
                    c0,
                    c1,
                    views_of(captured@),
                    free_set(**obj, false),
                    free_set(**obj, true),
                    free_set_exprs(args@, false),
                    free_set_exprs(args@, true),
                    up,
                    low,
                );
            }
        },
        TypedExprKind::If(cond, then_b, else_e) => {
            find_lambdas_in_expr(cond, outer_params, captured);
            let ghost c1 = views_of(captured@);
            find_lambdas_in_block(then_b, outer_params, captured);
            let ghost c2 = views_of(captured@);
            proof {
                lemma_cap_compose(
                    c0,
                    c1,
                    c2,
                    free_set(**cond, false),
                    free_set(**cond, true),
                    free_set_stmts(then_b.stmts@, false),
                    free_set_stmts(then_b.stmts@, true),
                );
            }
            let ghost ue = Set::new(|x: Seq<char>| closure_free_else(*else_e, x, false));
            let ghost le = Set::new(|x: Seq<char>| closure_free_else(*else_e, x, true));
            match else_e {
                Some(e) => {
                    find_lambdas_in_expr(e, outer_params, captured);
                    proof {
                        lemma_cap_weaken(c2, views_of(captured@), free_set(**e, false), free_set(**e, true), ue, le);
                    }
                },
                None => {
                    proof {
                        lemma_cap_none(c2);
                        lemma_cap_weaken(c2, c2, Set::empty(), Set::empty(), ue, le);
                    }
                },
            }
            proof {
                lemma_cap_pair(
                    c0,
                    c2,
                    views_of(captured@),
                    free_set(**cond, false).union(free_set_stmts(then_b.stmts@, false)),
                    free_set(**cond, true).union(free_set_stmts(then_b.stmts@, true)),
                    ue,
                    le,
                    up,
                    low,
                );
            }
        },
        TypedExprKind::Block(b) | TypedExprKind::Loop(b) => {
            find_lambdas_in_block(b, outer_params, captured);
            proof {
                lemma_cap_weaken(c0, views_of(captured@), free_set_stmts(b.stmts@, false), free_set_stmts(b.stmts@, true), up, low);
            }
        },
        TypedExprKind::For(_, _, iter, body) | TypedExprKind::While(iter, body) | TypedExprKind::Guard(_, iter, body) => {
            find_lambdas_in_expr(iter, outer_params, captured);
            let ghost c1 = views_of(captured@);
            find_lambdas_in_block(body, outer_params, captured);
            proof {
                lemma_cap_pair(
                    c0,
                    c1,
                    views_of(captured@),
                    free_set(**iter, false),
                    free_set(**iter, true),
                    free_set_stmts(body.stmts@, false),
                    free_set_stmts(body.stmts@, true),
                    up,
                    low,
                );
            }
        },
        TypedExprKind::Match(scrut, arms) => {
            find_lambdas_in_expr(scrut, outer_params, captured);
            let ghost c1 = views_of(captured@);
            let ghost a = arms@;
            proof {
                lemma_cap_none(c1);
                assert(free_set_arms(a.take(0), false) =~= Set::empty());
                assert(free_set_arms(a.take(0), true) =~= Set::empty());
            }
            let mut i: usize = 0;
            while i < arms.len()
                invariant
                    i <= arms@.len(),
                    a == arms@,
                    distinct_names(captured@),
                    cap_step(c1, views_of(captured@), free_set_arms(a.take(i as int), false), free_set_arms(a.take(i as int), true)),
                decreases arms.len() - i,
            {
                proof {
                    assert(decreases_to!(*arms => arms@[i as int]));
                }
                let ghost c2 = views_of(captured@);
                find_lambdas_in_expr(&arms[i].body, outer_params, captured);
                proof {
                    let t = a.take(i as int);
                    let t1 = a.take(i as int + 1);
                    assert(t1.drop_last() =~= t);
                    assert(t1.last() == a[i as int]);
                    lemma_cap_compose(
                        c1,
                        c2,
                        views_of(captured@),
                        free_set_arms(t, false),
                        free_set_arms(t, true),
                        free_set(a[i as int].body, false),
                        free_set(a[i as int].body, true),
                    );
                    assert(free_set_arms(t, false).union(free_set(a[i as int].body, false)) =~= free_set_arms(t1, false));
                    assert(free_set_arms(t, true).union(free_set(a[i as int].body, true)) =~= free_set_arms(t1, true));
                }
                i = i + 1;
            }
            proof {
                assert(a.take(a.len() as int) =~= a);
                lemma_cap_pair(
                    c0,
                    c1,
                    views_of(captured@),
                    free_set(**scrut, false),
                    free_set(**scrut, true),
                    free_set_arms(a, false),
                    free_set_arms(a, true),
                    up,
                    low,
                );
            }
        },
        TypedExprKind::ArrayLit(elems) | TypedExprKind::TupleLit(elems) => {
            find_lambdas_in_exprs(elems, outer_params, captured);
            proof {
                lemma_cap_weaken(c0, views_of(captured@), free_set_exprs(elems@, false), free_set_exprs(elems@, true), up, low);
            }
        },
        TypedExprKind::StructLit(_, fields, spread) => {
            let ghost f = fields@;
            proof {
                lemma_cap_none(c0);
                assert(free_set_fields(f.take(0), false) =~= Set::empty());
                assert(free_set_fields(f.take(0), true) =~= Set::empty());
            }
            let mut i: usize = 0;
            while i < fields.len()
                invariant
                    i <= fields@.len(),
                    f == fields@,
                    distinct_names(captured@),
                    cap_step(c0, views_of(captured@), free_set_fields(f.take(i as int), false), free_set_fields(f.take(i as int), true)),
                decreases fields.len() - i,
            {
                proof {
                    assert(decreases_to!(*fields => fields@[i as int]));
                }
                let ghost c2 = views_of(captured@);
                find_lambdas_in_expr(&fields[i].1, outer_params, captured);
                proof {
                    let t = f.take(i as int);
                    let t1 = f.take(i as int + 1);
                    assert(t1.drop_last() =~= t);
                    assert(t1.last() == f[i as int]);
                    lemma_cap_compose(
                        c0,
                        c2,
                        views_of(captured@),
                        free_set_fields(t, false),
                        free_set_fields(t, true),
                        free_set(f[i as int].1, false),
                        free_set(f[i as int].1, true),
                    );
                    assert(free_set_fields(t, false).union(free_set(f[i as int].1, false)) =~= free_set_fields(t1, false));
                    assert(free_set_fields(t, true).union(free_set(f[i as int].1, true)) =~= free_set_fields(t1, true));
                }
                i = i + 1;
            }
            assert(f.take(f.len() as int) =~= f);
            let ghost c1 = views_of(captured@);
            let ghost us = Set::new(|x: Seq<char>| closure_free_spread(*spread, x, false));
            let ghost ls = Set::new(|x: Seq<char>| closure_free_spread(*spread, x, true));
            match spread {
                Some((source, supplied)) => {
                    if supplied.len() > 0 {
                        find_lambdas_in_expr(source, outer_params, captured);
                        proof {
                            lemma_cap_weaken(c1, views_of(captured@), free_set(**source, false), free_set(**source, true), us, ls);
                        }
                    } else {
                        proof {
                            lemma_cap_none(c1);
                            lemma_cap_weaken(c1, c1, Set::empty(), Set::empty(), us, ls);
                        }
                    }
                },
                None => {
                    proof {
                        lemma_cap_none(c1);
                        lemma_cap_weaken(c1, c1, Set::empty(), Set::empty(), us, ls);
                    }
                },
            }
            proof {
                lemma_cap_pair(
                    c0,
                    c1,
                    views_of(captured@),
                    free_set_fields(f, false),
                    free_set_fields(f, true),
                    us,
                    ls,
                    up,
                    low,
                );
            }
        },
        _ => {
            proof {
                lemma_cap_none(c0);
                lemma_cap_weaken(c0, c0, Set::empty(), Set::empty(), up, low);
            }
        },
    }
}

} // verus!
