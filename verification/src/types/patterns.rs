//! Match patterns: the variables each pattern binds, and whether the arms
//! of a match cover every value of the scrutinee's type.
use vstd::prelude::*;
use crate::ast::{MatchArm, Pattern, PatternKind, Span};
use crate::error::CompileError;
use crate::text::{cat2, cat3, cat4, cat5, str_eq, usize_to_string};
use super::{Type, TypeView, views};
use super::checker::TypeChecker;
use super::exprs::{variant_position, lemma_variant_position_prefix};
use super::resolve::type_of_expr;

verus! {

/// The arm's pattern matches every value (`_` or a binding).
pub open spec fn catch_all(arm: MatchArm) -> bool {
    arm.pattern.kind is Wildcard || arm.pattern.kind is Binding
}

/// The variant name an arm's pattern tests for, if it tests for one.
pub open spec fn pattern_variant(arm: MatchArm) -> Option<Seq<char>> {
    match arm.pattern.kind {
        PatternKind::EnumVariant(_, v, _) => Some(v@),
        PatternKind::QualifiedEnumVariant(_, _, v, _) => Some(v@),
        PatternKind::IsEnumVariant(_, v) => Some(v@),
        _ => None,
    }
}

/// Arm `arm` covers variant `k` of `vs`: it names that variant (the first
/// variant of that name, if several share it).
pub open spec fn covers_variant(arm: MatchArm, vs: Seq<super::VariantInfo>, k: int) -> bool {
    pattern_variant(arm) == Some(vs[k].name@) && variant_position(vs, vs[k].name@) == Some(k)
}

/// Arm `arm` is `is T` for a written type that stands for `t`.
pub open spec fn covers_member(info: super::TypeInfo, cur: Option<String>, arm: MatchArm, t: TypeView) -> bool {
    match arm.pattern.kind {
        PatternKind::IsType(te) => type_of_expr(info, cur, te) == Some(t),
        _ => false,
    }
}

/// Some arm covers variant `k` of `vs`.
pub open spec fn variant_covered(arms: Seq<MatchArm>, vs: Seq<super::VariantInfo>, k: int) -> bool {
    exists|i: int| 0 <= i < arms.len() && #[trigger] covers_variant(arms[i], vs, k)
}

/// Some arm tests for the member type `t`.
pub open spec fn member_covered(info: super::TypeInfo, cur: Option<String>, arms: Seq<MatchArm>, t: TypeView) -> bool {
    exists|i: int| 0 <= i < arms.len() && #[trigger] covers_member(info, cur, arms[i], t)
}

/// Some arm is the pattern `b` for a boolean.
pub open spec fn has_bool_arm(arms: Seq<MatchArm>, b: bool) -> bool {
    exists|i: int| 0 <= i < arms.len() && #[trigger] arms[i].pattern.kind == PatternKind::BoolLit(b)
}

/// The arms of a match on a value of type `ty` cover every value: an arm
/// matches anything, or the arms name every variant of the enum, both
/// booleans, or every member type of the union.
pub open spec fn exhaustive(info: super::TypeInfo, cur: Option<String>, ty: TypeView, arms: Seq<MatchArm>) -> bool {
    ||| exists|i: int| 0 <= i < arms.len() && #[trigger] catch_all(arms[i])
    ||| match ty {
        TypeView::Enum(name) => match info.enums.get_spec(name) {
            Some(ei) => forall|k: int| 0 <= k < ei.variants@.len() ==> #[trigger] variant_covered(arms, ei.variants@, k),
            None => true,
        },
        TypeView::Bool => has_bool_arm(arms, true) && has_bool_arm(arms, false),
        TypeView::Union(ms) => forall|m: int| 0 <= m < ms.len() ==> #[trigger] member_covered(info, cur, arms, ms[m]),
        _ => false,
    }
}

/// Bound names with their types, as views.
pub open spec fn binding_views(b: Seq<(String, Type)>) -> Seq<(Seq<char>, TypeView)> {
    Seq::new(b.len(), |i: int| (b[i].0@, b[i].1@))
}

/// The variables that the first `n` names of a variant pattern bind: each
/// name but `_`, with the type of the field at its position (names past the
/// last field bind nothing).
pub open spec fn named_fields(names: Seq<String>, fields: Seq<Type>, n: int) -> Seq<(Seq<char>, TypeView)>
    decreases n,
{
    if n <= 0 {
        Seq::empty()
    } else {
        let prev = named_fields(names, fields, n - 1);
        if names[n - 1]@ == "_"@ || n - 1 >= fields.len() {
            prev
        } else {
            prev.push((names[n - 1]@, fields[n - 1]@))
        }
    }
}

/// What checking a variant pattern against enum `e` gives: nothing bound when
/// the enum or variant is unknown, an error on a wrong number of names (when
/// `exact`), else the named fields.
pub open spec fn variant_pattern_ok(
    e: Option<super::EnumInfo>,
    v: Seq<char>,
    names: Seq<String>,
    exact: bool,
    r: Result<Vec<(String, Type)>, CompileError>,
) -> bool {
    match e {
        Some(ei) => match variant_position(ei.variants@, v) {
            Some(k) => if exact && names.len() != ei.variants@[k].fields@.len() {
                r is Err
            } else {
                r matches Ok(b) && binding_views(b@) == named_fields(names, ei.variants@[k].fields@, names.len() as int)
            },
            None => r matches Ok(b) && b@.len() == 0,
        },
        None => r matches Ok(b) && b@.len() == 0,
    }
}

/// The type a binding pattern gives its variable.
pub open spec fn binding_type(scrutinee: TypeView) -> TypeView {
    match scrutinee {
        TypeView::Result(ok, _) => *ok,
        TypeView::Optional(inner) => *inner,
        _ => scrutinee,
    }
}

impl TypeChecker {
    /// The variables a pattern binds, with their types.
    #[verifier::loop_isolation(false)]
    pub fn check_pattern(&self, pattern: &Pattern, scrutinee_ty: &Type) -> (r: Result<Vec<(String, Type)>, CompileError>)
        ensures
            match pattern.kind {
                PatternKind::Binding(n) => n@ != "_"@ ==> (r matches Ok(b) && b@.len() == 1 && b@[0].0@ == n@
                    && b@[0].1@ == binding_type(scrutinee_ty@)),
                PatternKind::Wildcard => r matches Ok(b) && b@.len() == 0,
                PatternKind::EnumVariant(tn, v, names) => variant_pattern_ok(
                    self.type_info.enums.get_spec(tn@),
                    v@,
                    names@,
                    true,
                    r,
                ),
                PatternKind::QualifiedEnumVariant(m, tn, v, names) => variant_pattern_ok(
                    match self.type_info.modules.get_spec(m@) {
                        Some(mi) => mi.enums.get_spec(tn@),
                        None => None,
                    },
                    v@,
                    names@,
                    false,
                    r,
                ),
                PatternKind::Error(n) => r matches Ok(b) && b@.len() == 1 && b@[0].0@ == n@ && b@[0].1@ == (
                match scrutinee_ty@ {
                    TypeView::Result(_, e) => *e,
                    _ => TypeView::String,
                }),
                _ => r matches Ok(b) && b@.len() == 0,
            },
    {
        let mut bindings: Vec<(String, Type)> = Vec::new();
        match &pattern.kind {
            PatternKind::Binding(name) => {
                if !str_eq(name.as_str(), "_") {
                    let ty = match scrutinee_ty {
                        Type::Result(ok, _) => ok.deep_clone(),
                        Type::Optional(inner) => inner.deep_clone(),
                        _ => scrutinee_ty.deep_clone(),
                    };
                    bindings.push((name.clone(), ty));
                }
            },
            PatternKind::EnumVariant(tname, variant, bound_names) => {
                match self.type_info.enums.get(tname.as_str()) {
                    Some(info) => {
                        let mut i: usize = 0;
                        while i < info.variants.len()
                            invariant
                                i <= info.variants@.len(),
                                bindings@.len() == 0,
                                variant_position(info.variants@.take(i as int), variant@) is None,
                            decreases info.variants.len() - i,
                        {
                            proof {
                                assert(info.variants@.take(i as int + 1).drop_last() =~= info.variants@.take(i as int));
                            }
                            let v = &info.variants[i];
                            if str_eq(v.name.as_str(), variant.as_str()) {
                                proof {
                                    assert(info.variants@.take(i as int + 1).last() == info.variants@[i as int]);
                                    assert(variant_position(info.variants@.take(i as int + 1), variant@) == Some(i as int));
                                    lemma_variant_position_prefix(info.variants@, variant@, i as int + 1);
                                }
                                if bound_names.len() != v.fields.len() {
                                    let a = usize_to_string(v.fields.len());
                                    let b = usize_to_string(bound_names.len());
                                    let msg = cat5("pattern for '", tname.as_str(), ".", variant.as_str(), "' expects ");
                                    let msg = cat5(msg.as_str(), a.as_str(), " bindings, got ", b.as_str(), "");
                                    return Err(CompileError::new(msg, pattern.span));
                                }
                                let mut k: usize = 0;
                                while k < bound_names.len()
                                    invariant
                                        k <= bound_names@.len(),
                                        bound_names@.len() == v.fields@.len(),
                                        binding_views(bindings@) =~= named_fields(bound_names@, v.fields@, k as int),
                                    decreases bound_names.len() - k,
                                {
                                    if !str_eq(bound_names[k].as_str(), "_") {
                                        let ghost before = bindings@;
                                        bindings.push((bound_names[k].clone(), v.fields[k].deep_clone()));
                                        assert(binding_views(bindings@) =~= binding_views(before).push(
                                            (bound_names@[k as int]@, v.fields@[k as int]@),
                                        ));
                                    }
                                    k = k + 1;
                                }
                                return Ok(bindings);
                            }
                            i = i + 1;
                        }
                        assert(info.variants@.take(info.variants@.len() as int) =~= info.variants@);
                    },
                    None => {},
                }
            },
            PatternKind::QualifiedEnumVariant(module, tname, variant, bound_names) => {
                match self.type_info.modules.get(module.as_str()) {
                    Some(mi) => match mi.enums.get(tname.as_str()) {
                        Some(info) => {
                            let mut i: usize = 0;
                            while i < info.variants.len()
                                invariant
                                    i <= info.variants@.len(),
                                    bindings@.len() == 0,
                                    variant_position(info.variants@.take(i as int), variant@) is None,
                                decreases info.variants.len() - i,
                            {
                                proof {
                                    assert(info.variants@.take(i as int + 1).drop_last() =~= info.variants@.take(i as int));
                                }
                                let v = &info.variants[i];
                                if str_eq(v.name.as_str(), variant.as_str()) {
                                    proof {
                                        assert(info.variants@.take(i as int + 1).last() == info.variants@[i as int]);
                                        assert(variant_position(info.variants@.take(i as int + 1), variant@) == Some(i as int));
                                        lemma_variant_position_prefix(info.variants@, variant@, i as int + 1);
                                    }
                                    let mut k: usize = 0;
                                    while k < bound_names.len()
                                        invariant
                                            k <= bound_names@.len(),
                                            binding_views(bindings@) =~= named_fields(bound_names@, v.fields@, k as int),
                                        decreases bound_names.len() - k,
                                    {
                                        if !str_eq(bound_names[k].as_str(), "_") && k < v.fields.len() {
                                            let ghost before = bindings@;
                                            bindings.push((bound_names[k].clone(), v.fields[k].deep_clone()));
                                            assert(binding_views(bindings@) =~= binding_views(before).push(
                                                (bound_names@[k as int]@, v.fields@[k as int]@),
                                            ));
                                        }
                                        k = k + 1;
                                    }
                                    return Ok(bindings);
                                }
                                i = i + 1;
                            }
                            assert(info.variants@.take(info.variants@.len() as int) =~= info.variants@);
                        },
                        None => {},
                    },
                    None => {},
                }
            },
            PatternKind::Error(name) => {
                let ty = match scrutinee_ty {
                    Type::Result(_, e) => e.deep_clone(),
                    _ => Type::String,
                };
                bindings.push((name.clone(), ty));
            },
            PatternKind::IsType(te) => {
                let _ = self.resolve_type_expr(te);
            },
            _ => {},
        }
        Ok(bindings)
    }

    /// Whether the arms of a match cover every value of the scrutinee's type.
    #[verifier::loop_isolation(false)]
    pub fn check_match_exhaustiveness(&self, scrutinee_ty: &Type, arms: &Vec<MatchArm>, span: Span) -> (r: Result<
        (),
        CompileError,
    >)
        ensures
            r is Ok <==> exhaustive(self.type_info, self.current_type_name, scrutinee_ty@, arms@),
            r is Err && scrutinee_ty@ == TypeView::Bool ==> (r matches Err(e) && e.message@
                == "non-exhaustive match on bool: missing true or false branch"@),
    {
        let mut a: usize = 0;
        while a < arms.len()
            invariant
                a <= arms@.len(),
                forall|j: int| 0 <= j < a ==> !catch_all(#[trigger] arms@[j]),
            decreases arms.len() - a,
        {
            if matches!(arms[a].pattern.kind, PatternKind::Wildcard | PatternKind::Binding(_)) {
                assert(catch_all(arms@[a as int]));
                return Ok(());
            }
            a = a + 1;
        }
        match scrutinee_ty {
            Type::Enum(name) => {
                let info = match self.type_info.enums.get(name.as_str()) {
                    Some(i) => i,
                    None => {
                        return Ok(());
                    },
                };
                let ghost vs = info.variants@;
                let mut missing = String::new();
                let mut any_missing = false;
                let mut v: usize = 0;
                while v < info.variants.len()
                    invariant
                        v <= info.variants@.len(),
                        vs == info.variants@,
                        forall|j: int| 0 <= j < arms@.len() ==> !catch_all(#[trigger] arms@[j]),
                        any_missing <==> exists|w: int| 0 <= w < v && !#[trigger] variant_covered(arms@, vs, w),
                    decreases info.variants.len() - v,
                {
                    let vname = info.variants[v].name.as_str();
                    let mut covered = false;
                    let mut k: usize = 0;
                    while k < arms.len()
                        invariant
                            k <= arms@.len(),
                            vname@ == vs[v as int].name@,
                            covered <==> exists|i: int| 0 <= i < k && #[trigger] covers_variant(arms@[i], vs, v as int),
                        decreases arms.len() - k,
                    {
                        match &arms[k].pattern.kind {
                            PatternKind::EnumVariant(_, variant, _) | PatternKind::QualifiedEnumVariant(_, _, variant, _)
                            | PatternKind::IsEnumVariant(_, variant) => {
                                if str_eq(variant.as_str(), vname) && first_variant_index(&info.variants, vname) == v {
                                    covered = true;
                                }
                            },
                            _ => {},
                        }
                        proof {
                            if covers_variant(arms@[k as int], vs, v as int) {
                                assert(covered);
                            }
                        }
                        k = k + 1;
                    }
                    proof {
                        assert(covered <==> variant_covered(arms@, vs, v as int));
                    }
                    if !covered {
                        if any_missing {
                            missing.append(", ");
                        }
                        missing.append(vname);
                        any_missing = true;
                    }
                    v = v + 1;
                }
                if any_missing {
                    let msg = cat4("non-exhaustive match on '", name.as_str(), "': missing variant(s) ", missing.as_str());
                    return Err(CompileError::new(msg, span));
                }
                assert(!(exists|i: int| 0 <= i < arms@.len() && #[trigger] catch_all(arms@[i])));
                Ok(())
            },
            Type::Bool => {
                let mut has_true = false;
                let mut has_false = false;
                let mut k: usize = 0;
                while k < arms.len()
                    invariant
                        k <= arms@.len(),
                        has_true <==> exists|i: int| 0 <= i < k && #[trigger] arms@[i].pattern.kind == PatternKind::BoolLit(true),
                        has_false <==> exists|i: int| 0 <= i < k && #[trigger] arms@[i].pattern.kind == PatternKind::BoolLit(
                            false,
                        ),
                    decreases arms.len() - k,
                {
                    match &arms[k].pattern.kind {
                        PatternKind::BoolLit(b) => {
                            if *b {
                                has_true = true;
                            } else {
                                has_false = true;
                            }
                        },
                        _ => {},
                    }
                    k = k + 1;
                }
                if !has_true || !has_false {
                    return Err(
                        CompileError::new(String::from_str("non-exhaustive match on bool: missing true or false branch"), span),
                    );
                }
                Ok(())
            },
            Type::Union(members) => {
                let mut covered: Vec<bool> = Vec::new();
                let mut m: usize = 0;
                while m < members.len()
                    invariant
                        m <= members@.len(),
                        covered@.len() == m,
                        forall|j: int| 0 <= j < m ==> !#[trigger] covered@[j],
                    decreases members.len() - m,
                {
                    covered.push(false);
                    m = m + 1;
                }
                let ghost ms = views(members@);
                proof {
                    scrutinee_ty.lemma_union_members();
                }
                let mut k: usize = 0;
                while k < arms.len()
                    invariant
                        k <= arms@.len(),
                        covered@.len() == members@.len(),
                        ms == views(members@),
                        forall|m: int| 0 <= m < members@.len() ==> (#[trigger] covered@[m] <==> exists|i: int|
                            0 <= i < k && #[trigger] covers_member(self.type_info, self.current_type_name, arms@[i], ms[m])),
                    decreases arms.len() - k,
                {
                    let ghost before = covered@;
                    match &arms[k].pattern.kind {
                        PatternKind::IsType(te) => match self.resolve_type_expr(te) {
                            Ok(resolved) => {
                                let mut i: usize = 0;
                                while i < members.len()
                                    invariant
                                        i <= members@.len(),
                                        covered@.len() == members@.len(),
                                        forall|m: int| 0 <= m < i ==> (#[trigger] covered@[m] <==> (before[m] || ms[m]
                                            == resolved@)),
                                        forall|m: int| i <= m < members@.len() ==> #[trigger] covered@[m] == before[m],
                                    decreases members.len() - i,
                                {
                                    if members[i].same(&resolved) {
                                        covered.set(i, true);
                                    }
                                    i = i + 1;
                                }
                            },
                            Err(_) => {},
                        },
                        _ => {},
                    }
                    proof {
                        assert forall|m: int| 0 <= m < members@.len() implies (#[trigger] covered@[m] <==> exists|i: int|
                            0 <= i < k + 1 && #[trigger] covers_member(self.type_info, self.current_type_name, arms@[i], ms[m])) by {
                            if covers_member(self.type_info, self.current_type_name, arms@[k as int], ms[m]) {
                                assert(covered@[m]);
                            }
                            if covered@[m] && !before[m] {
                                assert(covers_member(self.type_info, self.current_type_name, arms@[k as int], ms[m]));
                            }
                        }
                    }
                    k = k + 1;
                }
                proof {
                    assert forall|m: int| 0 <= m < members@.len() implies (#[trigger] covered@[m] <==> member_covered(
                        self.type_info,
                        self.current_type_name,
                        arms@,
                        ms[m],
                    )) by {
                        assert(covered@[m] <==> exists|i: int|
                            0 <= i < arms@.len() && #[trigger] covers_member(
                                self.type_info,
                                self.current_type_name,
                                arms@[i],
                                ms[m],
                            ));
                    }
                    assert(ms.len() == members@.len());
                    assert(!(exists|i: int| 0 <= i < arms@.len() && #[trigger] catch_all(arms@[i])));
                }
                let mut missing = String::new();
                let mut any_missing = false;
                let mut i: usize = 0;
                while i < members.len()
                    invariant
                        i <= members@.len(),
                        covered@.len() == members@.len(),
                        any_missing <==> exists|m: int| 0 <= m < i && !#[trigger] covered@[m],
                    decreases members.len() - i,
                {
                    if !covered[i] {
                        if any_missing {
                            missing.append(", ");
                        }
                        let d = members[i].display_name();
                        missing.append(d.as_str());
                        any_missing = true;
                    }
                    i = i + 1;
                }
                if any_missing {
                    proof {
                        let m = choose|m: int| 0 <= m < members@.len() && !#[trigger] covered@[m];
                        assert(!member_covered(self.type_info, self.current_type_name, arms@, ms[m]));
                        assert(scrutinee_ty@ == TypeView::Union(ms));
                        assert(0 <= m < ms.len());
                        assert(!(forall|w: int| 0 <= w < ms.len() ==> #[trigger] member_covered(
                            self.type_info,
                            self.current_type_name,
                            arms@,
                            ms[w],
                        )));
                        assert(!(exists|i: int| 0 <= i < arms@.len() && #[trigger] catch_all(arms@[i])));
                        if exhaustive(self.type_info, self.current_type_name, scrutinee_ty@, arms@) {
                            match scrutinee_ty@ {
                                TypeView::Union(us) => {
                                    assert(us == ms);
                                    assert(member_covered(self.type_info, self.current_type_name, arms@, us[m]));
                                },
                                _ => {},
                            }
                        }
                    }
                    let msg = cat2("non-exhaustive match on union type: missing type(s) ", missing.as_str());
                    return Err(CompileError::new(msg, span));
                }
                proof {
                    assert forall|m: int| 0 <= m < ms.len() implies #[trigger] member_covered(
                        self.type_info,
                        self.current_type_name,
                        arms@,
                        ms[m],
                    ) by {
                        assert(covered@[m]);
                    }
                }
                Ok(())
            },
            _ => {
                assert(!(exists|i: int| 0 <= i < arms@.len() && #[trigger] catch_all(arms@[i])));
                assert(!(scrutinee_ty@ is Enum) && !(scrutinee_ty@ is Bool) && !(scrutinee_ty@ is Union));
                assert(!exhaustive(self.type_info, self.current_type_name, scrutinee_ty@, arms@));
                if arms.len() > 0 {
                    let d = scrutinee_ty.display_name();
                    let msg = cat3(
                        "non-exhaustive match on '",
                        d.as_str(),
                        "': add a wildcard (_) or binding pattern to handle all values",
                    );
                    return Err(CompileError::new(msg, span));
                }
                Err(CompileError::new(String::from_str("empty match expression"), span))
            },
        }
    }
}

/// The position of the first variant named `v` (the variant a pattern of that name covers).
fn first_variant_index(variants: &Vec<super::VariantInfo>, v: &str) -> (r: usize)
    ensures
        r <= variants@.len(),
        match variant_position(variants@, v@) {
            Some(k) => r == k,
            None => r == variants@.len(),
        },
{
    let mut i: usize = 0;
    while i < variants.len()
        invariant
            i <= variants@.len(),
            variant_position(variants@.take(i as int), v@) is None,
        decreases variants.len() - i,
    {
        proof {
            assert(variants@.take(i as int + 1).drop_last() =~= variants@.take(i as int));
        }
        if str_eq(variants[i].name.as_str(), v) {
            proof {
                assert(variants@.take(i as int + 1).last() == variants@[i as int]);
                assert(variant_position(variants@.take(i as int + 1), v@) == Some(i as int));
                lemma_variant_position_prefix(variants@, v@, i as int + 1);
            }
            return i;
        }
        i = i + 1;
    }
    assert(variants@.take(variants@.len() as int) =~= variants@);
    i
}

} // verus!
