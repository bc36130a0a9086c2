//! Imports: the name a module is known by, and attaching a module's items
//! to the program that imports it.
use vstd::prelude::*;
use crate::ast::{Item, Program};
use crate::text::{chars_of, str_eq, string_of_range};

verus! {

/// The position just after the last '/' of a path, or 0.
pub open spec fn after_last_slash(p: Seq<char>) -> int
    decreases p.len(),
{
    if p.len() == 0 {
        0
    } else if p.last() == '/' {
        p.len() as int
    } else {
        after_last_slash(p.drop_last())
    }
}

/// The name an import is known by: its alias, or else the last segment of its path.
pub open spec fn module_name_of(path: Seq<char>, alias: Option<Seq<char>>) -> Seq<char> {
    match alias {
        Some(a) => a,
        None => path.subrange(after_last_slash(path), path.len() as int),
    }
}

/// Standard-library imports (`std/...`) are provided by the checker, not read from files.
pub open spec fn is_std_path(path: Seq<char>) -> bool {
    path.len() >= 4 && path.take(4) == "std/"@
}

pub proof fn lemma_after_last_slash(p: Seq<char>)
    ensures
        0 <= after_last_slash(p) <= p.len(),
        forall|i: int| after_last_slash(p) <= i < p.len() ==> p[i] != '/',
    decreases p.len(),
{
    if p.len() > 0 && p.last() != '/' {
        lemma_after_last_slash(p.drop_last());
        assert forall|i: int| after_last_slash(p) <= i < p.len() implies p[i] != '/' by {
            if i < p.len() - 1 {
                assert(p[i] == p.drop_last()[i]);
            }
        }
    }
}

/// The name an import is known by: its alias, or else the last segment of its path.
pub fn import_alias(path: &str, alias: &Option<String>) -> (r: String)
    ensures
        r@ == module_name_of(path@, match alias { Some(a) => Some(a@), None => None }),
{
    match alias {
        Some(a) => a.clone(),
        None => {
            let cs = chars_of(path);
            let n = cs.len();
            let mut i = n;
            assert(cs@.take(n as int) =~= cs@);
            while i > 0
                invariant
                    i <= n,
                    n == cs@.len(),
                    cs@ == path@,
                    after_last_slash(path@) == after_last_slash(cs@.take(i as int)),
                ensures
                    i <= n,
                    n == cs@.len(),
                    cs@ == path@,
                    after_last_slash(path@) == i,
                decreases i,
            {
                assert(cs@.take(i as int).drop_last() =~= cs@.take(i - 1));
                assert(cs@.take(i as int).last() == cs@[i - 1]);
                if cs[i - 1] == '/' {
                    assert(after_last_slash(cs@.take(i as int)) == i);
                    break;
                }
                i = i - 1;
            }
            string_of_range(&cs, i, n)
        },
    }
}

/// Whether a path names a standard-library module.
pub fn is_std_import(path: &str) -> (r: bool)
    ensures
        r == is_std_path(path@),
{
    let cs = chars_of(path);
    if cs.len() < 4 {
        return false;
    }
    let head = string_of_range(&cs, 0, 4);
    assert(head@ =~= path@.take(4));
    str_eq(head.as_str(), "std/")
}

/// Appends an imported module's items to the program's modules, under the
/// module's name; items of a name already imported join that module.
pub fn add_module_items(program: &mut Program, alias: String, items: Vec<Item>)
    ensures
        final(program).items == old(program).items,
        exists|m: int| 0 <= m < final(program).modules@.len() && #[trigger] final(program).modules@[m].0@ == alias@,
        final(program).modules@.len() >= old(program).modules@.len(),
        (forall|j: int| 0 <= j < old(program).modules@.len() ==> #[trigger] old(program).modules@[j].0@ != alias@)
            ==> final(program).modules@ == old(program).modules@.push((alias, items)),
        forall|m: int|
            0 <= m < old(program).modules@.len() && #[trigger] old(program).modules@[m].0@ == alias@ && (forall|j: int|
                0 <= j < m ==> old(program).modules@[j].0@ != alias@) ==> {
                &&& final(program).modules@.len() == old(program).modules@.len()
                &&& final(program).modules@[m].0 == old(program).modules@[m].0
                &&& final(program).modules@[m].1@ == old(program).modules@[m].1@ + items@
                &&& forall|j: int| 0 <= j < old(program).modules@.len() && j != m ==> final(program).modules@[j]
                    == old(program).modules@[j]
            },
{
    let mut m: usize = 0;
    while m < program.modules.len()
        invariant
            m <= program.modules@.len(),
            program.items == old(program).items,
            program.modules@ == old(program).modules@,
            forall|j: int| 0 <= j < m ==> program.modules@[j].0@ != alias@,
        ensures
            forall|j: int| 0 <= j < m ==> program.modules@[j].0@ != alias@,
            m <= program.modules@.len(),
            program.items == old(program).items,
            program.modules@ == old(program).modules@,
            m < program.modules@.len() ==> program.modules@[m as int].0@ == alias@,
        decreases program.modules.len() - m,
    {
        if str_eq(program.modules[m].0.as_str(), alias.as_str()) {
            break;
        }
        m = m + 1;
    }
    if m < program.modules.len() {
        let ghost before = program.modules@;
        let ghost its = items@;
        let (name, mut existing) = program.modules.remove(m);
        let ghost ex = existing@;
        let mut items = items;
        existing.append(&mut items);
        assert(existing@ == ex + its);
        program.modules.insert(m, (name, existing));
        assert(program.modules@[m as int].0@ == alias@);
        assert forall|j: int| 0 <= j < before.len() && j != m implies program.modules@[j] == before[j] by {
            if j < m {
            } else {
            }
        }
        proof {
            assert forall|k: int| 0 <= k < before.len() && #[trigger] before[k].0@ == alias@ && (forall|j: int|
                0 <= j < k ==> before[j].0@ != alias@) implies k == m by {
                if k < m {
                }
                if k > m {
                    assert(before[m as int].0@ == alias@);
                }
            }
        }
    } else {
        program.modules.push((alias, items));
        assert(program.modules@[program.modules@.len() - 1].0@ == alias@);
    }
}

} // verus!
