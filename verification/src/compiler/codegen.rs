//! Code generation: typed syntax trees to register bytecode.
use vstd::prelude::*;
use crate::ast::{BinOp, UnaryOp, Pattern, PatternKind, TypeExpr};
use crate::compiler::{Op, CompiledFunction, Program, code_fits, op_fits, jump_fits, function_fits,
    lemma_code_fits_mono, is_main_item, has_main, type_to_int_type};
use crate::types::{Type, TypeView, TypeInfo, Table, ModuleInfo, StructInfo, EnumInfo, TypedItem, TypedProgram,
    TypedBlock, TypedStmt, TypedExpr, TypedExprKind, TypedAssignTarget, TypedStringPart, TypedIsTarget,
    VariantInfo};
use crate::types::program::clone_func_table;
use crate::text::{push_char, usize_to_string, str_eq, cat2, cat3, cat5, chars_of, string_of_range};
use crate::types::rules::{find_dot, first_dot, lemma_first_dot, field_names, names_of_fields};
use crate::types::suggest::views_of;
use crate::types::is_integer_view;
use crate::compiler::int_type_of;

verus! {

/// The most instructions one function may have; relative jump offsets
/// within it always fit an `i32`.
pub const CODE_LIMIT: usize = 0x3fff_ffff;

/// What one function's compilation holds while it runs.
pub struct FnCompiler {
    pub code: Vec<Op>,
    pub line_table: Vec<u32>,
    /// The source line of the expression being compiled.
    pub line: u32,
    pub registers: u16,
    /// Names in scope and their registers; a later entry hides an earlier one.
    pub locals: Vec<(String, u16)>,
    /// The names declared in each open scope.
    pub scope_stack: Vec<Vec<String>>,
    /// Per open loop, the jumps to patch to the loop's end.
    pub loop_breaks: Vec<Vec<usize>>,
    /// Per open loop, the jumps to patch to the loop's start.
    pub loop_continues: Vec<Vec<usize>>,
    pub loop_starts: Vec<usize>,
}

/// The register that `name` is bound to among `locals`: the last entry for it.
pub open spec fn local_reg(locals: Seq<(String, u16)>, name: Seq<char>) -> Option<u16>
    decreases locals.len(),
{
    if locals.len() == 0 {
        None
    } else if locals.last().0@ == name {
        Some(locals.last().1)
    } else {
        local_reg(locals.drop_last(), name)
    }
}

/// From `a` to `b` a compilation only added: registers and code grew, and
/// the loop and scope stacks are as deep as before.
pub open spec fn fc_grows(a: FnCompiler, b: FnCompiler) -> bool {
    &&& a.registers <= b.registers
    &&& a.code@.len() <= b.code@.len()
    &&& a.loop_breaks@.len() == b.loop_breaks@.len()
    &&& a.loop_continues@.len() == b.loop_continues@.len()
    &&& a.loop_starts@.len() == b.loop_starts@.len()
    &&& a.scope_stack@.len() == b.scope_stack@.len()
}

impl FnCompiler {
    /// The state is consistent, with `strs` string constants in the program.
    pub open spec fn wf(&self, strs: nat) -> bool {
        &&& code_fits(self.code@, self.registers as nat, strs)
        &&& self.line_table@.len() == self.code@.len()
        &&& self.code@.len() <= CODE_LIMIT
        &&& forall|i: int| 0 <= i < self.locals@.len() ==> (#[trigger] self.locals@[i]).1 < self.registers
        &&& forall|i: int, j: int| 0 <= i < self.loop_breaks@.len() && 0 <= j < self.loop_breaks@[i]@.len()
            ==> #[trigger] self.loop_breaks@[i]@[j] < self.code@.len()
        &&& forall|i: int, j: int| 0 <= i < self.loop_continues@.len() && 0 <= j < self.loop_continues@[i]@.len()
            ==> #[trigger] self.loop_continues@[i]@[j] < self.code@.len()
    }

    pub fn new() -> (fc: FnCompiler)
        ensures
            fc.wf(0),
            fc.registers == 0,
            fc.code@.len() == 0,
            fc.locals@.len() == 0,
            fc.scope_stack@.len() == 1,
            fc.loop_breaks@.len() == 0,
            fc.loop_continues@.len() == 0,
            fc.loop_starts@.len() == 0,
    {
        let mut scopes: Vec<Vec<String>> = Vec::new();
        scopes.push(Vec::new());
        FnCompiler {
            code: Vec::new(),
            line_table: Vec::new(),
            line: 0,
            registers: 0,
            locals: Vec::new(),
            scope_stack: scopes,
            loop_breaks: Vec::new(),
            loop_continues: Vec::new(),
            loop_starts: Vec::new(),
        }
    }

    /// A fresh register; fails when all `u16` registers are taken.
    pub fn alloc_reg(&mut self, strs: Ghost<nat>) -> (r: Result<u16, String>)
        requires
            old(self).wf(strs@),
        ensures
            r matches Ok(reg) ==> {
                &&& reg == old(self).registers
                &&& final(self).registers == old(self).registers + 1
                &&& final(self).wf(strs@)
                &&& final(self).code@ == old(self).code@
                &&& final(self).locals@ == old(self).locals@
                &&& fc_grows(*old(self), *final(self))
            },
            r is Err <==> old(self).registers == 0xffff,
    {
        if self.registers == 0xffff {
            return Err("too many registers in one function".to_string());
        }
        let r = self.registers;
        proof {
            lemma_code_fits_mono(self.code@, self.registers as nat, strs@, (self.registers + 1) as nat, strs@);
        }
        self.registers = self.registers + 1;
        Ok(r)
    }

    /// Appends an instruction, with the current line; fails when the function
    /// has reached `CODE_LIMIT` instructions.
    pub fn emit(&mut self, op: Op, strs: Ghost<nat>) -> (r: Result<usize, String>)
        requires
            old(self).wf(strs@),
            op_fits(op, old(self).registers as nat, strs@),
            jump_fits(op, old(self).code@.len() as int, old(self).code@.len() + 1 as int),
        ensures
            r matches Ok(idx) ==> {
                &&& idx == old(self).code@.len()
                &&& final(self).code@ == old(self).code@.push(op)
                &&& final(self).registers == old(self).registers
                &&& final(self).locals@ == old(self).locals@
                &&& final(self).wf(strs@)
                &&& fc_grows(*old(self), *final(self))
            },
            r is Err <==> old(self).code@.len() >= CODE_LIMIT,
    {
        if self.code.len() >= CODE_LIMIT {
            return Err("function too large".to_string());
        }
        let idx = self.code.len();
        let ghost c0 = self.code@;
        self.code.push(op);
        self.line_table.push(self.line);
        proof {
            let c = self.code@;
            assert forall|i: int| 0 <= i < c.len() implies op_fits(#[trigger] c[i], self.registers as nat, strs@)
                && jump_fits(c[i], i, c.len() as int) by {
                if i < c0.len() {
                    assert(c[i] == c0[i]);
                    assert(op_fits(c0[i], self.registers as nat, strs@) && jump_fits(c0[i], i, c0.len() as int));
                }
            }
        }
        Ok(idx)
    }

    /// Sets the offset of the jump at `idx` so that it lands on `target`;
    /// any other instruction is left as it is.
    pub fn patch_jump(&mut self, idx: usize, target: usize, strs: Ghost<nat>)
        requires
            old(self).wf(strs@),
            idx < old(self).code@.len(),
            target <= old(self).code@.len(),
        ensures
            final(self).wf(strs@),
            final(self).code@.len() == old(self).code@.len(),
            final(self).registers == old(self).registers,
            final(self).locals@ == old(self).locals@,
            fc_grows(*old(self), *final(self)),
            forall|i: int| 0 <= i < old(self).code@.len() && i != idx ==> final(self).code@[i] == old(self).code@[i],
    {
        let offset: i32 = (target as i32) - (idx as i32);
        let patched: Option<Op> = match &self.code[idx] {
            Op::Jump(_) => Some(Op::Jump(offset)),
            Op::JumpIfTrue(r, _) => Some(Op::JumpIfTrue(*r, offset)),
            Op::JumpIfFalse(r, _) => Some(Op::JumpIfFalse(*r, offset)),
            Op::JumpIfNil(r, _) => Some(Op::JumpIfNil(*r, offset)),
            Op::JumpIfNotNil(r, _) => Some(Op::JumpIfNotNil(*r, offset)),
            Op::JumpIfError(r, _) => Some(Op::JumpIfError(*r, offset)),
            _ => None,
        };
        match patched {
            Some(op) => {
                let ghost c0 = self.code@;
                assert(op_fits(c0[idx as int], self.registers as nat, strs@));
                self.code.set(idx, op);
                proof {
                    let c = self.code@;
                    assert forall|i: int| 0 <= i < c.len() implies op_fits(#[trigger] c[i], self.registers as nat, strs@)
                        && jump_fits(c[i], i, c.len() as int) by {
                        if i != idx {
                            assert(c[i] == c0[i]);
                            assert(op_fits(c0[i], self.registers as nat, strs@) && jump_fits(c0[i], i, c0.len() as int));
                        }
                    }
                }
            },
            None => {},
        }
    }

    /// Opens a scope.
    pub fn push_scope(&mut self)
        ensures
            final(self).scope_stack@.len() == old(self).scope_stack@.len() + 1,
            final(self).code@ == old(self).code@,
            final(self).line_table@ == old(self).line_table@,
            final(self).registers == old(self).registers,
            final(self).locals@ == old(self).locals@,
            final(self).loop_breaks@ == old(self).loop_breaks@,
            final(self).loop_continues@ == old(self).loop_continues@,
            final(self).loop_starts@ == old(self).loop_starts@,
    {
        self.scope_stack.push(Vec::new());
    }

    /// Closes the innermost scope: each name declared in it leaves `locals`
    /// altogether.
    pub fn pop_scope(&mut self)
        requires
            forall|i: int| 0 <= i < old(self).locals@.len() ==> (#[trigger] old(self).locals@[i]).1 < old(self).registers,
        ensures
            final(self).scope_stack@.len() == if old(self).scope_stack@.len() > 0 { old(self).scope_stack@.len() - 1 } else { 0 },
            final(self).code@ == old(self).code@,
            final(self).line_table@ == old(self).line_table@,
            final(self).registers == old(self).registers,
            final(self).loop_breaks@ == old(self).loop_breaks@,
            final(self).loop_continues@ == old(self).loop_continues@,
            final(self).loop_starts@ == old(self).loop_starts@,
            forall|i: int| 0 <= i < final(self).locals@.len() ==> (#[trigger] final(self).locals@[i]).1 < final(self).registers,
    {
        match self.scope_stack.pop() {
            Some(names) => {
                let mut k: usize = 0;
                while k < names.len()
                    invariant
                        k <= names@.len(),
                        self.code@ == old(self).code@,
                        self.line_table@ == old(self).line_table@,
                        self.registers == old(self).registers,
                        self.loop_breaks@ == old(self).loop_breaks@,
                        self.loop_continues@ == old(self).loop_continues@,
                        self.loop_starts@ == old(self).loop_starts@,
                        self.scope_stack@.len() == old(self).scope_stack@.len() - 1,
                        forall|i: int| 0 <= i < self.locals@.len() ==> (#[trigger] self.locals@[i]).1 < self.registers,
                    decreases names.len() - k,
                {
                    let mut kept: Vec<(String, u16)> = Vec::new();
                    let mut i: usize = 0;
                    while i < self.locals.len()
                        invariant
                            i <= self.locals@.len(),
                            k < names@.len(),
                            forall|a: int| 0 <= a < kept@.len() ==> (#[trigger] kept@[a]).1 < self.registers,
                            forall|a: int| 0 <= a < self.locals@.len() ==> (#[trigger] self.locals@[a]).1 < self.registers,
                        decreases self.locals.len() - i,
                    {
                        if !str_eq(self.locals[i].0.as_str(), names[k].as_str()) {
                            kept.push((self.locals[i].0.clone(), self.locals[i].1));
                        }
                        i = i + 1;
                    }
                    self.locals = kept;
                    k = k + 1;
                }
            },
            None => {},
        }
    }

    /// The register bound to `name`, if any.
    pub fn lookup(&self, name: &str) -> (r: Option<u16>)
        ensures
            r == local_reg(self.locals@, name@),
    {
        let mut i = self.locals.len();
        assert(self.locals@.take(i as int) =~= self.locals@);
        while i > 0
            invariant
                i <= self.locals@.len(),
                local_reg(self.locals@, name@) == local_reg(self.locals@.take(i as int), name@),
            decreases i,
        {
            assert(self.locals@.take(i as int).drop_last() =~= self.locals@.take(i - 1));
            assert(self.locals@.take(i as int).last() == self.locals@[i - 1]);
            if str_eq(self.locals[i - 1].0.as_str(), name) {
                return Some(self.locals[i - 1].1);
            }
            i = i - 1;
        }
        None
    }

    /// Binds `name` to a fresh register in the innermost scope.
    pub fn declare_local(&mut self, name: &str, strs: Ghost<nat>) -> (r: Result<u16, String>)
        requires
            old(self).wf(strs@),
        ensures
            r matches Ok(reg) ==> {
                &&& reg == old(self).registers
                &&& final(self).registers == old(self).registers + 1
                &&& final(self).wf(strs@)
                &&& final(self).code@ == old(self).code@
                &&& local_reg(final(self).locals@, name@) == Some(reg)
                &&& fc_grows(*old(self), *final(self))
            },
            r is Err <==> old(self).registers == 0xffff,
    {
        let reg = self.alloc_reg(strs)?;
        let ghost l0 = self.locals@;
        self.locals.push((name.to_string(), reg));
        assert(self.locals@.drop_last() =~= l0);
        let n = self.scope_stack.len();
        if n > 0 {
            let mut top = self.scope_stack.pop().unwrap();
            top.push(name.to_string());
            self.scope_stack.push(top);
        }
        Ok(reg)
    }
}

/// The first position of a field named `f`, if any.
pub open spec fn field_pos(fields: Seq<(String, Type)>, f: Seq<char>) -> Option<int>
    decreases fields.len(),
{
    if fields.len() == 0 {
        None
    } else if fields.last().0@ == f && field_pos(fields.drop_last(), f) is None {
        Some(fields.len() - 1)
    } else {
        field_pos(fields.drop_last(), f)
    }
}

/// The position of field `f` in the struct named `n`: among the struct's own
/// fields, then, for `m.s`, among those of struct `s` of module `m`.
pub open spec fn struct_field_index(info: TypeInfo, n: Seq<char>, f: Seq<char>) -> Option<int> {
    let local = match info.structs.get_spec(n) {
        Some(si) => field_pos(si.fields@, f),
        None => None,
    };
    if local is Some {
        local
    } else if first_dot(n) >= 0 {
        match info.modules.get_spec(n.take(first_dot(n))) {
            Some(mi) => match mi.structs.get_spec(n.skip(first_dot(n) + 1)) {
                Some(si) => field_pos(si.fields@, f),
                None => None,
            },
            None => None,
        }
    } else {
        None
    }
}

/// The first position of a variant named `v`, if any.
pub open spec fn variant_pos(vs: Seq<VariantInfo>, v: Seq<char>) -> Option<int>
    decreases vs.len(),
{
    if vs.len() == 0 {
        None
    } else if vs.last().name@ == v && variant_pos(vs.drop_last(), v) is None {
        Some(vs.len() - 1)
    } else {
        variant_pos(vs.drop_last(), v)
    }
}

/// The position of variant `v` in the enum named `n`: among the enum's own
/// variants, then, for `m.e`, among those of enum `e` of module `m`.
pub open spec fn enum_variant_index(info: TypeInfo, n: Seq<char>, v: Seq<char>) -> Option<int> {
    let local = match info.enums.get_spec(n) {
        Some(ei) => variant_pos(ei.variants@, v),
        None => None,
    };
    if local is Some {
        local
    } else if first_dot(n) >= 0 {
        match info.modules.get_spec(n.take(first_dot(n))) {
            Some(mi) => match mi.enums.get_spec(n.skip(first_dot(n) + 1)) {
                Some(ei) => variant_pos(ei.variants@, v),
                None => None,
            },
            None => None,
        }
    } else {
        None
    }
}

/// The position of the field named `f`.
pub fn find_field_pos(fields: &Vec<(String, Type)>, f: &str) -> (r: Option<usize>)
    ensures
        match r {
            Some(k) => field_pos(fields@, f@) == Some(k as int),
            None => field_pos(fields@, f@) is None,
        },
{
    let mut i: usize = 0;
    assert(fields@.take(0) =~= Seq::<(String, Type)>::empty());
    while i < fields.len()
        invariant
            i <= fields@.len(),
            field_pos(fields@.take(i as int), f@) is None,
        decreases fields.len() - i,
    {
        assert(fields@.take(i + 1).drop_last() =~= fields@.take(i as int));
        if str_eq(fields[i].0.as_str(), f) {
            proof { lemma_field_pos_prefix(fields@, f@, i + 1); }
            return Some(i);
        }
        i = i + 1;
    }
    assert(fields@.take(i as int) =~= fields@);
    None
}

/// A field found in a prefix is found at the same place in the whole list.
proof fn lemma_field_pos_prefix(fields: Seq<(String, Type)>, f: Seq<char>, n: int)
    requires
        0 <= n <= fields.len(),
        field_pos(fields.take(n), f) is Some,
    ensures
        field_pos(fields, f) == field_pos(fields.take(n), f),
    decreases fields.len() - n,
{
    if n < fields.len() {
        assert(fields.take(n + 1).drop_last() =~= fields.take(n));
        lemma_field_pos_prefix(fields, f, n + 1);
    } else {
        assert(fields.take(n) =~= fields);
    }
}

/// The position of the variant named `v`.
pub fn find_variant_pos(vs: &Vec<VariantInfo>, v: &str) -> (r: Option<usize>)
    ensures
        match r {
            Some(k) => variant_pos(vs@, v@) == Some(k as int),
            None => variant_pos(vs@, v@) is None,
        },
{
    let mut i: usize = 0;
    assert(vs@.take(0) =~= Seq::<VariantInfo>::empty());
    while i < vs.len()
        invariant
            i <= vs@.len(),
            variant_pos(vs@.take(i as int), v@) is None,
        decreases vs.len() - i,
    {
        assert(vs@.take(i + 1).drop_last() =~= vs@.take(i as int));
        if str_eq(vs[i].name.as_str(), v) {
            proof { lemma_variant_pos_prefix(vs@, v@, i + 1); }
            return Some(i);
        }
        i = i + 1;
    }
    assert(vs@.take(i as int) =~= vs@);
    None
}

/// A variant found in a prefix is found at the same place in the whole list.
proof fn lemma_variant_pos_prefix(vs: Seq<VariantInfo>, v: Seq<char>, n: int)
    requires
        0 <= n <= vs.len(),
        variant_pos(vs.take(n), v) is Some,
    ensures
        variant_pos(vs, v) == variant_pos(vs.take(n), v),
    decreases vs.len() - n,
{
    if n < vs.len() {
        assert(vs.take(n + 1).drop_last() =~= vs.take(n));
        lemma_variant_pos_prefix(vs, v, n + 1);
    } else {
        assert(vs.take(n) =~= vs);
    }
}

/// Splits `m.s` at its first dot.
fn split_at_dot(name: &str) -> (r: Option<(String, String)>)
    ensures
        match r {
            Some((m, s)) => first_dot(name@) >= 0 && m@ == name@.take(first_dot(name@))
                && s@ == name@.skip(first_dot(name@) + 1),
            None => first_dot(name@) < 0,
        },
{
    let nc = chars_of(name);
    proof {
        lemma_first_dot(name@);
    }
    let nlen = nc.len();
    match find_dot(&nc) {
        Some(d) => {
            let m = string_of_range(&nc, 0, d);
            let s = string_of_range(&nc, d + 1, nlen);
            assert(m@ =~= name@.take(first_dot(name@)));
            assert(s@ =~= name@.skip(first_dot(name@) + 1));
            Some((m, s))
        },
        None => None,
    }
}

/// A copy of a table of struct descriptions.
fn clone_struct_table(t: &Table<StructInfo>) -> (r: Table<StructInfo>)
    ensures
        r.entries@.len() == t.entries@.len(),
        forall|i: int| 0 <= i < t.entries@.len() ==> (#[trigger] r.entries@[i]).0@ == t.entries@[i].0@,
{
    let mut out: Table<StructInfo> = Table::new();
    let mut i: usize = 0;
    while i < t.entries.len()
        invariant
            i <= t.entries@.len(),
            out.entries@.len() == i,
            forall|j: int| 0 <= j < i ==> (#[trigger] out.entries@[j]).0@ == t.entries@[j].0@,
        decreases t.entries.len() - i,
    {
        out.entries.push((t.entries[i].0.clone(), t.entries[i].1.deep_clone()));
        i = i + 1;
    }
    out
}

/// A copy of a table of enum descriptions.
fn clone_enum_table(t: &Table<EnumInfo>) -> (r: Table<EnumInfo>)
    ensures
        r.entries@.len() == t.entries@.len(),
        forall|i: int| 0 <= i < t.entries@.len() ==> (#[trigger] r.entries@[i]).0@ == t.entries@[i].0@,
{
    let mut out: Table<EnumInfo> = Table::new();
    let mut i: usize = 0;
    while i < t.entries.len()
        invariant
            i <= t.entries@.len(),
            out.entries@.len() == i,
            forall|j: int| 0 <= j < i ==> (#[trigger] out.entries@[j]).0@ == t.entries@[j].0@,
        decreases t.entries.len() - i,
    {
        out.entries.push((t.entries[i].0.clone(), t.entries[i].1.deep_clone()));
        i = i + 1;
    }
    out
}

/// A copy of a table of types.
fn clone_type_table(t: &Table<Type>) -> (r: Table<Type>)
    ensures
        r.entries@.len() == t.entries@.len(),
        forall|i: int| 0 <= i < t.entries@.len() ==> (#[trigger] r.entries@[i]).0@ == t.entries@[i].0@
            && r.entries@[i].1@ == t.entries@[i].1@,
{
    let mut out: Table<Type> = Table::new();
    let mut i: usize = 0;
    while i < t.entries.len()
        invariant
            i <= t.entries@.len(),
            out.entries@.len() == i,
            forall|j: int| 0 <= j < i ==> (#[trigger] out.entries@[j]).0@ == t.entries@[j].0@
                && out.entries@[j].1@ == t.entries@[j].1@,
        decreases t.entries.len() - i,
    {
        out.entries.push((t.entries[i].0.clone(), t.entries[i].1.deep_clone()));
        i = i + 1;
    }
    out
}

/// A copy of a table of modules.
fn clone_module_table(t: &Table<ModuleInfo>) -> (r: Table<ModuleInfo>)
    ensures
        r.entries@.len() == t.entries@.len(),
        forall|i: int| 0 <= i < t.entries@.len() ==> (#[trigger] r.entries@[i]).0@ == t.entries@[i].0@,
{
    let mut out: Table<ModuleInfo> = Table::new();
    let mut i: usize = 0;
    while i < t.entries.len()
        invariant
            i <= t.entries@.len(),
            out.entries@.len() == i,
            forall|j: int| 0 <= j < i ==> (#[trigger] out.entries@[j]).0@ == t.entries@[j].0@,
        decreases t.entries.len() - i,
    {
        let m = &t.entries[i].1;
        let copy = ModuleInfo {
            structs: clone_struct_table(&m.structs),
            enums: clone_enum_table(&m.enums),
            aliases: clone_type_table(&m.aliases),
            functions: clone_func_table(&m.functions),
        };
        out.entries.push((t.entries[i].0.clone(), copy));
        i = i + 1;
    }
    out
}

/// A copy of the program's type information, table for table.
pub fn clone_type_info(info: &TypeInfo) -> (r: TypeInfo)
    ensures
        r.structs.entries@.len() == info.structs.entries@.len(),
        r.enums.entries@.len() == info.enums.entries@.len(),
        r.aliases.entries@.len() == info.aliases.entries@.len(),
        r.functions.entries@.len() == info.functions.entries@.len(),
        r.modules.entries@.len() == info.modules.entries@.len(),
{
    TypeInfo {
        structs: clone_struct_table(&info.structs),
        enums: clone_enum_table(&info.enums),
        aliases: clone_type_table(&info.aliases),
        functions: clone_func_table(&info.functions),
        modules: clone_module_table(&info.modules),
    }
}

/// Looks `s` up in `names`, adding it at the end when it is new; fails when
/// the list already holds `u32::MAX` names.
fn intern_in(names: &mut Vec<String>, s: &str) -> (r: Result<u32, String>)
    requires
        old(names)@.len() <= 0xffff_ffff,
    ensures
        final(names)@.len() <= 0xffff_ffff,
        old(names)@.len() <= final(names)@.len() <= old(names)@.len() + 1,
        forall|i: int| 0 <= i < old(names)@.len() ==> final(names)@[i] == old(names)@[i],
        r matches Ok(k) ==> k < final(names)@.len() && final(names)@[k as int]@ == s@,
        r is Err ==> final(names)@ == old(names)@,
{
    let mut i: usize = 0;
    while i < names.len()
        invariant
            i <= names@.len(),
            names@ == old(names)@,
            names@.len() <= 0xffff_ffff,
        decreases names.len() - i,
    {
        if str_eq(names[i].as_str(), s) {
            return Ok(i as u32);
        }
        i = i + 1;
    }
    if names.len() >= 0xffff_ffff {
        return Err("too many constants".to_string());
    }
    let k = names.len() as u32;
    names.push(s.to_string());
    Ok(k)
}

/// Every compiled function fits `strs` string constants.
pub open spec fn functions_fit(fs: Seq<CompiledFunction>, strs: nat) -> bool {
    forall|i: int| 0 <= i < fs.len() ==> function_fits(#[trigger] fs[i], strs)
}

/// Functions that fit still fit with more string constants.
proof fn lemma_functions_fit_mono(fs: Seq<CompiledFunction>, strs: nat, strs2: nat)
    requires
        functions_fit(fs, strs),
        strs <= strs2,
    ensures
        functions_fit(fs, strs2),
{
    assert forall|i: int| 0 <= i < fs.len() implies function_fits(#[trigger] fs[i], strs2) by {
        lemma_code_fits_mono(fs[i].code@, fs[i].register_count as nat, strs, fs[i].register_count as nat, strs2);
    }
}

/// A function's compilation state still fits with more string constants.
proof fn lemma_fc_strs(fc: FnCompiler, strs: nat, strs2: nat)
    requires
        fc.wf(strs),
        strs <= strs2,
    ensures
        fc.wf(strs2),
{
    lemma_code_fits_mono(fc.code@, fc.registers as nat, strs, fc.registers as nat, strs2);
}

/// What the whole compilation holds while it runs.
pub struct Compiler {
    pub functions: Vec<CompiledFunction>,
    pub strings: Vec<String>,
    pub method_names: Vec<String>,
    pub type_ids: Vec<String>,
    pub type_info: TypeInfo,
    pub globals: Vec<(String, Type)>,
}

/// From `a` to `b` the compilation only added constants and functions.
pub open spec fn compiler_grows(a: Compiler, b: Compiler) -> bool {
    &&& a.strings@.len() <= b.strings@.len()
    &&& a.functions@.len() <= b.functions@.len()
    &&& forall|i: int| 0 <= i < a.functions@.len() ==> b.functions@[i] == a.functions@[i]
    &&& b.type_info == a.type_info
}

impl Compiler {
    /// Every compiled function fits the string constants, and each table of
    /// constants stays indexable by `u32`.
    pub open spec fn wf(&self) -> bool {
        &&& functions_fit(self.functions@, self.strings@.len() as nat)
        &&& self.strings@.len() <= 0xffff_ffff
        &&& self.method_names@.len() <= 0xffff_ffff
        &&& self.type_ids@.len() <= 0xffff_ffff
    }

    /// The index of the string constant `s`, added if new.
    pub fn intern_string(&mut self, s: &str) -> (r: Result<u32, String>)
        requires
            old(self).wf(),
        ensures
            final(self).wf(),
            compiler_grows(*old(self), *final(self)),
            r matches Ok(k) ==> k < final(self).strings@.len() && final(self).strings@[k as int]@ == s@,
    {
        let r = intern_in(&mut self.strings, s);
        proof {
            lemma_functions_fit_mono(self.functions@, old(self).strings@.len() as nat, self.strings@.len() as nat);
        }
        r
    }

    /// The id of the method name `s`, added if new.
    pub fn intern_method(&mut self, s: &str) -> (r: Result<u32, String>)
        requires
            old(self).wf(),
        ensures
            final(self).wf(),
            compiler_grows(*old(self), *final(self)),
            final(self).strings@ == old(self).strings@,
            r matches Ok(k) ==> k < final(self).method_names@.len() && final(self).method_names@[k as int]@ == s@,
    {
        intern_in(&mut self.method_names, s)
    }

    /// The id of the type name `s`, added if new.
    pub fn intern_type(&mut self, s: &str) -> (r: Result<u32, String>)
        requires
            old(self).wf(),
        ensures
            final(self).wf(),
            compiler_grows(*old(self), *final(self)),
            final(self).strings@ == old(self).strings@,
            r matches Ok(k) ==> k < final(self).type_ids@.len() && final(self).type_ids@[k as int]@ == s@,
    {
        intern_in(&mut self.type_ids, s)
    }

    /// The position of field `field` in the struct type `ty`.
    pub fn get_field_index(&self, ty: &Type, field: &str) -> (r: Result<u16, String>)
        ensures
            match ty@ {
                TypeView::Struct(n) => match r {
                    Ok(k) => struct_field_index(self.type_info, n, field@) == Some(k as int),
                    Err(e) => struct_field_index(self.type_info, n, field@) is None
                        || struct_field_index(self.type_info, n, field@).unwrap() > 0xffff,
                },
                _ => r is Err,
            },
    {
        match ty {
            Type::Struct(name) => {
                match self.type_info.structs.get(name.as_str()) {
                    Some(info) => match find_field_pos(&info.fields, field) {
                        Some(k) => {
                            if k <= 0xffff {
                                return Ok(k as u16);
                            }
                            return Err(cat3("too many fields on struct '", name.as_str(), "'"));
                        },
                        None => {},
                    },
                    None => {},
                }
                match split_at_dot(name.as_str()) {
                    Some((m, s)) => match self.type_info.modules.get(m.as_str()) {
                        Some(mi) => match mi.structs.get(s.as_str()) {
                            Some(si) => match find_field_pos(&si.fields, field) {
                                Some(k) => {
                                    if k <= 0xffff {
                                        return Ok(k as u16);
                                    }
                                    return Err(cat3("too many fields on struct '", name.as_str(), "'"));
                                },
                                None => {},
                            },
                            None => {},
                        },
                        None => {},
                    },
                    None => {},
                }
                Err(cat5("unknown field '", field, "' on struct '", name.as_str(), "'"))
            },
            _ => {
                let t = ty.display_name();
                Err(cat2("cannot get field index on ", t.as_str()))
            },
        }
    }

    /// The names of the fields of the struct named `tname`, in order of
    /// declaration; empty for an unknown name.
    pub fn get_field_order(&self, tname: &str) -> (r: Vec<String>)
        ensures
            match self.type_info.structs.get_spec(tname@) {
                Some(si) => views_of(r@) == field_names(si.fields@),
                None => r@.len() == 0 || first_dot(tname@) >= 0,
            },
    {
        match self.type_info.structs.get(tname) {
            Some(info) => {
                return names_of_fields(&info.fields);
            },
            None => {},
        }
        match split_at_dot(tname) {
            Some((m, s)) => match self.type_info.modules.get(m.as_str()) {
                Some(mi) => match mi.structs.get(s.as_str()) {
                    Some(si) => names_of_fields(&si.fields),
                    None => Vec::new(),
                },
                None => Vec::new(),
            },
            None => Vec::new(),
        }
    }

    /// The position of variant `variant` in the enum named `tname`.
    pub fn get_variant_index(&self, tname: &str, variant: &str) -> (r: Result<u8, String>)
        ensures
            match r {
                Ok(k) => enum_variant_index(self.type_info, tname@, variant@) == Some(k as int),
                Err(e) => enum_variant_index(self.type_info, tname@, variant@) is None
                    || enum_variant_index(self.type_info, tname@, variant@).unwrap() > 0xff,
            },
    {
        match self.type_info.enums.get(tname) {
            Some(info) => match find_variant_pos(&info.variants, variant) {
                Some(k) => {
                    if k <= 0xff {
                        return Ok(k as u8);
                    }
                    return Err(cat3("too many variants on enum '", tname, "'"));
                },
                None => {},
            },
            None => {},
        }
        match split_at_dot(tname) {
            Some((m, s)) => match self.type_info.modules.get(m.as_str()) {
                Some(mi) => match mi.enums.get(s.as_str()) {
                    Some(ei) => match find_variant_pos(&ei.variants, variant) {
                        Some(k) => {
                            if k <= 0xff {
                                return Ok(k as u8);
                            }
                            return Err(cat3("too many variants on enum '", tname, "'"));
                        },
                        None => {},
                    },
                    None => {},
                },
                None => {},
            },
            None => {},
        }
        Err(cat5("unknown variant '", tname, ".", variant, "'"))
    }
}

/// The instruction for `a op b` with a left operand of type `lt`, into `d`;
/// `&&` and `||` are compiled with jumps instead.
pub open spec fn binop_op(op: BinOp, lt: TypeView, d: u16, a: u16, b: u16) -> Op {
    let f = lt == TypeView::F64;
    let s = lt == TypeView::String;
    match op {
        BinOp::Add => if s { Op::ConcatString(d, a, b) } else if f { Op::AddFloat(d, a, b) } else { Op::AddInt(d, a, b) },
        BinOp::Sub => if f { Op::SubFloat(d, a, b) } else { Op::SubInt(d, a, b) },
        BinOp::Mul => if f { Op::MulFloat(d, a, b) } else { Op::MulInt(d, a, b) },
        BinOp::Div => if f { Op::DivFloat(d, a, b) } else { Op::DivInt(d, a, b) },
        BinOp::Mod => if f { Op::ModFloat(d, a, b) } else { Op::ModInt(d, a, b) },
        BinOp::Pow => if f { Op::PowFloat(d, a, b) } else { Op::PowInt(d, a, b) },
        BinOp::Eq => if f { Op::EqFloat(d, a, b) } else if s { Op::EqString(d, a, b) } else if lt == TypeView::Bool {
            Op::EqBool(d, a, b)
        } else {
            Op::EqGeneric(d, a, b)
        },
        BinOp::NotEq => if f { Op::NeqFloat(d, a, b) } else if s { Op::NeqString(d, a, b) } else if lt == TypeView::Bool {
            Op::NeqBool(d, a, b)
        } else {
            Op::NeqGeneric(d, a, b)
        },
        BinOp::Lt => if f { Op::LtFloat(d, a, b) } else if s { Op::LtString(d, a, b) } else { Op::LtInt(d, a, b) },
        BinOp::LtEq => if f { Op::LteFloat(d, a, b) } else if s { Op::LteString(d, a, b) } else { Op::LteInt(d, a, b) },
        BinOp::Gt => if f { Op::GtFloat(d, a, b) } else if s { Op::GtString(d, a, b) } else { Op::GtInt(d, a, b) },
        BinOp::GtEq => if f { Op::GteFloat(d, a, b) } else if s { Op::GteString(d, a, b) } else { Op::GteInt(d, a, b) },
        BinOp::BitAnd => Op::BitAnd(d, a, b),
        BinOp::BitOr => Op::BitOr(d, a, b),
        BinOp::BitXor => Op::BitXor(d, a, b),
        BinOp::ShiftLeft => Op::ShiftLeft(d, a, b),
        BinOp::ShiftRight => Op::ShiftRight(d, a, b),
        BinOp::And => Op::And(d, a, b),
        BinOp::Or => Op::Or(d, a, b),
    }
}

/// The destination and the two source registers of a three-register
/// instruction, in the order in which the instruction names them.
pub open spec fn three_regs(op: Op) -> Option<(u16, u16, u16)> {
    match op {
        Op::AddInt(d, a, b)
        | Op::SubInt(d, a, b)
        | Op::MulInt(d, a, b)
        | Op::DivInt(d, a, b)
        | Op::ModInt(d, a, b)
        | Op::PowInt(d, a, b)
        | Op::AddFloat(d, a, b)
        | Op::SubFloat(d, a, b)
        | Op::MulFloat(d, a, b)
        | Op::DivFloat(d, a, b)
        | Op::ModFloat(d, a, b)
        | Op::PowFloat(d, a, b)
        | Op::ConcatString(d, a, b)
        | Op::EqInt(d, a, b)
        | Op::NeqInt(d, a, b)
        | Op::LtInt(d, a, b)
        | Op::LteInt(d, a, b)
        | Op::GtInt(d, a, b)
        | Op::GteInt(d, a, b)
        | Op::EqFloat(d, a, b)
        | Op::NeqFloat(d, a, b)
        | Op::LtFloat(d, a, b)
        | Op::LteFloat(d, a, b)
        | Op::GtFloat(d, a, b)
        | Op::GteFloat(d, a, b)
        | Op::EqString(d, a, b)
        | Op::NeqString(d, a, b)
        | Op::LtString(d, a, b)
        | Op::LteString(d, a, b)
        | Op::GtString(d, a, b)
        | Op::GteString(d, a, b)
        | Op::EqBool(d, a, b)
        | Op::NeqBool(d, a, b)
        | Op::EqGeneric(d, a, b)
        | Op::NeqGeneric(d, a, b)
        | Op::And(d, a, b)
        | Op::Or(d, a, b)
        | Op::BitAnd(d, a, b)
        | Op::BitOr(d, a, b)
        | Op::BitXor(d, a, b)
        | Op::ShiftLeft(d, a, b)
        | Op::ShiftRight(d, a, b)
        | Op::GetIndex(d, a, b)
        | Op::SetIndex(d, a, b)
        | Op::StringConcat(d, a, b)
        | Op::MakeRange(d, a, b)
        | Op::IterNext(d, a, b)
        | Op::IsIdentical(d, a, b) => Some((d, a, b)),
        _ => None,
    }
}

/// A binary operation's instruction writes `d` and reads the left operand's
/// register `a` first and the right operand's register `b` second, so that
/// `l - r` computes `l` minus `r`, never `r` minus `l`.
pub proof fn law_binop_operand_order(op: BinOp, lt: TypeView, d: u16, a: u16, b: u16)
    requires
        !(op is And),
        !(op is Or),
    ensures
        three_regs(binop_op(op, lt, d, a, b)) == Some((d, a, b)),
{
}

/// Each operator selects the instruction for its operand type: integer
/// instructions for integers, float ones for `f64`, string ones for
/// strings (`+` concatenates), bool ones for `==` and `!=` on bools, and the
/// bitwise operators and shifts their own; each on the operands in the
/// order written.
pub proof fn law_binop_by_operand_type(op: BinOp, lt: TypeView, d: u16, a: u16, b: u16)
    ensures
        is_integer_view(lt) ==> (op is Add ==> binop_op(op, lt, d, a, b) == Op::AddInt(d, a, b))
            && (op is Sub ==> binop_op(op, lt, d, a, b) == Op::SubInt(d, a, b))
            && (op is Mul ==> binop_op(op, lt, d, a, b) == Op::MulInt(d, a, b))
            && (op is Div ==> binop_op(op, lt, d, a, b) == Op::DivInt(d, a, b))
            && (op is Mod ==> binop_op(op, lt, d, a, b) == Op::ModInt(d, a, b))
            && (op is Pow ==> binop_op(op, lt, d, a, b) == Op::PowInt(d, a, b))
            && (op is Lt ==> binop_op(op, lt, d, a, b) == Op::LtInt(d, a, b))
            && (op is Gt ==> binop_op(op, lt, d, a, b) == Op::GtInt(d, a, b)),
        lt == TypeView::F64 ==> (op is Add ==> binop_op(op, lt, d, a, b) == Op::AddFloat(d, a, b))
            && (op is Sub ==> binop_op(op, lt, d, a, b) == Op::SubFloat(d, a, b))
            && (op is Mul ==> binop_op(op, lt, d, a, b) == Op::MulFloat(d, a, b))
            && (op is Div ==> binop_op(op, lt, d, a, b) == Op::DivFloat(d, a, b))
            && (op is Lt ==> binop_op(op, lt, d, a, b) == Op::LtFloat(d, a, b)),
        is_integer_view(lt) ==> (op is LtEq ==> binop_op(op, lt, d, a, b) == Op::LteInt(d, a, b))
            && (op is GtEq ==> binop_op(op, lt, d, a, b) == Op::GteInt(d, a, b))
            && (op is Eq ==> binop_op(op, lt, d, a, b) == Op::EqGeneric(d, a, b))
            && (op is NotEq ==> binop_op(op, lt, d, a, b) == Op::NeqGeneric(d, a, b)),
        lt == TypeView::F64 ==> (op is Mod ==> binop_op(op, lt, d, a, b) == Op::ModFloat(d, a, b))
            && (op is Pow ==> binop_op(op, lt, d, a, b) == Op::PowFloat(d, a, b))
            && (op is Gt ==> binop_op(op, lt, d, a, b) == Op::GtFloat(d, a, b))
            && (op is LtEq ==> binop_op(op, lt, d, a, b) == Op::LteFloat(d, a, b))
            && (op is GtEq ==> binop_op(op, lt, d, a, b) == Op::GteFloat(d, a, b))
            && (op is Eq ==> binop_op(op, lt, d, a, b) == Op::EqFloat(d, a, b))
            && (op is NotEq ==> binop_op(op, lt, d, a, b) == Op::NeqFloat(d, a, b)),
        lt == TypeView::String && op is Add ==> binop_op(op, lt, d, a, b) == Op::ConcatString(d, a, b),
        lt == TypeView::String ==> (op is Eq ==> binop_op(op, lt, d, a, b) == Op::EqString(d, a, b))
            && (op is NotEq ==> binop_op(op, lt, d, a, b) == Op::NeqString(d, a, b))
            && (op is Lt ==> binop_op(op, lt, d, a, b) == Op::LtString(d, a, b))
            && (op is Gt ==> binop_op(op, lt, d, a, b) == Op::GtString(d, a, b)),
        lt == TypeView::Bool ==> (op is Eq ==> binop_op(op, lt, d, a, b) == Op::EqBool(d, a, b))
            && (op is NotEq ==> binop_op(op, lt, d, a, b) == Op::NeqBool(d, a, b)),
        op is BitAnd ==> binop_op(op, lt, d, a, b) == Op::BitAnd(d, a, b),
        op is BitOr ==> binop_op(op, lt, d, a, b) == Op::BitOr(d, a, b),
        op is BitXor ==> binop_op(op, lt, d, a, b) == Op::BitXor(d, a, b),
        op is ShiftLeft ==> binop_op(op, lt, d, a, b) == Op::ShiftLeft(d, a, b),
        op is ShiftRight ==> binop_op(op, lt, d, a, b) == Op::ShiftRight(d, a, b),
{
}

/// The instruction for `a op b` with a left operand of type `lt`, into `d`.
fn select_binop(op: BinOp, lt: &Type, d: u16, a: u16, b: u16) -> (r: Op)
    ensures
        r == binop_op(op, lt@, d, a, b),
{
    let f = matches!(lt, Type::F64);
    let s = matches!(lt, Type::String);
    let bl = matches!(lt, Type::Bool);
    match op {
        BinOp::Add => if s { Op::ConcatString(d, a, b) } else if f { Op::AddFloat(d, a, b) } else { Op::AddInt(d, a, b) },
        BinOp::Sub => if f { Op::SubFloat(d, a, b) } else { Op::SubInt(d, a, b) },
        BinOp::Mul => if f { Op::MulFloat(d, a, b) } else { Op::MulInt(d, a, b) },
        BinOp::Div => if f { Op::DivFloat(d, a, b) } else { Op::DivInt(d, a, b) },
        BinOp::Mod => if f { Op::ModFloat(d, a, b) } else { Op::ModInt(d, a, b) },
        BinOp::Pow => if f { Op::PowFloat(d, a, b) } else { Op::PowInt(d, a, b) },
        BinOp::Eq => if f { Op::EqFloat(d, a, b) } else if s { Op::EqString(d, a, b) } else if bl {
            Op::EqBool(d, a, b)
        } else {
            Op::EqGeneric(d, a, b)
        },
        BinOp::NotEq => if f { Op::NeqFloat(d, a, b) } else if s { Op::NeqString(d, a, b) } else if bl {
            Op::NeqBool(d, a, b)
        } else {
            Op::NeqGeneric(d, a, b)
        },
        BinOp::Lt => if f { Op::LtFloat(d, a, b) } else if s { Op::LtString(d, a, b) } else { Op::LtInt(d, a, b) },
        BinOp::LtEq => if f { Op::LteFloat(d, a, b) } else if s { Op::LteString(d, a, b) } else { Op::LteInt(d, a, b) },
        BinOp::Gt => if f { Op::GtFloat(d, a, b) } else if s { Op::GtString(d, a, b) } else { Op::GtInt(d, a, b) },
        BinOp::GtEq => if f { Op::GteFloat(d, a, b) } else if s { Op::GteString(d, a, b) } else { Op::GteInt(d, a, b) },
        BinOp::BitAnd => Op::BitAnd(d, a, b),
        BinOp::BitOr => Op::BitOr(d, a, b),
        BinOp::BitXor => Op::BitXor(d, a, b),
        BinOp::ShiftLeft => Op::ShiftLeft(d, a, b),
        BinOp::ShiftRight => Op::ShiftRight(d, a, b),
        BinOp::And => Op::And(d, a, b),
        BinOp::Or => Op::Or(d, a, b),
    }
}

/// The instruction that converts `s` of type `from` to `to` into `d`; `safe`
/// for `as?`.
pub open spec fn conversion_op(from: TypeView, to: TypeView, safe: bool, d: u16, s: u16) -> Op {
    if is_integer_view(from) && to == TypeView::F64 {
        Op::IntToFloat(d, s)
    } else if from == TypeView::F64 && is_integer_view(to) {
        if safe { Op::FloatToIntSafe(d, s) } else { Op::FloatToInt(d, s) }
    } else if is_integer_view(from) && to == TypeView::String {
        Op::IntToString(d, s)
    } else if from == TypeView::F64 && to == TypeView::String {
        Op::FloatToString(d, s)
    } else if from == TypeView::Bool && to == TypeView::String {
        Op::BoolToString(d, s)
    } else if from == TypeView::String && is_integer_view(to) {
        if safe { Op::StringToIntSafe(d, s) } else { Op::StringToInt(d, s) }
    } else if from == TypeView::String && to == TypeView::F64 {
        if safe { Op::StringToFloatSafe(d, s) } else { Op::StringToFloat(d, s) }
    } else if is_integer_view(from) && is_integer_view(to) {
        if safe { Op::IntNarrowSafe(d, s, int_type_of(to)) } else { Op::IntNarrow(d, s, int_type_of(to)) }
    } else {
        Op::Move(d, s)
    }
}

/// The instruction that converts `s` of type `from` to `to` into `d`.
fn select_conversion(from: &Type, to: &Type, safe: bool, d: u16, s: u16) -> (r: Op)
    ensures
        r == conversion_op(from@, to@, safe, d, s),
{
    let fi = from.is_integer();
    let ti = to.is_integer();
    let ff = matches!(from, Type::F64);
    let tf = matches!(to, Type::F64);
    let fs = matches!(from, Type::String);
    let ts = matches!(to, Type::String);
    if fi && tf {
        Op::IntToFloat(d, s)
    } else if ff && ti {
        if safe { Op::FloatToIntSafe(d, s) } else { Op::FloatToInt(d, s) }
    } else if fi && ts {
        Op::IntToString(d, s)
    } else if ff && ts {
        Op::FloatToString(d, s)
    } else if matches!(from, Type::Bool) && ts {
        Op::BoolToString(d, s)
    } else if fs && ti {
        if safe { Op::StringToIntSafe(d, s) } else { Op::StringToInt(d, s) }
    } else if fs && tf {
        if safe { Op::StringToFloatSafe(d, s) } else { Op::StringToFloat(d, s) }
    } else if fi && ti {
        if safe { Op::IntNarrowSafe(d, s, type_to_int_type(to)) } else { Op::IntNarrow(d, s, type_to_int_type(to)) }
    } else {
        Op::Move(d, s)
    }
}

/// The instruction that loads the integer `n` into `d`: as an `i64` where it
/// fits, else as a `u64`; none for other values.
pub open spec fn int_load_op(d: u16, n: i128) -> Option<Op> {
    if i64::MIN <= n <= i64::MAX {
        Some(Op::LoadInt(d, n as i64))
    } else if 0 <= n <= u64::MAX {
        Some(Op::LoadUInt(d, n as u64))
    } else {
        None
    }
}

/// The instruction that loads the integer `n` into `d`.
fn select_int_load(d: u16, n: i128) -> (r: Option<Op>)
    ensures
        r == int_load_op(d, n),
{
    if -0x8000_0000_0000_0000i128 <= n && n <= 0x7fff_ffff_ffff_ffffi128 {
        Some(Op::LoadInt(d, n as i64))
    } else if 0 <= n && n <= 0xffff_ffff_ffff_ffffi128 {
        Some(Op::LoadUInt(d, n as u64))
    } else {
        None
    }
}

/// The value of a run of decimal digits, or none if `s` holds anything else
/// or is empty.
pub open spec fn digits_value(s: Seq<char>) -> Option<nat>
    decreases s.len(),
{
    if s.len() == 0 {
        None
    } else {
        let c = s.last();
        if '0' <= c <= '9' {
            let d = (c as int - '0' as int) as nat;
            if s.len() == 1 {
                Some(d)
            } else {
                match digits_value(s.drop_last()) {
                    Some(v) => Some(v * 10 + d),
                    None => None,
                }
            }
        } else {
            None
        }
    }
}

/// A tuple position written as `s`: decimal digits, with an optional
/// leading `+`, whose value fits a `u16`.
pub open spec fn tuple_position(s: Seq<char>) -> Option<u16> {
    let v = if s.len() > 0 && s[0] == '+' { digits_value(s.drop_first()) } else { digits_value(s) };
    match v {
        Some(n) => if n <= 0xffff { Some(n as u16) } else { None },
        None => None,
    }
}

/// Reads a tuple position.
fn parse_position(s: &str) -> (r: Option<u16>)
    ensures
        r == tuple_position(s@),
{
    let cs = chars_of(s);
    let mut i: usize = 0;
    if cs.len() > 0 && cs[0] == '+' {
        i = 1;
    }
    let start = i;
    let ghost body = if s@.len() > 0 && s@[0] == '+' { s@.drop_first() } else { s@ };
    assert(cs@ == s@);
    assert(tuple_position(s@) == match digits_value(body) { Some(n) => if n <= 0xffff { Some(n as u16) } else { None }, None => None });
    assert(body =~= cs@.skip(start as int));
    if i >= cs.len() {
        assert(body.len() == 0);
        return None;
    }
    let mut v: u32 = 0;
    while i < cs.len()
        invariant
            start < cs@.len(),
            start <= i <= cs@.len(),
            cs@ == s@,
            body =~= cs@.skip(start as int),
            v <= 0xffff,
            i == start ==> v == 0,
            tuple_position(s@) == match digits_value(body) { Some(n) => if n <= 0xffff { Some(n as u16) } else { None }, None => None },
            i > start ==> digits_value(cs@.subrange(start as int, i as int)) == Some(v as nat),
        decreases cs.len() - i,
    {
        let c = cs[i];
        assert(cs@.subrange(start as int, i + 1).drop_last() =~= cs@.subrange(start as int, i as int));
        assert(cs@.subrange(start as int, i + 1).last() == c);
        if !('0' <= c && c <= '9') {
            assert(body[(i - start) as int] == c);
            proof { lemma_digits_none(body, (i - start) as int); }
            assert(digits_value(body) is None);
            assert(body.take(i - start + 1) =~= cs@.subrange(start as int, i + 1));
            return None;
        }
        let d = (c as u32) - ('0' as u32);
        let nv = v * 10 + d;
        assert(d as int == c as int - '0' as int);
        proof {
            let sub = cs@.subrange(start as int, i + 1);
            if i > start {
                assert(digits_value(sub.drop_last()) == Some(v as nat));
            } else {
                assert(sub.len() == 1);
                assert(v == 0);
            }
        }
        assert(digits_value(cs@.subrange(start as int, i + 1)) == Some(nv as nat));
        if nv > 0xffff {
            proof {
                assert(body.take(i - start + 1) =~= cs@.subrange(start as int, i + 1));
                lemma_digits_big(body, (i - start + 1) as int);
            }
            return None;
        }
        v = nv;
        i = i + 1;
    }
    assert(cs@.subrange(start as int, i as int) =~= body);
    Some(v as u16)
}

/// Where a prefix of `s` holds a non-digit, `s` has no digit value.
proof fn lemma_digits_none(s: Seq<char>, k: int)
    requires
        0 <= k < s.len(),
        !('0' <= s[k] <= '9'),
    ensures
        digits_value(s) is None,
    decreases s.len(),
{
    if k < s.len() - 1 {
        lemma_digits_none(s.drop_last(), k);
    }
}

/// Where a prefix of `s` is worth more than `0xffff`, so is `s`, or it has
/// no value.
proof fn lemma_digits_big(s: Seq<char>, k: int)
    requires
        0 < k <= s.len(),
        digits_value(s.take(k)) matches Some(v) && v > 0xffff,
    ensures
        digits_value(s) is None || digits_value(s).unwrap() > 0xffff,
    decreases s.len(),
{
    if k < s.len() {
        assert(s.drop_last().take(k) =~= s.take(k));
        lemma_digits_big(s.drop_last(), k);
    } else {
        assert(s.take(k) =~= s);
    }
}

/// A name written in quotes, with quotes and backslashes escaped.
pub open spec fn quoted(s: Seq<char>) -> Seq<char> {
    seq!['"'] + escaped(s) + seq!['"']
}

/// `s` with each quote and backslash preceded by a backslash.
pub open spec fn escaped(s: Seq<char>) -> Seq<char>
    decreases s.len(),
{
    if s.len() == 0 {
        Seq::empty()
    } else {
        let c = s.last();
        escaped(s.drop_last()) + if c == '"' || c == '\\' { seq!['\\', c] } else { seq![c] }
    }
}

/// The text by which a written type is known at run time, in the shape of
/// its structure: `Named("i64")`, `Array(Named("string"))`, `Tuple([..])`.
pub open spec fn texpr_key(t: TypeExpr) -> Seq<char>
    decreases t,
{
    match t {
        TypeExpr::Named(n) => "Named("@ + quoted(n@) + ")"@,
        TypeExpr::Qualified(m, n) => "Qualified("@ + quoted(m@) + ", "@ + quoted(n@) + ")"@,
        TypeExpr::Array(x) => "Array("@ + texpr_key(*x) + ")"@,
        TypeExpr::MapOf(k, v) => "MapOf("@ + texpr_key(*k) + ", "@ + texpr_key(*v) + ")"@,
        TypeExpr::Tuple(xs) => "Tuple(["@ + texprs_key(xs@, xs@.len() as int) + "])"@,
        TypeExpr::Optional(x) => "Optional("@ + texpr_key(*x) + ")"@,
        TypeExpr::Result(x, e) => "Result("@ + texpr_key(*x) + ", "@ + texpr_key(*e) + ")"@,
        TypeExpr::Function(ps, r) => "Function(["@ + texprs_key(ps@, ps@.len() as int) + "], "@ + texpr_key(*r) + ")"@,
        TypeExpr::Union(xs) => "Union(["@ + texprs_key(xs@, xs@.len() as int) + "])"@,
        TypeExpr::SelfType => "SelfType"@,
    }
}

/// The keys of the first `n` types of `ts`, separated by ", ".
pub open spec fn texprs_key(ts: Seq<TypeExpr>, n: int) -> Seq<char>
    decreases ts, n,
{
    if n <= 0 || n > ts.len() {
        Seq::empty()
    } else if n == 1 {
        texpr_key(ts[0])
    } else {
        texprs_key(ts, n - 1) + ", "@ + texpr_key(ts[n - 1])
    }
}

/// Appends `s` in quotes, escaping quotes and backslashes.
fn push_quoted(out: &mut String, s: &str)
    ensures
        final(out)@ == old(out)@ + quoted(s@),
{
    let cs = chars_of(s);
    push_char(out, '"');
    let ghost start = out@;
    let mut i: usize = 0;
    assert(cs@.take(0) =~= Seq::<char>::empty());
    while i < cs.len()
        invariant
            i <= cs@.len(),
            cs@ == s@,
            out@ == start + escaped(cs@.take(i as int)),
        decreases cs.len() - i,
    {
        let c = cs[i];
        assert(cs@.take(i + 1).drop_last() =~= cs@.take(i as int));
        if c == '"' || c == '\\' {
            push_char(out, '\\');
        }
        push_char(out, c);
        proof {
            assert(out@ =~= start + escaped(cs@.take(i + 1)));
        }
        i = i + 1;
    }
    assert(cs@.take(i as int) =~= s@);
    push_char(out, '"');
    assert(out@ =~= old(out)@ + quoted(s@));
}

/// Appends the key of a written type.
fn push_texpr_key(out: &mut String, t: &TypeExpr)
    ensures
        final(out)@ == old(out)@ + texpr_key(*t),
    decreases t,
{
    let ghost o = out@;
    match t {
        TypeExpr::Named(n) => {
            out.append("Named(");
            push_quoted(out, n.as_str());
            out.append(")");
        },
        TypeExpr::Qualified(m, n) => {
            out.append("Qualified(");
            push_quoted(out, m.as_str());
            out.append(", ");
            push_quoted(out, n.as_str());
            out.append(")");
        },
        TypeExpr::Array(x) => {
            out.append("Array(");
            push_texpr_key(out, x);
            out.append(")");
        },
        TypeExpr::MapOf(k, v) => {
            out.append("MapOf(");
            push_texpr_key(out, k);
            out.append(", ");
            push_texpr_key(out, v);
            out.append(")");
        },
        TypeExpr::Tuple(xs) => {
            out.append("Tuple([");
            push_texprs_key(out, xs);
            out.append("])");
        },
        TypeExpr::Optional(x) => {
            out.append("Optional(");
            push_texpr_key(out, x);
            out.append(")");
        },
        TypeExpr::Result(x, e) => {
            out.append("Result(");
            push_texpr_key(out, x);
            out.append(", ");
            push_texpr_key(out, e);
            out.append(")");
        },
        TypeExpr::Function(ps, r) => {
            out.append("Function([");
            push_texprs_key(out, ps);
            out.append("], ");
            push_texpr_key(out, r);
            out.append(")");
        },
        TypeExpr::Union(xs) => {
            out.append("Union([");
            push_texprs_key(out, xs);
            out.append("])");
        },
        TypeExpr::SelfType => {
            out.append("SelfType");
        },
    }
    assert(out@ =~= o + texpr_key(*t));
}

/// Appends the keys of a list of written types, separated by ", ".
fn push_texprs_key(out: &mut String, ts: &Vec<TypeExpr>)
    ensures
        final(out)@ == old(out)@ + texprs_key(ts@, ts@.len() as int),
    decreases ts,
{
    let ghost o = out@;
    let mut i: usize = 0;
    while i < ts.len()
        invariant
            i <= ts@.len(),
            out@ == o + texprs_key(ts@, i as int),
        decreases ts.len() - i,
    {
        proof {
            assert(decreases_to!(*ts => ts@[i as int]));
        }
        if i > 0 {
            out.append(", ");
        }
        push_texpr_key(out, &ts[i]);
        assert(out@ =~= o + texprs_key(ts@, i + 1));
        i = i + 1;
    }
}

/// The key of a written type.
pub fn type_expr_key(t: &TypeExpr) -> (r: String)
    ensures
        r@ == texpr_key(*t),
{
    let mut out = String::new();
    push_texpr_key(&mut out, t);
    assert(out@ =~= texpr_key(*t));
    out
}

/// A count or index as an `i64`, where it fits.
fn index_value(i: usize) -> (r: Option<i64>)
    ensures
        match r {
            Some(v) => v as int == i as int,
            None => i as int > i64::MAX,
        },
{
    let w = i as u64;
    if w <= 0x7fff_ffff_ffff_ffffu64 {
        Some(w as i64)
    } else {
        None
    }
}

/// One compilation step went well: both states are consistent and only grew.
pub open spec fn step(c0: Compiler, c1: Compiler, f0: FnCompiler, f1: FnCompiler) -> bool {
    &&& c1.wf()
    &&& f1.wf(c1.strings@.len() as nat)
    &&& compiler_grows(c0, c1)
    &&& fc_grows(f0, f1)
}

/// An expression was compiled: the states only grew, at least one register
/// was taken, and the value is in one of the registers taken for it.
pub open spec fn expr_done(c0: Compiler, c1: Compiler, f0: FnCompiler, f1: FnCompiler, r: Result<u16, String>) -> bool {
    r matches Ok(reg) ==> step(c0, c1, f0, f1) && f0.registers <= reg < f1.registers && f0.registers < f1.registers
}

/// The code ends with the instruction for `op`, into `d`, on operands whose
/// registers come in the order they were computed: the left operand's before
/// the right one's, both before `d`.
pub open spec fn ends_with_binop(code: Seq<Op>, op: BinOp, lt: TypeView, d: u16) -> bool {
    code.len() > 0 && exists|a: u16, b: u16| a < b < d && code.last() == binop_op(op, lt, d, a, b)
}

/// A literal with a register and room for an instruction left is loaded
/// into the next register by exactly one instruction.
pub open spec fn literal_compiled(e: TypedExpr, f0: FnCompiler, f1: FnCompiler, r: Result<u16, String>) -> bool {
    f0.registers < 0xffff && f0.code@.len() < CODE_LIMIT ==> match e.kind {
        TypedExprKind::IntLit(n) => match int_load_op(f0.registers, n) {
            Some(op) => r == Ok::<u16, String>(f0.registers) && f1.code@ == f0.code@.push(op),
            None => r is Err,
        },
        TypedExprKind::BoolLit(v) => r == Ok::<u16, String>(f0.registers) && f1.code@ == f0.code@.push(Op::LoadBool(f0.registers, v)),
        TypedExprKind::Nil => r == Ok::<u16, String>(f0.registers) && f1.code@ == f0.code@.push(Op::LoadNil(f0.registers)),
        _ => true,
    }
}

/// A binary operation other than `&&` and `||` ends in the instruction that
/// its operator and its left operand's type select, into the result register.
pub open spec fn binop_compiled(e: TypedExpr, code: Seq<Op>, r: Result<u16, String>) -> bool {
    match r {
        Ok(reg) => match e.kind {
            TypedExprKind::BinOp(l, op, _) => op is And || op is Or || ends_with_binop(code, op, l.ty@, reg),
            _ => true,
        },
        Err(_) => true,
    }
}

/// A list of registers that all exist.
pub open spec fn regs_below(rs: Seq<u16>, n: u16) -> bool {
    forall|j: int| 0 <= j < rs.len() ==> #[trigger] rs[j] < n
}

impl FnCompiler {
    /// Opens a loop: no breaks or continues yet.
    pub fn enter_loop(&mut self, strs: Ghost<nat>)
        requires
            old(self).wf(strs@),
        ensures
            final(self).wf(strs@),
            final(self).code@ == old(self).code@,
            final(self).registers == old(self).registers,
            final(self).locals@ == old(self).locals@,
            final(self).scope_stack@.len() == old(self).scope_stack@.len(),
            final(self).loop_breaks@.len() == old(self).loop_breaks@.len() + 1,
            final(self).loop_continues@.len() == old(self).loop_continues@.len() + 1,
            final(self).loop_starts@.len() == old(self).loop_starts@.len() + 1,
    {
        let start = self.code.len();
        self.loop_breaks.push(Vec::new());
        self.loop_continues.push(Vec::new());
        self.loop_starts.push(start);
        proof {
            assert forall|i: int, j: int| 0 <= i < self.loop_breaks@.len() && 0 <= j < self.loop_breaks@[i]@.len()
                implies #[trigger] self.loop_breaks@[i]@[j] < self.code@.len() by {
                if i < old(self).loop_breaks@.len() {
                    assert(self.loop_breaks@[i] == old(self).loop_breaks@[i]);
                }
            }
            assert forall|i: int, j: int| 0 <= i < self.loop_continues@.len() && 0 <= j < self.loop_continues@[i]@.len()
                implies #[trigger] self.loop_continues@[i]@[j] < self.code@.len() by {
                if i < old(self).loop_continues@.len() {
                    assert(self.loop_continues@[i] == old(self).loop_continues@[i]);
                }
            }
        }
    }

    /// Closes the innermost loop, giving back its breaks and continues.
    pub fn leave_loop(&mut self, strs: Ghost<nat>) -> (r: (Vec<usize>, Vec<usize>))
        requires
            old(self).wf(strs@),
            old(self).loop_breaks@.len() > 0,
            old(self).loop_continues@.len() > 0,
            old(self).loop_starts@.len() > 0,
        ensures
            final(self).wf(strs@),
            final(self).code@ == old(self).code@,
            final(self).registers == old(self).registers,
            final(self).locals@ == old(self).locals@,
            final(self).scope_stack@.len() == old(self).scope_stack@.len(),
            final(self).loop_breaks@.len() == old(self).loop_breaks@.len() - 1,
            final(self).loop_continues@.len() == old(self).loop_continues@.len() - 1,
            final(self).loop_starts@.len() == old(self).loop_starts@.len() - 1,
            forall|j: int| 0 <= j < r.0@.len() ==> #[trigger] r.0@[j] < final(self).code@.len(),
            forall|j: int| 0 <= j < r.1@.len() ==> #[trigger] r.1@[j] < final(self).code@.len(),
    {
        let ghost top = self.loop_breaks@.len() - 1;
        let ghost ctop = self.loop_continues@.len() - 1;
        let b = self.loop_breaks.pop().unwrap();
        let c = self.loop_continues.pop().unwrap();
        self.loop_starts.pop();
        proof {
            assert forall|j: int| 0 <= j < b@.len() implies #[trigger] b@[j] < self.code@.len() by {
                assert(old(self).loop_breaks@[top]@[j] < old(self).code@.len());
            }
            assert forall|j: int| 0 <= j < c@.len() implies #[trigger] c@[j] < self.code@.len() by {
                assert(old(self).loop_continues@[ctop]@[j] < old(self).code@.len());
            }
            assert forall|i: int, j: int| 0 <= i < self.loop_breaks@.len() && 0 <= j < self.loop_breaks@[i]@.len()
                implies #[trigger] self.loop_breaks@[i]@[j] < self.code@.len() by {
                assert(self.loop_breaks@[i] == old(self).loop_breaks@[i]);
            }
            assert forall|i: int, j: int| 0 <= i < self.loop_continues@.len() && 0 <= j < self.loop_continues@[i]@.len()
                implies #[trigger] self.loop_continues@[i]@[j] < self.code@.len() by {
                assert(self.loop_continues@[i] == old(self).loop_continues@[i]);
            }
        }
        (b, c)
    }

    /// Records a jump to patch to the innermost loop's end (none outside loops).
    pub fn add_break(&mut self, idx: usize, strs: Ghost<nat>)
        requires
            old(self).wf(strs@),
            idx < old(self).code@.len(),
        ensures
            final(self).wf(strs@),
            final(self).code@ == old(self).code@,
            final(self).registers == old(self).registers,
            final(self).locals@ == old(self).locals@,
            fc_grows(*old(self), *final(self)),
    {
        if self.loop_breaks.len() > 0 {
            let ghost old_b = self.loop_breaks@;
            let mut top = self.loop_breaks.pop().unwrap();
            top.push(idx);
            self.loop_breaks.push(top);
            proof {
                let n = old_b.len() - 1;
                assert forall|i: int, j: int| 0 <= i < self.loop_breaks@.len() && 0 <= j < self.loop_breaks@[i]@.len()
                    implies #[trigger] self.loop_breaks@[i]@[j] < self.code@.len() by {
                    if i < n {
                        assert(self.loop_breaks@[i] == old_b[i]);
                    } else if j < old_b[n]@.len() {
                        assert(self.loop_breaks@[i]@[j] == old_b[n]@[j]);
                    }
                }
            }
        }
    }

    /// Records a jump to patch to the innermost loop's start (none outside loops).
    pub fn add_continue(&mut self, idx: usize, strs: Ghost<nat>)
        requires
            old(self).wf(strs@),
            idx < old(self).code@.len(),
        ensures
            final(self).wf(strs@),
            final(self).code@ == old(self).code@,
            final(self).registers == old(self).registers,
            final(self).locals@ == old(self).locals@,
            fc_grows(*old(self), *final(self)),
    {
        if self.loop_continues.len() > 0 {
            let ghost old_c = self.loop_continues@;
            let mut top = self.loop_continues.pop().unwrap();
            top.push(idx);
            self.loop_continues.push(top);
            proof {
                let n = old_c.len() - 1;
                assert forall|i: int, j: int| 0 <= i < self.loop_continues@.len() && 0 <= j < self.loop_continues@[i]@.len()
                    implies #[trigger] self.loop_continues@[i]@[j] < self.code@.len() by {
                    if i < n {
                        assert(self.loop_continues@[i] == old_c[i]);
                    } else if j < old_c[n]@.len() {
                        assert(self.loop_continues@[i]@[j] == old_c[n]@[j]);
                    }
                }
            }
        }
    }

    /// Patches every jump in `jumps` to land on `target`.
    pub fn patch_all(&mut self, jumps: &Vec<usize>, target: usize, strs: Ghost<nat>)
        requires
            old(self).wf(strs@),
            target <= old(self).code@.len(),
            forall|j: int| 0 <= j < jumps@.len() ==> #[trigger] jumps@[j] < old(self).code@.len(),
        ensures
            final(self).wf(strs@),
            final(self).code@.len() == old(self).code@.len(),
            final(self).registers == old(self).registers,
            final(self).locals@ == old(self).locals@,
            fc_grows(*old(self), *final(self)),
    {
        let mut k: usize = 0;
        while k < jumps.len()
            invariant
                k <= jumps@.len(),
                self.wf(strs@),
                self.code@.len() == old(self).code@.len(),
                self.registers == old(self).registers,
                self.locals@ == old(self).locals@,
                fc_grows(*old(self), *self),
                target <= old(self).code@.len(),
                forall|j: int| 0 <= j < jumps@.len() ==> #[trigger] jumps@[j] < old(self).code@.len(),
            decreases jumps.len() - k,
        {
            self.patch_jump(jumps[k], target, strs);
            k = k + 1;
        }
    }

    /// Emits a jump back to `start`.
    pub fn emit_back_jump(&mut self, start: usize, strs: Ghost<nat>) -> (r: Result<usize, String>)
        requires
            old(self).wf(strs@),
            start <= old(self).code@.len(),
        ensures
            r matches Ok(idx) ==> {
                &&& idx == old(self).code@.len()
                &&& final(self).code@.len() == old(self).code@.len() + 1
                &&& final(self).registers == old(self).registers
                &&& final(self).locals@ == old(self).locals@
                &&& final(self).wf(strs@)
                &&& fc_grows(*old(self), *final(self))
            },
    {
        let here = self.code.len();
        if here >= CODE_LIMIT {
            return Err("function too large".to_string());
        }
        let back: i32 = (start as i32) - (here as i32);
        self.emit(Op::Jump(back), strs)
    }
}

impl Compiler {
    /// A fresh register of `fc`.
    pub fn reg(&self, fc: &mut FnCompiler) -> (r: Result<u16, String>)
        requires
            old(fc).wf(self.strings@.len() as nat),
        ensures
            r matches Ok(reg) ==> {
                &&& reg == old(fc).registers
                &&& final(fc).registers == old(fc).registers + 1
                &&& final(fc).wf(self.strings@.len() as nat)
                &&& final(fc).code@ == old(fc).code@
                &&& final(fc).locals@ == old(fc).locals@
                &&& fc_grows(*old(fc), *final(fc))
            },
            r is Err <==> old(fc).registers == 0xffff,
    {
        fc.alloc_reg(Ghost(self.strings@.len() as nat))
    }

    /// Appends an instruction to `fc`.
    pub fn put(&self, fc: &mut FnCompiler, op: Op) -> (r: Result<usize, String>)
        requires
            old(fc).wf(self.strings@.len() as nat),
            op_fits(op, old(fc).registers as nat, self.strings@.len() as nat),
            jump_fits(op, old(fc).code@.len() as int, old(fc).code@.len() + 1 as int),
        ensures
            r matches Ok(idx) ==> {
                &&& idx == old(fc).code@.len()
                &&& final(fc).code@ == old(fc).code@.push(op)
                &&& final(fc).registers == old(fc).registers
                &&& final(fc).locals@ == old(fc).locals@
                &&& final(fc).wf(self.strings@.len() as nat)
                &&& fc_grows(*old(fc), *final(fc))
            },
            r is Err <==> old(fc).code@.len() >= CODE_LIMIT,
    {
        fc.emit(op, Ghost(self.strings@.len() as nat))
    }

    /// A fresh register loaded with nil.
    pub fn load_nil(&self, fc: &mut FnCompiler) -> (r: Result<u16, String>)
        requires
            self.wf(),
            old(fc).wf(self.strings@.len() as nat),
        ensures
            expr_done(*self, *self, *old(fc), *final(fc), r),
            r matches Ok(d) ==> d == old(fc).registers && final(fc).code@ == old(fc).code@.push(Op::LoadNil(d)),
            old(fc).registers < 0xffff && old(fc).code@.len() < CODE_LIMIT ==> r is Ok,
    {
        let d = self.reg(fc)?;
        self.put(fc, Op::LoadNil(d))?;
        Ok(d)
    }

    /// A fresh register loaded with the string constant `s`.
    pub fn load_string(&mut self, fc: &mut FnCompiler, s: &str) -> (r: Result<u16, String>)
        requires
            old(self).wf(),
            old(fc).wf(old(self).strings@.len() as nat),
        ensures
            expr_done(*old(self), *final(self), *old(fc), *final(fc), r),
    {
        let d = self.reg(fc)?;
        let k = self.intern_string(s)?;
        proof {
            lemma_fc_strs(*fc, old(self).strings@.len() as nat, self.strings@.len() as nat);
        }
        self.put(fc, Op::LoadString(d, k))?;
        Ok(d)
    }
}

impl Compiler {
    /// Compiles a function (or a lambda's body) into a new entry of
    /// `functions`, giving its index.
    pub fn compile_fn(&mut self, name: String, params: &Vec<(String, Type)>, ret: &Type, body: &TypedBlock) -> (r: Result<usize, String>)
        requires
            old(self).wf(),
        ensures
            r matches Ok(idx) ==> {
                &&& final(self).wf()
                &&& compiler_grows(*old(self), *final(self))
                &&& idx < final(self).functions@.len()
                &&& final(self).functions@[idx as int].name@ == name@
            },
        decreases body, 5nat,
    {
        let mut fc = FnCompiler::new();
        proof {
            lemma_fc_strs(fc, 0, self.strings@.len() as nat);
        }
        let mut i: usize = 0;
        while i < params.len()
            invariant
                i <= params@.len(),
                self.wf(),
                *self == *old(self),
                fc.wf(self.strings@.len() as nat),
            decreases params.len() - i,
        {
            fc.declare_local(params[i].0.as_str(), Ghost(self.strings@.len() as nat))?;
            i = i + 1;
        }
        self.compile_block(&mut fc, body)?;
        let n = fc.code.len();
        let ends_in_return = n > 0 && match &fc.code[n - 1] {
            Op::Return(_) | Op::ReturnNil | Op::ReturnError(_) => true,
            _ => false,
        };
        if !ends_in_return {
            self.put(&mut fc, Op::ReturnNil)?;
        }
        let mut param_types: Vec<Type> = Vec::new();
        let mut k: usize = 0;
        while k < params.len()
            invariant
                k <= params@.len(),
            decreases params.len() - k,
        {
            param_types.push(params[k].1.deep_clone());
            k = k + 1;
        }
        let f = CompiledFunction {
            name,
            param_count: (params.len() % 256) as u8,
            register_count: fc.registers,
            code: fc.code,
            param_types,
            return_type: ret.deep_clone(),
            line_table: fc.line_table,
        };
        assert(function_fits(f, self.strings@.len() as nat));
        let idx = self.functions.len();
        let ghost fs0 = self.functions@;
        self.functions.push(f);
        proof {
            assert forall|j: int| 0 <= j < self.functions@.len() implies function_fits(#[trigger] self.functions@[j], self.strings@.len() as nat) by {
                if j < fs0.len() {
                    assert(self.functions@[j] == fs0[j]);
                }
            }
        }
        Ok(idx)
    }

    /// Compiles a block in a scope of its own, giving the register of its
    /// last expression statement's value, if it ends in one.
    pub fn compile_block(&mut self, fc: &mut FnCompiler, block: &TypedBlock) -> (r: Result<Option<u16>, String>)
        requires
            old(self).wf(),
            old(fc).wf(old(self).strings@.len() as nat),
        ensures
            r matches Ok(last) ==> step(*old(self), *final(self), *old(fc), *final(fc))
                && (last matches Some(reg) ==> old(fc).registers <= reg < final(fc).registers && old(fc).registers < final(fc).registers),
        decreases block, 3nat,
    {
        fc.push_scope();
        let mut last: Option<u16> = None;
        let mut i: usize = 0;
        while i < block.stmts.len()
            invariant
                i <= block.stmts@.len(),
                self.wf(),
                fc.wf(self.strings@.len() as nat),
                compiler_grows(*old(self), *self),
                old(fc).registers <= fc.registers,
                old(fc).code@.len() <= fc.code@.len(),
                fc.loop_breaks@.len() == old(fc).loop_breaks@.len(),
                fc.loop_continues@.len() == old(fc).loop_continues@.len(),
                fc.loop_starts@.len() == old(fc).loop_starts@.len(),
                fc.scope_stack@.len() == old(fc).scope_stack@.len() + 1,
                last matches Some(reg) ==> old(fc).registers <= reg < fc.registers && old(fc).registers < fc.registers,
            decreases block.stmts.len() - i,
        {
            proof {
                assert(decreases_to!(block.stmts => block.stmts@[i as int]));
            }
            last = self.compile_stmt(fc, &block.stmts[i])?;
            i = i + 1;
        }
        fc.pop_scope();
        Ok(last)
    }

    /// Compiles a statement, giving the register of an expression
    /// statement's value.
    pub fn compile_stmt(&mut self, fc: &mut FnCompiler, stmt: &TypedStmt) -> (r: Result<Option<u16>, String>)
        requires
            old(self).wf(),
            old(fc).wf(old(self).strings@.len() as nat),
        ensures
            r matches Ok(last) ==> step(*old(self), *final(self), *old(fc), *final(fc))
                && (last matches Some(reg) ==> old(fc).registers <= reg < final(fc).registers && old(fc).registers < final(fc).registers),
        decreases stmt, 2nat,
    {
        match stmt {
            TypedStmt::Let(decl) => {
                let v = self.compile_expr(fc, &decl.value)?;
                let l = fc.declare_local(decl.name.as_str(), Ghost(self.strings@.len() as nat))?;
                self.put(fc, Op::Move(l, v))?;
                Ok(None)
            },
            TypedStmt::LetTuple(names, value) => {
                let v = self.compile_expr(fc, value)?;
                let mut i: usize = 0;
                while i < names.len()
                    invariant
                        i <= names@.len(),
                        self.wf(),
                        fc.wf(self.strings@.len() as nat),
                        compiler_grows(*old(self), *self),
                        fc_grows(*old(fc), *fc),
                        v < fc.registers,
                    decreases names.len() - i,
                {
                    let l = fc.declare_local(names[i].0.as_str(), Ghost(self.strings@.len() as nat))?;
                    self.put(fc, Op::GetField(l, v, (i % 0x10000) as u16))?;
                    i = i + 1;
                }
                Ok(None)
            },
            TypedStmt::Assign(target, value) => {
                let v = self.compile_expr(fc, value)?;
                match &**target {
                    TypedAssignTarget::Variable(name, _) => {
                        match fc.lookup(name.as_str()) {
                            Some(reg) => {
                                proof {
                                    lemma_local_reg_in(fc.locals@, name@);
                                }
                                self.put(fc, Op::Move(reg, v))?;
                            },
                            None => {
                                return Err(cat3("undefined variable '", name.as_str(), "' in assignment"));
                            },
                        }
                    },
                    TypedAssignTarget::Field(obj, field, _) => {
                        let o = self.compile_expr(fc, obj)?;
                        let fi = self.get_field_index(&obj.ty, field.as_str())?;
                        self.put(fc, Op::SetField(o, fi, v))?;
                    },
                    TypedAssignTarget::Index(obj, idx, _) => {
                        let o = self.compile_expr(fc, obj)?;
                        let k = self.compile_expr(fc, idx)?;
                        self.put(fc, Op::SetIndex(o, k, v))?;
                    },
                }
                Ok(None)
            },
            TypedStmt::Return(Some(e)) => {
                let v = self.compile_expr(fc, e)?;
                self.put(fc, Op::Return(v))?;
                Ok(None)
            },
            TypedStmt::Return(None) => {
                self.put(fc, Op::ReturnNil)?;
                Ok(None)
            },
            TypedStmt::ReturnError(e) => {
                let v = self.compile_expr(fc, e)?;
                let d = self.reg(fc)?;
                self.put(fc, Op::MakeError(d, v))?;
                self.put(fc, Op::Return(d))?;
                Ok(None)
            },
            TypedStmt::Break => {
                let j = self.put(fc, Op::Jump(0))?;
                fc.add_break(j, Ghost(self.strings@.len() as nat));
                Ok(None)
            },
            TypedStmt::Continue => {
                let j = self.put(fc, Op::Jump(0))?;
                fc.add_continue(j, Ghost(self.strings@.len() as nat));
                Ok(None)
            },
            TypedStmt::Expr(e) => {
                let v = self.compile_expr(fc, e)?;
                Ok(Some(v))
            },
        }
    }
}

/// A register bound in `locals` is one of its entries' registers.
proof fn lemma_local_reg_in(locals: Seq<(String, u16)>, name: Seq<char>)
    requires
        local_reg(locals, name) is Some,
    ensures
        exists|i: int| 0 <= i < locals.len() && (#[trigger] locals[i]).1 == local_reg(locals, name).unwrap(),
    decreases locals.len(),
{
    if locals.last().0@ == name {
        assert(locals[locals.len() - 1].1 == local_reg(locals, name).unwrap());
    } else {
        lemma_local_reg_in(locals.drop_last(), name);
        let i = choose|i: int| 0 <= i < locals.drop_last().len() && (#[trigger] locals.drop_last()[i]).1 == local_reg(locals.drop_last(), name).unwrap();
        assert(locals[i] == locals.drop_last()[i]);
    }
}

impl Compiler {
    /// Compiles an expression, giving the register that holds its value.
    pub fn compile_expr(&mut self, fc: &mut FnCompiler, expr: &TypedExpr) -> (r: Result<u16, String>)
        requires
            old(self).wf(),
            old(fc).wf(old(self).strings@.len() as nat),
        ensures
            expr_done(*old(self), *final(self), *old(fc), *final(fc), r),
            literal_compiled(*expr, *old(fc), *final(fc), r),
            binop_compiled(*expr, final(fc).code@, r),
        decreases expr, 4nat,
    {
        fc.line = expr.span.line;
        match &expr.kind {
            TypedExprKind::IntLit(n) => {
                let d = self.reg(fc)?;
                match select_int_load(d, *n) {
                    Some(op) => {
                        self.put(fc, op)?;
                        Ok(d)
                    },
                    None => Err("integer literal out of range".to_string()),
                }
            },
            TypedExprKind::FloatLit(text) => {
                let d = self.reg(fc)?;
                self.put(fc, Op::LoadFloat(d, text.clone()))?;
                Ok(d)
            },
            TypedExprKind::BoolLit(v) => {
                let d = self.reg(fc)?;
                self.put(fc, Op::LoadBool(d, *v))?;
                Ok(d)
            },
            TypedExprKind::StringLit(text) => self.load_string(fc, text.as_str()),
            TypedExprKind::InterpolatedString(parts) => self.compile_interpolated_string(fc, parts),
            TypedExprKind::Nil => self.load_nil(fc),
            TypedExprKind::Ident(name) => self.compile_ident(fc, name.as_str()),
            TypedExprKind::BinOp(..) => self.compile_binop(fc, expr),
            TypedExprKind::UnaryOp(op, operand) => {
                let src = self.compile_expr(fc, operand)?;
                let d = self.reg(fc)?;
                let instr = match op {
                    UnaryOp::Neg => if matches!(operand.ty, Type::F64) { Op::NegFloat(d, src) } else { Op::NegInt(d, src) },
                    UnaryOp::Not => Op::Not(d, src),
                    UnaryOp::BitNot => Op::BitNot(d, src),
                };
                self.put(fc, instr)?;
                Ok(d)
            },
            TypedExprKind::FieldAccess(..) => self.compile_field_access(fc, expr),
            TypedExprKind::Index(obj, idx) => {
                let o = self.compile_expr(fc, obj)?;
                let k = self.compile_expr(fc, idx)?;
                let d = self.reg(fc)?;
                self.put(fc, Op::GetIndex(d, o, k))?;
                Ok(d)
            },
            TypedExprKind::Range(start, end) => {
                let a = self.compile_expr(fc, start)?;
                let z = self.compile_expr(fc, end)?;
                let d = self.reg(fc)?;
                self.put(fc, Op::MakeRange(d, a, z))?;
                Ok(d)
            },
            TypedExprKind::Call(..) | TypedExprKind::MethodCall(..) | TypedExprKind::StaticMethodCall(..) => self.compile_call(fc, expr),
            TypedExprKind::ArrayLit(elems) => {
                let start = fc.registers;
                let rs = self.compile_args(fc, elems)?;
                let d = self.reg(fc)?;
                self.put(fc, Op::MakeArray(d, start, (elems.len() % 0x10000) as u16))?;
                Ok(d)
            },
            TypedExprKind::TupleLit(elems) => {
                let start = fc.registers;
                let rs = self.compile_args(fc, elems)?;
                let d = self.reg(fc)?;
                self.put(fc, Op::MakeTuple(d, start, (elems.len() % 0x10000) as u16))?;
                Ok(d)
            },
            TypedExprKind::MapLit(..) => self.compile_map(fc, expr),
            TypedExprKind::StructLit(..) => self.compile_struct_lit(fc, expr),
            TypedExprKind::EnumVariant(tname, variant, args) => {
                let tid = self.intern_type(tname.as_str())?;
                let vidx = self.get_variant_index(tname.as_str(), variant.as_str())?;
                let rs = self.compile_args(fc, args)?;
                let d = self.reg(fc)?;
                self.put(fc, Op::MakeEnum(d, tid, vidx, (args.len() % 256) as u8))?;
                Ok(d)
            },
            TypedExprKind::ErrorLit(inner) => {
                let v = self.compile_expr(fc, inner)?;
                let d = self.reg(fc)?;
                self.put(fc, Op::MakeError(d, v))?;
                Ok(d)
            },
            TypedExprKind::If(..) => self.compile_if(fc, expr),
            TypedExprKind::Match(..) => self.compile_match(fc, expr),
            TypedExprKind::For(..) => self.compile_for(fc, expr),
            TypedExprKind::While(..) | TypedExprKind::Loop(..) => self.compile_loop(fc, expr),
            TypedExprKind::Guard(..) => self.compile_guard(fc, expr),
            TypedExprKind::Block(block) => {
                match self.compile_block(fc, block)? {
                    Some(v) => Ok(v),
                    None => self.load_nil(fc),
                }
            },
            TypedExprKind::Lambda(params, ret, body) => {
                let n = self.functions.len();
                let fname = cat2("__lambda_", usize_to_string(n).as_str());
                let ghost s0 = self.strings@.len() as nat;
                let idx = self.compile_fn(fname, params, ret, body)?;
                proof {
                    lemma_fc_strs(*fc, s0, self.strings@.len() as nat);
                }
                let v = match index_value(idx) {
                    Some(v) => v,
                    None => {
                        return Err("too many functions".to_string());
                    },
                };
                let d = self.reg(fc)?;
                self.put(fc, Op::LoadInt(d, v))?;
                Ok(d)
            },
            TypedExprKind::As(inner, target) | TypedExprKind::AsSafe(inner, target) => {
                let safe = matches!(expr.kind, TypedExprKind::AsSafe(..));
                let src = self.compile_expr(fc, inner)?;
                let d = self.reg(fc)?;
                self.put(fc, select_conversion(&inner.ty, target, safe, d, src))?;
                Ok(d)
            },
            TypedExprKind::Is(..) => self.compile_is(fc, expr),
            TypedExprKind::Try(inner) => {
                let v = self.compile_expr(fc, inner)?;
                let e = self.reg(fc)?;
                self.put(fc, Op::IsError(e, v))?;
                let j = self.put(fc, Op::JumpIfFalse(e, 0))?;
                self.put(fc, Op::Return(v))?;
                let end = fc.code.len();
                fc.patch_jump(j, end, Ghost(self.strings@.len() as nat));
                Ok(v)
            },
            TypedExprKind::Panic(args) => {
                if args.len() > 0 {
                    let v = self.compile_expr(fc, &args[0])?;
                    self.put(fc, Op::Panic(v))?;
                } else {
                    let v = self.load_string(fc, "panic")?;
                    self.put(fc, Op::Panic(v))?;
                }
                self.load_nil(fc)
            },
        }
    }
}

impl Compiler {
    /// A name: a copy of its local's register, else the index of a compiled
    /// function of that name, else the name itself, resolved at run time.
    fn compile_ident(&mut self, fc: &mut FnCompiler, name: &str) -> (r: Result<u16, String>)
        requires
            old(self).wf(),
            old(fc).wf(old(self).strings@.len() as nat),
        ensures
            expr_done(*old(self), *final(self), *old(fc), *final(fc), r),
    {
        match fc.lookup(name) {
            Some(reg) => {
                proof {
                    lemma_local_reg_in(fc.locals@, name@);
                }
                let d = self.reg(fc)?;
                self.put(fc, Op::Move(d, reg))?;
                Ok(d)
            },
            None => {
                let mut i: usize = 0;
                while i < self.functions.len()
                    invariant
                        i <= self.functions@.len(),
                        *self == *old(self),
                        *fc == *old(fc),
                        self.wf(),
                        fc.wf(self.strings@.len() as nat),
                    decreases self.functions.len() - i,
                {
                    if str_eq(self.functions[i].name.as_str(), name) {
                        let v = match index_value(i) {
                            Some(v) => v,
                            None => {
                                return Err("too many functions".to_string());
                            },
                        };
                        let d = self.reg(fc)?;
                        self.put(fc, Op::LoadInt(d, v))?;
                        return Ok(d);
                    }
                    i = i + 1;
                }
                self.load_string(fc, name)
            },
        }
    }

    /// A binary operation; `&&` and `||` skip their right operand when the
    /// left one decides.
    fn compile_binop(&mut self, fc: &mut FnCompiler, expr: &TypedExpr) -> (r: Result<u16, String>)
        requires
            old(self).wf(),
            old(fc).wf(old(self).strings@.len() as nat),
            expr.kind is BinOp,
        ensures
            expr_done(*old(self), *final(self), *old(fc), *final(fc), r),
            binop_compiled(*expr, final(fc).code@, r),
        decreases expr, 3nat,
    {
        match &expr.kind {
            TypedExprKind::BinOp(left, op, right) => {
                match op {
                    BinOp::And | BinOp::Or => {
                        let l = self.compile_expr(fc, left)?;
                        let d = self.reg(fc)?;
                        self.put(fc, Op::Move(d, l))?;
                        let j = if matches!(op, BinOp::And) {
                            self.put(fc, Op::JumpIfFalse(d, 0))?
                        } else {
                            self.put(fc, Op::JumpIfTrue(d, 0))?
                        };
                        let rr = self.compile_expr(fc, right)?;
                        self.put(fc, Op::Move(d, rr))?;
                        let end = fc.code.len();
                        fc.patch_jump(j, end, Ghost(self.strings@.len() as nat));
                        Ok(d)
                    },
                    _ => {
                        let l = self.compile_expr(fc, left)?;
                        let rr = self.compile_expr(fc, right)?;
                        let d = self.reg(fc)?;
                        let instr = select_binop(*op, &left.ty, d, l, rr);
                        self.put(fc, instr)?;
                        assert(fc.code@.last() == binop_op(*op, left.ty@, d, l, rr));
                        assert(l < rr < d);
                        Ok(d)
                    },
                }
            },
            _ => Err("not a binary operation".to_string()),
        }
    }

    /// `obj.field`: the built-in `length` of strings, arrays, maps and
    /// tuples, a tuple position, or a struct field.
    fn compile_field_access(&mut self, fc: &mut FnCompiler, expr: &TypedExpr) -> (r: Result<u16, String>)
        requires
            old(self).wf(),
            old(fc).wf(old(self).strings@.len() as nat),
        ensures
            expr_done(*old(self), *final(self), *old(fc), *final(fc), r),
        decreases expr, 3nat,
    {
        match &expr.kind {
            TypedExprKind::FieldAccess(obj, field) => {
                let o = self.compile_expr(fc, obj)?;
                let d = self.reg(fc)?;
                if str_eq(field.as_str(), "length") {
                    match &obj.ty {
                        Type::String => {
                            self.put(fc, Op::StringLen(d, o))?;
                        },
                        Type::Array(_) => {
                            self.put(fc, Op::ArrayLen(d, o))?;
                        },
                        Type::MapOf(_, _) => {
                            self.put(fc, Op::MapLen(d, o))?;
                        },
                        Type::Tuple(elems) => {
                            let v = match index_value(elems.len()) {
                                Some(v) => v,
                                None => {
                                    return Err("tuple too large".to_string());
                                },
                            };
                            self.put(fc, Op::LoadInt(d, v))?;
                        },
                        _ => {
                            let t = obj.ty.display_name();
                            return Err(cat2("no .length on ", t.as_str()));
                        },
                    }
                    return Ok(d);
                }
                if matches!(obj.ty, Type::Tuple(_)) {
                    match parse_position(field.as_str()) {
                        Some(k) => {
                            self.put(fc, Op::GetField(d, o, k))?;
                            return Ok(d);
                        },
                        None => {},
                    }
                }
                let fi = self.get_field_index(&obj.ty, field.as_str())?;
                self.put(fc, Op::GetField(d, o, fi))?;
                Ok(d)
            },
            _ => Err("not a field access".to_string()),
        }
    }

    /// Compiles each expression in turn, giving their registers.
    fn compile_args(&mut self, fc: &mut FnCompiler, args: &Vec<TypedExpr>) -> (r: Result<Vec<u16>, String>)
        requires
            old(self).wf(),
            old(fc).wf(old(self).strings@.len() as nat),
        ensures
            r matches Ok(rs) ==> step(*old(self), *final(self), *old(fc), *final(fc)) && rs@.len() == args@.len()
                && regs_below(rs@, final(fc).registers) && old(fc).registers + args@.len() <= final(fc).registers,
        decreases args, 3nat,
    {
        let mut rs: Vec<u16> = Vec::new();
        let mut i: usize = 0;
        while i < args.len()
            invariant
                i <= args@.len(),
                self.wf(),
                fc.wf(self.strings@.len() as nat),
                compiler_grows(*old(self), *self),
                fc_grows(*old(fc), *fc),
                rs@.len() == i,
                regs_below(rs@, fc.registers),
                old(fc).registers + i <= fc.registers,
            decreases args.len() - i,
        {
            proof {
                assert(decreases_to!(*args => args@[i as int]));
            }
            let v = self.compile_expr(fc, &args[i])?;
            rs.push(v);
            i = i + 1;
        }
        Ok(rs)
    }

    /// Moves the argument values into the registers just after `base`.
    fn place_args(&self, fc: &mut FnCompiler, base: u16, rs: &Vec<u16>) -> (r: Result<(), String>)
        requires
            self.wf(),
            old(fc).wf(self.strings@.len() as nat),
            regs_below(rs@, old(fc).registers),
            base + 1 + rs@.len() <= old(fc).registers,
        ensures
            r is Ok ==> final(fc).wf(self.strings@.len() as nat) && fc_grows(*old(fc), *final(fc))
                && final(fc).registers == old(fc).registers,
    {
        let mut i: usize = 0;
        while i < rs.len()
            invariant
                i <= rs@.len(),
                fc.wf(self.strings@.len() as nat),
                fc_grows(*old(fc), *fc),
                fc.registers == old(fc).registers,
                regs_below(rs@, fc.registers),
                base + 1 + rs@.len() <= fc.registers,
            decreases rs.len() - i,
        {
            let target: u16 = base + 1 + (i as u16);
            if rs[i] != target {
                self.put(fc, Op::Move(target, rs[i]))?;
            }
            i = i + 1;
        }
        Ok(())
    }

    /// A call of a function value, a method, or a static method.
    fn compile_call(&mut self, fc: &mut FnCompiler, expr: &TypedExpr) -> (r: Result<u16, String>)
        requires
            old(self).wf(),
            old(fc).wf(old(self).strings@.len() as nat),
        ensures
            expr_done(*old(self), *final(self), *old(fc), *final(fc), r),
        decreases expr, 3nat,
    {
        match &expr.kind {
            TypedExprKind::Call(func, args) => {
                let f = self.compile_expr(fc, func)?;
                let rs = self.compile_args(fc, args)?;
                self.place_args(fc, f, &rs)?;
                let d = self.reg(fc)?;
                self.put(fc, Op::Call(d, f, (args.len() % 256) as u8))?;
                Ok(d)
            },
            TypedExprKind::MethodCall(obj, method, args) => {
                let o = self.compile_expr(fc, obj)?;
                let ghost s0 = self.strings@.len() as nat;
                let mid = self.intern_method(method.as_str())?;
                let rs = self.compile_args(fc, args)?;
                self.place_args(fc, o, &rs)?;
                let d = self.reg(fc)?;
                let n = (args.len() % 256) as u8;
                if matches!(obj.ty, Type::Capability(_)) {
                    self.put(fc, Op::CallCapability(d, o, mid, n))?;
                } else {
                    self.put(fc, Op::CallMethod(d, o, mid, n))?;
                }
                Ok(d)
            },
            TypedExprKind::StaticMethodCall(tname, method, args) => {
                let rs = self.compile_args(fc, args)?;
                let d = self.reg(fc)?;
                let full = cat3(tname.as_str(), ".", method.as_str());
                let mid = self.intern_method(full.as_str())?;
                self.put(fc, Op::CallMethod(d, 0, mid, (args.len() % 256) as u8))?;
                Ok(d)
            },
            _ => Err("not a call".to_string()),
        }
    }

    /// A map literal: keys and values in turn, then the map.
    #[verifier::loop_isolation(false)]
    fn compile_map(&mut self, fc: &mut FnCompiler, expr: &TypedExpr) -> (r: Result<u16, String>)
        requires
            old(self).wf(),
            old(fc).wf(old(self).strings@.len() as nat),
        ensures
            expr_done(*old(self), *final(self), *old(fc), *final(fc), r),
        decreases expr, 3nat,
    {
        match &expr.kind {
            TypedExprKind::MapLit(entries) => {
                let start = fc.registers;
                let mut i: usize = 0;
                while i < entries.len()
                    invariant
                        i <= entries@.len(),
                self.wf(),
                fc.wf(self.strings@.len() as nat),
                compiler_grows(*old(self), *self),
                fc_grows(*old(fc), *fc),
                        start == old(fc).registers,
                        start + 2 * i <= fc.registers,
                    decreases entries.len() - i,
                {
                    proof {
                        assert(decreases_to!(*entries => entries@[i as int]));
                    }
                    self.compile_expr(fc, &entries[i].0)?;
                    self.compile_expr(fc, &entries[i].1)?;
                    i = i + 1;
                }
                let d = self.reg(fc)?;
                self.put(fc, Op::MakeMap(d, start, (entries.len() % 0x10000) as u16))?;
                Ok(d)
            },
            _ => Err("not a map literal".to_string()),
        }
    }

    /// A struct literal: the fields in their declared order, those left out
    /// taken from the spread value, then the struct.
    #[verifier::loop_isolation(false)]
    fn compile_struct_lit(&mut self, fc: &mut FnCompiler, expr: &TypedExpr) -> (r: Result<u16, String>)
        requires
            old(self).wf(),
            old(fc).wf(old(self).strings@.len() as nat),
        ensures
            expr_done(*old(self), *final(self), *old(fc), *final(fc), r),
        decreases expr, 3nat,
    {
        match &expr.kind {
            TypedExprKind::StructLit(tname, fields, spread) => {
                let tid = self.intern_type(tname.as_str())?;
                let base: Option<u16> = match spread {
                    Some((b, _)) => Some(self.compile_expr(fc, b)?),
                    None => None,
                };
                let order = self.get_field_order(tname.as_str());
                let mut count: usize = 0;
                let mut k: usize = 0;
                while k < order.len()
                    invariant
                        k <= order@.len(),
                self.wf(),
                fc.wf(self.strings@.len() as nat),
                compiler_grows(*old(self), *self),
                fc_grows(*old(fc), *fc),
                        base matches Some(br) ==> br < fc.registers,
                        count <= k,
                    decreases order.len() - k,
                {
                    let mut j: usize = 0;
                    let mut found: Option<usize> = None;
                    while j < fields.len()
                        invariant
                            j <= fields@.len(),
                            found matches Some(x) ==> x < fields@.len(),
                        decreases fields.len() - j,
                    {
                        if found.is_none() && str_eq(fields[j].0.as_str(), order[k].as_str()) {
                            found = Some(j);
                        }
                        j = j + 1;
                    }
                    match found {
                        Some(x) => {
                            proof {
                                assert(decreases_to!(*fields => fields@[x as int]));
                            }
                            self.compile_expr(fc, &fields[x].1)?;
                            count = count + 1;
                        },
                        None => match base {
                            Some(br) => {
                                let d = self.reg(fc)?;
                                self.put(fc, Op::GetField(d, br, (k % 0x10000) as u16))?;
                                count = count + 1;
                            },
                            None => {},
                        },
                    }
                    k = k + 1;
                }
                let d = self.reg(fc)?;
                self.put(fc, Op::MakeStruct(d, tid, (count % 256) as u8))?;
                Ok(d)
            },
            _ => Err("not a struct literal".to_string()),
        }
    }

    /// `if`: the condition, a jump past the then-block, and the else branch
    /// writing into the then-block's register.
    fn compile_if(&mut self, fc: &mut FnCompiler, expr: &TypedExpr) -> (r: Result<u16, String>)
        requires
            old(self).wf(),
            old(fc).wf(old(self).strings@.len() as nat),
        ensures
            expr_done(*old(self), *final(self), *old(fc), *final(fc), r),
        decreases expr, 3nat,
    {
        match &expr.kind {
            TypedExprKind::If(cond, then_block, else_expr) => {
                let c = self.compile_expr(fc, cond)?;
                let jf = self.put(fc, Op::JumpIfFalse(c, 0))?;
                let result = match self.compile_block(fc, then_block)? {
                    Some(v) => v,
                    None => self.load_nil(fc)?,
                };
                match else_expr {
                    Some(e) => {
                        let je = self.put(fc, Op::Jump(0))?;
                        let else_start = fc.code.len();
                        fc.patch_jump(jf, else_start, Ghost(self.strings@.len() as nat));
                        let v = self.compile_expr(fc, e)?;
                        self.put(fc, Op::Move(result, v))?;
                        let end = fc.code.len();
                        fc.patch_jump(je, end, Ghost(self.strings@.len() as nat));
                    },
                    None => {
                        let end = fc.code.len();
                        fc.patch_jump(jf, end, Ghost(self.strings@.len() as nat));
                    },
                }
                Ok(result)
            },
            _ => Err("not an if".to_string()),
        }
    }

    /// `while` and `loop`: the body, a jump back, and the breaks and
    /// continues patched to the loop's end and start.
    fn compile_loop(&mut self, fc: &mut FnCompiler, expr: &TypedExpr) -> (r: Result<u16, String>)
        requires
            old(self).wf(),
            old(fc).wf(old(self).strings@.len() as nat),
        ensures
            expr_done(*old(self), *final(self), *old(fc), *final(fc), r),
        decreases expr, 3nat,
    {
        let start = fc.code.len();
        fc.enter_loop(Ghost(self.strings@.len() as nat));
        let exit: Option<usize> = match &expr.kind {
            TypedExprKind::While(cond, body) => {
                let c = self.compile_expr(fc, cond)?;
                let x = self.put(fc, Op::JumpIfFalse(c, 0))?;
                self.compile_block(fc, body)?;
                Some(x)
            },
            TypedExprKind::Loop(body) => {
                self.compile_block(fc, body)?;
                None
            },
            _ => {
                return Err("not a loop".to_string());
            },
        };
        self.finish_loop(fc, start, exit)?;
        self.load_nil(fc)
    }

    /// Ends a loop that began at `start`: the jump back, then the exit jump
    /// and breaks patched to the end, and continues to the start.
    fn finish_loop(&self, fc: &mut FnCompiler, start: usize, exit: Option<usize>) -> (r: Result<(), String>)
        requires
            self.wf(),
            old(fc).wf(self.strings@.len() as nat),
            start <= old(fc).code@.len(),
            exit matches Some(x) ==> x < old(fc).code@.len(),
            old(fc).loop_breaks@.len() > 0,
            old(fc).loop_continues@.len() > 0,
            old(fc).loop_starts@.len() > 0,
        ensures
            r is Ok ==> final(fc).wf(self.strings@.len() as nat)
                && final(fc).registers == old(fc).registers
                && old(fc).code@.len() <= final(fc).code@.len()
                && final(fc).loop_breaks@.len() == old(fc).loop_breaks@.len() - 1
                && final(fc).loop_continues@.len() == old(fc).loop_continues@.len() - 1
                && final(fc).loop_starts@.len() == old(fc).loop_starts@.len() - 1
                && final(fc).scope_stack@.len() == old(fc).scope_stack@.len(),
    {
        let strs = Ghost(self.strings@.len() as nat);
        fc.emit_back_jump(start, strs)?;
        let end = fc.code.len();
        match exit {
            Some(x) => fc.patch_jump(x, end, strs),
            None => {},
        }
        let (breaks, continues) = fc.leave_loop(strs);
        fc.patch_all(&breaks, end, strs);
        fc.patch_all(&continues, start, strs);
        Ok(())
    }

    /// `for`: an iterator, the next value (or key and value) bound in a scope
    /// of its own, the body, and a jump back.
    fn compile_for(&mut self, fc: &mut FnCompiler, expr: &TypedExpr) -> (r: Result<u16, String>)
        requires
            old(self).wf(),
            old(fc).wf(old(self).strings@.len() as nat),
        ensures
            expr_done(*old(self), *final(self), *old(fc), *final(fc), r),
        decreases expr, 3nat,
    {
        match &expr.kind {
            TypedExprKind::For(var1, var2, iterable, body) => {
                let src = self.compile_expr(fc, iterable)?;
                let it = self.reg(fc)?;
                self.put(fc, Op::IterInit(it, src))?;
                let start = fc.code.len();
                let strs = Ghost(self.strings@.len() as nat);
                fc.enter_loop(strs);
                fc.push_scope();
                let done = self.reg(fc)?;
                match var2 {
                    Some(v2) => {
                        let k = fc.declare_local(var1.as_str(), strs)?;
                        let v = fc.declare_local(v2.as_str(), strs)?;
                        self.put(fc, Op::IterNextKV(k, v, done, it))?;
                    },
                    None => {
                        let v = fc.declare_local(var1.as_str(), strs)?;
                        self.put(fc, Op::IterNext(v, done, it))?;
                    },
                }
                let x = self.put(fc, Op::JumpIfTrue(done, 0))?;
                self.compile_block(fc, body)?;
                fc.pop_scope();
                self.finish_loop(fc, start, Some(x))?;
                self.load_nil(fc)
            },
            _ => Err("not a for loop".to_string()),
        }
    }

    /// `guard`: on failure the else-block runs; `guard let` binds the value
    /// when it is neither an error nor nil.
    fn compile_guard(&mut self, fc: &mut FnCompiler, expr: &TypedExpr) -> (r: Result<u16, String>)
        requires
            old(self).wf(),
            old(fc).wf(old(self).strings@.len() as nat),
        ensures
            expr_done(*old(self), *final(self), *old(fc), *final(fc), r),
        decreases expr, 3nat,
    {
        match &expr.kind {
            TypedExprKind::Guard(binding, value, else_block) => {
                let strs = Ghost(self.strings@.len() as nat);
                match binding {
                    Some(name) => {
                        let v = self.compile_expr(fc, value)?;
                        let strs = Ghost(self.strings@.len() as nat);
                        let e = self.reg(fc)?;
                        self.put(fc, Op::IsError(e, v))?;
                        let je = self.put(fc, Op::JumpIfTrue(e, 0))?;
                        let n = self.reg(fc)?;
                        self.put(fc, Op::IsNil(n, v))?;
                        let jn = self.put(fc, Op::JumpIfTrue(n, 0))?;
                        let l = fc.declare_local(name.as_str(), strs)?;
                        self.put(fc, Op::Move(l, v))?;
                        let jp = self.put(fc, Op::Jump(0))?;
                        let fail = fc.code.len();
                        fc.patch_jump(je, fail, strs);
                        fc.patch_jump(jn, fail, strs);
                        self.compile_block(fc, else_block)?;
                        let end = fc.code.len();
                        fc.patch_jump(jp, end, Ghost(self.strings@.len() as nat));
                    },
                    None => {
                        let c = self.compile_expr(fc, value)?;
                        let strs = Ghost(self.strings@.len() as nat);
                        let jf = self.put(fc, Op::JumpIfFalse(c, 0))?;
                        let jp = self.put(fc, Op::Jump(0))?;
                        let else_start = fc.code.len();
                        fc.patch_jump(jf, else_start, strs);
                        self.compile_block(fc, else_block)?;
                        let end = fc.code.len();
                        fc.patch_jump(jp, end, Ghost(self.strings@.len() as nat));
                    },
                }
                self.load_nil(fc)
            },
            _ => Err("not a guard".to_string()),
        }
    }

    /// `is`: a type test, a variant test, or an identity test.
    fn compile_is(&mut self, fc: &mut FnCompiler, expr: &TypedExpr) -> (r: Result<u16, String>)
        requires
            old(self).wf(),
            old(fc).wf(old(self).strings@.len() as nat),
        ensures
            expr_done(*old(self), *final(self), *old(fc), *final(fc), r),
        decreases expr, 3nat,
    {
        match &expr.kind {
            TypedExprKind::Is(inner, target) => {
                let src = self.compile_expr(fc, inner)?;
                match target {
                    TypedIsTarget::Type(te) => {
                        let key = type_expr_key(te);
                        let tid = self.intern_type(key.as_str())?;
                        let d = self.reg(fc)?;
                        self.put(fc, Op::IsType(d, src, tid))?;
                        Ok(d)
                    },
                    TypedIsTarget::EnumVariant(tname, variant) => {
                        let vidx = match self.get_variant_index(tname.as_str(), variant.as_str()) {
                            Ok(k) => k,
                            Err(_) => 0,
                        };
                        let d = self.reg(fc)?;
                        self.put(fc, Op::IsEnumVariant(d, src, vidx))?;
                        Ok(d)
                    },
                    TypedIsTarget::QualifiedVariant(m, tname, variant) => {
                        let full = cat3(m.as_str(), ".", tname.as_str());
                        let vidx = match self.get_variant_index(full.as_str(), variant.as_str()) {
                            Ok(k) => k,
                            Err(_) => 0,
                        };
                        let d = self.reg(fc)?;
                        self.put(fc, Op::IsEnumVariant(d, src, vidx))?;
                        Ok(d)
                    },
                    TypedIsTarget::Expr(rhs) => {
                        let o = self.compile_expr(fc, rhs)?;
                        let d = self.reg(fc)?;
                        self.put(fc, Op::IsIdentical(d, src, o))?;
                        Ok(d)
                    },
                }
            },
            _ => Err("not an is test".to_string()),
        }
    }

    /// An interpolated string: each part as a string, joined left to right.
    fn compile_interpolated_string(&mut self, fc: &mut FnCompiler, parts: &Vec<TypedStringPart>) -> (r: Result<u16, String>)
        requires
            old(self).wf(),
            old(fc).wf(old(self).strings@.len() as nat),
        ensures
            expr_done(*old(self), *final(self), *old(fc), *final(fc), r),
        decreases parts, 3nat,
    {
        if parts.len() == 0 {
            return self.load_string(fc, "");
        }
        let mut result: Option<u16> = None;
        let mut i: usize = 0;
        while i < parts.len()
            invariant
                i <= parts@.len(),
                self.wf(),
                fc.wf(self.strings@.len() as nat),
                compiler_grows(*old(self), *self),
                fc_grows(*old(fc), *fc),
                result matches Some(x) ==> old(fc).registers <= x < fc.registers,
                i > 0 ==> result is Some && old(fc).registers < fc.registers,
            decreases parts.len() - i,
        {
            proof {
                assert(decreases_to!(*parts => parts@[i as int]));
            }
            let part = match &parts[i] {
                TypedStringPart::Literal(text) => self.load_string(fc, text.as_str())?,
                TypedStringPart::Expr(e) => {
                    let v = self.compile_expr(fc, e)?;
                    if matches!(e.ty, Type::String) {
                        v
                    } else {
                        let d = self.reg(fc)?;
                        let instr = if e.ty.is_integer() {
                            Op::IntToString(d, v)
                        } else if matches!(e.ty, Type::F64) {
                            Op::FloatToString(d, v)
                        } else if matches!(e.ty, Type::Bool) {
                            Op::BoolToString(d, v)
                        } else {
                            Op::DisplayToString(d, v)
                        };
                        self.put(fc, instr)?;
                        d
                    }
                },
            };
            result = match result {
                Some(prev) => {
                    let c = self.reg(fc)?;
                    self.put(fc, Op::ConcatString(c, prev, part))?;
                    Some(c)
                },
                None => Some(part),
            };
            i = i + 1;
        }
        match result {
            Some(x) => Ok(x),
            None => self.load_nil(fc),
        }
    }
}

impl Compiler {
    /// `match`: each arm tests the value, binds its names in a scope of its
    /// own, and writes its body's value into the result register.
    #[verifier::loop_isolation(false)]
    fn compile_match(&mut self, fc: &mut FnCompiler, expr: &TypedExpr) -> (r: Result<u16, String>)
        requires
            old(self).wf(),
            old(fc).wf(old(self).strings@.len() as nat),
        ensures
            expr_done(*old(self), *final(self), *old(fc), *final(fc), r),
        decreases expr, 3nat,
    {
        match &expr.kind {
            TypedExprKind::Match(scrutinee, arms) => {
                let sr = self.compile_expr(fc, scrutinee)?;
                let result = self.load_nil(fc)?;
                let mut end_jumps: Vec<usize> = Vec::new();
                let mut i: usize = 0;
                while i < arms.len()
                    invariant
                        i <= arms@.len(),
                self.wf(),
                fc.wf(self.strings@.len() as nat),
                compiler_grows(*old(self), *self),
                fc_grows(*old(fc), *fc),
                        sr < fc.registers,
                        result < fc.registers,
                        old(fc).registers < fc.registers,
                        forall|j: int| 0 <= j < end_jumps@.len() ==> #[trigger] end_jumps@[j] < fc.code@.len(),
                    decreases arms.len() - i,
                {
                    proof {
                        assert(decreases_to!(*arms => arms@[i as int]));
                    }
                    let next = self.compile_pattern_test(fc, sr, &arms[i].pattern)?;
                    fc.push_scope();
                    self.compile_pattern_bindings(fc, sr, &arms[i].pattern)?;
                    let v = self.compile_expr(fc, &arms[i].body)?;
                    self.put(fc, Op::Move(result, v))?;
                    fc.pop_scope();
                    let j = self.put(fc, Op::Jump(0))?;
                    end_jumps.push(j);
                    match next {
                        Some(x) => {
                            let here = fc.code.len();
                            fc.patch_jump(x, here, Ghost(self.strings@.len() as nat));
                        },
                        None => {},
                    }
                    i = i + 1;
                }
                let end = fc.code.len();
                fc.patch_all(&end_jumps, end, Ghost(self.strings@.len() as nat));
                Ok(result)
            },
            _ => Err("not a match".to_string()),
        }
    }

    /// Emits the test of a pattern against the value in `sr`, giving the
    /// jump to patch to the next arm when the pattern can fail.
    fn compile_pattern_test(&mut self, fc: &mut FnCompiler, sr: u16, pattern: &Pattern) -> (r: Result<Option<usize>, String>)
        requires
            old(self).wf(),
            old(fc).wf(old(self).strings@.len() as nat),
            sr < old(fc).registers,
        ensures
            r matches Ok(next) ==> step(*old(self), *final(self), *old(fc), *final(fc))
                && (next matches Some(x) ==> x < final(fc).code@.len()),
            r matches Ok(next) ==> (next is None <==> (pattern.kind is Wildcard || pattern.kind is Binding)),
    {
        let test_reg = match &pattern.kind {
            PatternKind::Wildcard | PatternKind::Binding(_) => {
                return Ok(None);
            },
            PatternKind::IntLit(n) => {
                let c = self.reg(fc)?;
                let v = self.reg(fc)?;
                match select_int_load(v, *n) {
                    Some(op) => {
                        self.put(fc, op)?;
                    },
                    None => {
                        return Err("integer literal out of range".to_string());
                    },
                }
                self.put(fc, Op::EqInt(c, sr, v))?;
                c
            },
            PatternKind::FloatLit(text) => {
                let c = self.reg(fc)?;
                let v = self.reg(fc)?;
                self.put(fc, Op::LoadFloat(v, text.clone()))?;
                self.put(fc, Op::EqFloat(c, sr, v))?;
                c
            },
            PatternKind::BoolLit(b) => {
                let c = self.reg(fc)?;
                let v = self.reg(fc)?;
                self.put(fc, Op::LoadBool(v, *b))?;
                self.put(fc, Op::EqBool(c, sr, v))?;
                c
            },
            PatternKind::StringLit(text) => {
                let c = self.reg(fc)?;
                let v = self.load_string(fc, text.as_str())?;
                self.put(fc, Op::EqString(c, sr, v))?;
                c
            },
            PatternKind::Nil => {
                let c = self.reg(fc)?;
                self.put(fc, Op::IsNil(c, sr))?;
                c
            },
            PatternKind::EnumVariant(tname, variant, _) => {
                let vidx = self.get_variant_index(tname.as_str(), variant.as_str())?;
                let c = self.reg(fc)?;
                self.put(fc, Op::IsEnumVariant(c, sr, vidx))?;
                c
            },
            PatternKind::QualifiedEnumVariant(m, tname, variant, _) => {
                let full = cat3(m.as_str(), ".", tname.as_str());
                let vidx = self.get_variant_index(full.as_str(), variant.as_str())?;
                let c = self.reg(fc)?;
                self.put(fc, Op::IsEnumVariant(c, sr, vidx))?;
                c
            },
            PatternKind::Error(_) => {
                let c = self.reg(fc)?;
                self.put(fc, Op::IsError(c, sr))?;
                c
            },
            PatternKind::IsType(te) => {
                let key = type_expr_key(te);
                let tid = self.intern_type(key.as_str())?;
                let c = self.reg(fc)?;
                self.put(fc, Op::IsType(c, sr, tid))?;
                c
            },
            PatternKind::IsEnumVariant(tname, variant) => {
                let vidx = self.get_variant_index(tname.as_str(), variant.as_str())?;
                let c = self.reg(fc)?;
                self.put(fc, Op::IsEnumVariant(c, sr, vidx))?;
                c
            },
        };
        let j = self.put(fc, Op::JumpIfFalse(test_reg, 0))?;
        Ok(Some(j))
    }

    /// Binds the names of a pattern to parts of the value in `sr`.
    fn compile_pattern_bindings(&mut self, fc: &mut FnCompiler, sr: u16, pattern: &Pattern) -> (r: Result<(), String>)
        requires
            old(self).wf(),
            old(fc).wf(old(self).strings@.len() as nat),
            sr < old(fc).registers,
        ensures
            r is Ok ==> step(*old(self), *final(self), *old(fc), *final(fc)),
    {
        let strs = Ghost(self.strings@.len() as nat);
        match &pattern.kind {
            PatternKind::Binding(name) => {
                if !str_eq(name.as_str(), "_") {
                    let l = fc.declare_local(name.as_str(), strs)?;
                    self.put(fc, Op::Move(l, sr))?;
                }
            },
            PatternKind::EnumVariant(_, _, names) | PatternKind::QualifiedEnumVariant(_, _, _, names) => {
                let mut i: usize = 0;
                while i < names.len()
                    invariant
                        i <= names@.len(),
                self.wf(),
                fc.wf(self.strings@.len() as nat),
                compiler_grows(*old(self), *self),
                fc_grows(*old(fc), *fc),
                        strs@ == self.strings@.len(),
                        sr < fc.registers,
                    decreases names.len() - i,
                {
                    if !str_eq(names[i].as_str(), "_") {
                        let l = fc.declare_local(names[i].as_str(), strs)?;
                        self.put(fc, Op::GetEnumField(l, sr, (i % 256) as u8))?;
                    }
                    i = i + 1;
                }
            },
            PatternKind::Error(name) => {
                let l = fc.declare_local(name.as_str(), strs)?;
                self.put(fc, Op::UnwrapError(l, sr))?;
            },
            _ => {},
        }
        Ok(())
    }
}

/// Compiles a checked program: its top-level `let`s become globals, and each
/// function is compiled in turn; the entry point is `main`.
pub fn compile_program(program: &TypedProgram) -> (r: Result<Program, String>)
    ensures
        !has_main(program.items@) ==> (r matches Err(m) && m@ == "entry module must define a `main` function"@),
        r matches Ok(p) ==> {
            &&& p.entry_point < p.functions@.len()
            &&& p.functions@[p.entry_point as int].name@ == "main"@
            &&& functions_fit(p.functions@, p.strings@.len() as nat)
        },
{
    let mut found = false;
    let mut i: usize = 0;
    while i < program.items.len()
        invariant
            i <= program.items@.len(),
            found ==> has_main(program.items@),
        decreases program.items.len() - i,
    {
        match &program.items[i] {
            TypedItem::Function(f) => {
                if str_eq(f.name.as_str(), "main") {
                    assert(is_main_item(program.items@[i as int]));
                    found = true;
                }
            },
            _ => {},
        }
        i = i + 1;
    }
    if !found {
        return Err("entry module must define a `main` function".to_string());
    }
    let mut c = Compiler {
        functions: Vec::new(),
        strings: Vec::new(),
        method_names: Vec::new(),
        type_ids: Vec::new(),
        type_info: clone_type_info(&program.type_info),
        globals: Vec::new(),
    };
    let mut k: usize = 0;
    while k < program.items.len()
        invariant
            k <= program.items@.len(),
            c.wf(),
            has_main(program.items@),
        decreases program.items.len() - k,
    {
        match &program.items[k] {
            TypedItem::Let(decl) => {
                c.globals.push((decl.name.clone(), decl.ty.deep_clone()));
            },
            _ => {},
        }
        k = k + 1;
    }
    let mut entry: Option<usize> = None;
    let mut j: usize = 0;
    while j < program.items.len()
        invariant
            j <= program.items@.len(),
            c.wf(),
            has_main(program.items@),
            entry matches Some(e) ==> e < c.functions@.len() && c.functions@[e as int].name@ == "main"@,
        decreases program.items.len() - j,
    {
        match &program.items[j] {
            TypedItem::Function(f) => {
                let idx = c.compile_fn(f.name.clone(), &f.params, &f.return_type, &f.body)?;
                if str_eq(f.name.as_str(), "main") {
                    entry = Some(idx);
                }
            },
            _ => {},
        }
        j = j + 1;
    }
    let e = match entry {
        Some(e) => e,
        None => {
            return Err("entry module must define a `main` function".to_string());
        },
    };
    Ok(Program {
        functions: c.functions,
        strings: c.strings,
        entry_point: e,
        type_info: c.type_info,
        method_names: c.method_names,
        type_ids: c.type_ids,
        globals: c.globals,
        method_lookup: Table::new(),
    })
}

} // verus!
