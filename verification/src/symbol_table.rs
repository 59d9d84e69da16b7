use crate::util::str_eq;
use vstd::prelude::*;

verus! {

/// What a declared name stands for.
#[derive(Default, Debug, Copy, Clone, PartialEq, Eq, Structural)]
pub enum SymType {
    #[default]
    Nil,
    Const,
    Var,
    Proc,
}

/// One row of the symbol table: kind, constant value or code address in
/// `val`, declaration level, storage offset `addr`, parameter count `size`
/// for procedures, and the declared name.
#[derive(Debug, Clone)]
pub struct TableRow {
    pub ty: SymType,
    pub val: i64,
    pub level: usize,
    pub addr: usize,
    pub size: usize,
    pub name: String,
}

/// The mathematical image of a row: the name as its character sequence.
#[verifier::ext_equal]
pub ghost struct RowV {
    pub ty: SymType,
    pub val: i64,
    pub level: usize,
    pub addr: usize,
    pub size: usize,
    pub name: Seq<char>,
}

impl View for TableRow {
    type V = RowV;

    open spec fn view(&self) -> RowV {
        RowV {
            ty: self.ty,
            val: self.val,
            level: self.level,
            addr: self.addr,
            size: self.size,
            name: self.name@,
        }
    }
}

impl TableRow {
    pub fn set_val(&mut self, val: i64)
        ensures
            final(self)@ == (RowV { val, ..old(self)@ }),
    {
        self.val = val;
    }

    pub fn set_size(&mut self, size: usize)
        ensures
            final(self)@ == (RowV { size, ..old(self)@ }),
    {
        self.size = size;
    }
}

/// Whether a row is visible under `name` from nesting depth `level`.
pub open spec fn row_matches(r: RowV, name: Seq<char>, level: int) -> bool {
    r.name == name && r.level <= level
}

/// The index of the innermost visible row for `name` at `level`: the last
/// matching row of the table, or -1 when none matches.  Rows of inner scopes
/// are always appended after those of enclosing scopes, so the last match is
/// the closest enclosing declaration.
pub open spec fn closest_idx(t: Seq<RowV>, name: Seq<char>, level: int) -> int
    decreases t.len(),
{
    if t.len() == 0 {
        -1
    } else if row_matches(t.last(), name, level) {
        t.len() - 1
    } else {
        closest_idx(t.drop_last(), name, level)
    }
}

/// What `closest_idx` returns: a valid index of the last matching row, or -1
/// when no row matches.
pub proof fn lemma_closest_idx(t: Seq<RowV>, name: Seq<char>, level: int)
    ensures
        -1 <= closest_idx(t, name, level) < t.len(),
        closest_idx(t, name, level) >= 0 ==> row_matches(
            t[closest_idx(t, name, level)],
            name,
            level,
        ),
        forall|j: int|
            closest_idx(t, name, level) < j < t.len() ==> !row_matches(t[j], name, level),
    decreases t.len(),
{
    if t.len() > 0 && !row_matches(t.last(), name, level) {
        lemma_closest_idx(t.drop_last(), name, level);
        assert forall|j: int|
            closest_idx(t, name, level) < j < t.len() implies !row_matches(
            t[j],
            name,
            level,
        ) by {
            if j < t.len() - 1 {
                assert(t.drop_last()[j] == t[j]);
            }
        }
    }
}

/// The index of the last `Proc` row, or -1 when none exists.
pub open spec fn last_proc_idx(t: Seq<RowV>) -> int
    decreases t.len(),
{
    if t.len() == 0 {
        -1
    } else if t.last().ty == SymType::Proc {
        t.len() - 1
    } else {
        last_proc_idx(t.drop_last())
    }
}

/// The flat, append-only list of declared names.  Scope resolution is a
/// reverse scan, so the innermost visible declaration is found first.
#[derive(Debug, Clone)]
#[verifier::ext_equal]
pub struct SymTable {
    pub table: Vec<TableRow>,
    pub table_ptr: usize,
}

impl View for SymTable {
    type V = Seq<RowV>;

    open spec fn view(&self) -> Seq<RowV> {
        self.table@.map_values(|r: TableRow| r@)
    }
}

impl SymTable {
    /// The row count tracked alongside the list itself.
    pub open spec fn wf(&self) -> bool {
        self.table_ptr == self.table@.len()
    }

    pub fn new() -> (r: Self)
        ensures
            r@ == Seq::<RowV>::empty(),
            r.wf(),
    {
        let r = SymTable { table: Vec::new(), table_ptr: 0 };
        proof {
            assert(r@ =~= Seq::<RowV>::empty());
        }
        r
    }

    /// The innermost visible row for `name` at `level`, if any: the last row
    /// whose name matches and whose level is at most `level`.
    pub fn try_find_closest_sym(&self, name: &str, curr_level: usize) -> (r: Option<&TableRow>)
        ensures
            ({
                let k = closest_idx(self@, name@, curr_level as int);
                match r {
                    Some(row) => k >= 0 && row@ == self@[k],
                    None => k == -1,
                }
            }),
    {
        let ghost k = closest_idx(self@, name@, curr_level as int);
        let mut i = self.table.len();
        proof {
            assert(self@.take(i as int) =~= self@);
        }
        while i > 0
            invariant
                0 <= i <= self.table@.len(),
                closest_idx(self@.take(i as int), name@, curr_level as int) == k,
            decreases i,
        {
            i = i - 1;
            let row = &self.table[i];
            proof {
                assert(self@.take(i as int + 1).last() == self@[i as int]);
                assert(self@.take(i as int + 1).drop_last() =~= self@.take(i as int));
            }
            if str_eq(row.name.as_str(), name) && row.level <= curr_level {
                return Some(row);
            }
        }
        proof {
            assert(self@.take(0) =~= Seq::<RowV>::empty());
        }
        None
    }

    /// The innermost visible row for `name`; the caller must have checked
    /// that one exists.
    pub fn find_closest_sym(&self, name: &str, curr_level: usize) -> (r: &TableRow)
        requires
            closest_idx(self@, name@, curr_level as int) >= 0,
        ensures
            r@ == self@[closest_idx(self@, name@, curr_level as int)],
    {
        let r = self.try_find_closest_sym(name, curr_level);
        match r {
            Some(row) => row,
            None => vstd::pervasive::unreached(),
        }
    }

    /// The index of the procedure row declared most recently, if any.
    pub fn get_proc_in_curr_level(&self) -> (r: Option<usize>)
        ensures
            ({
                let k = last_proc_idx(self@);
                match r {
                    Some(i) => i == k,
                    None => k == -1,
                }
            }),
    {
        let mut i = self.table.len();
        proof {
            assert(self@.take(i as int) =~= self@);
        }
        while i > 0
            invariant
                0 <= i <= self.table@.len(),
                last_proc_idx(self@.take(i as int)) == last_proc_idx(self@),
            decreases i,
        {
            i = i - 1;
            proof {
                assert(self@.take(i as int + 1).last() == self@[i as int]);
                assert(self@.take(i as int + 1).drop_last() =~= self@.take(i as int));
            }
            if matches!(self.table[i].ty, SymType::Proc) {
                return Some(i);
            }
        }
        proof {
            assert(self@.take(0) =~= Seq::<RowV>::empty());
        }
        None
    }

    /// Whether some row is visible under `name` from `level`: the
    /// "undeclared identifier" check is the negation.
    pub fn is_pre_exists(&self, name: &str, level: usize) -> (r: bool)
        ensures
            r == (closest_idx(self@, name@, level as int) >= 0),
    {
        let r = self.try_find_closest_sym(name, level);
        proof {
            lemma_closest_idx(self@, name@, level as int);
        }
        r.is_some()
    }

    /// Whether `name` is already declared at exactly `level`: the
    /// redeclaration check.
    pub fn is_now_exists(&self, name: &str, level: usize) -> (r: bool)
        ensures
            r == exists|i: int|
                0 <= i < self@.len() && (#[trigger] self@[i]).name == name@ && self@[i].level
                    == level,
    {
        let mut i: usize = 0;
        while i < self.table.len()
            invariant
                0 <= i <= self.table@.len(),
                forall|j: int|
                    0 <= j < i ==> !((#[trigger] self@[j]).name == name@ && self@[j].level
                        == level),
            decreases self.table@.len() - i,
        {
            let row = &self.table[i];
            if str_eq(row.name.as_str(), name) && row.level == level {
                proof {
                    assert(self@[i as int] == self.table@[i as int]@);
                }
                return true;
            }
            i = i + 1;
        }
        false
    }

    /// Overwrite the parameter count of the row at `i`.
    pub fn set_row_size(&mut self, i: usize, size: usize)
        requires
            i < old(self)@.len(),
        ensures
            final(self)@ == old(self)@.update(i as int, RowV { size, ..old(self)@[i as int] }),
            final(self).table_ptr == old(self).table_ptr,
            old(self).wf() ==> final(self).wf(),
    {
        let row = &self.table[i];
        let updated = TableRow {
            ty: row.ty,
            val: row.val,
            level: row.level,
            addr: row.addr,
            size,
            name: row.name.clone(),
        };
        self.table.set(i, updated);
        proof {
            assert(self@ =~= old(self)@.update(i as int, RowV { size, ..old(self)@[i as int] }));
        }
    }

    /// Overwrite the value of the row at `i`, used to patch a procedure's
    /// entry address once its code has been emitted.
    pub fn set_row_val(&mut self, i: usize, val: i64)
        requires
            i < old(self)@.len(),
        ensures
            final(self)@ == old(self)@.update(i as int, RowV { val, ..old(self)@[i as int] }),
            final(self).table_ptr == old(self).table_ptr,
            old(self).wf() ==> final(self).wf(),
    {
        let row = &self.table[i];
        let updated = TableRow {
            ty: row.ty,
            val,
            level: row.level,
            addr: row.addr,
            size: row.size,
            name: row.name.clone(),
        };
        self.table.set(i, updated);
        proof {
            assert(self@ =~= old(self)@.update(i as int, RowV { val, ..old(self)@[i as int] }));
        }
    }

    /// Append a constant row.
    pub fn load_const(&mut self, name: &str, level: usize, val: i64, addr: usize)
        requires
            old(self).wf(),
        ensures
            final(self)@ == old(self)@.push(
                RowV { ty: SymType::Const, val, level, addr, size: 0, name: name@ },
            ),
            final(self).table_ptr == old(self).table_ptr + 1,
            final(self).wf(),
    {
        let value = TableRow {
            ty: SymType::Const,
            val,
            level,
            addr,
            size: 0,
            name: name.to_owned(),
        };
        self.table.push(value);
        self.table_ptr = self.table.len();
        proof {
            assert(self@ =~= old(self)@.push(
                RowV { ty: SymType::Const, val, level, addr, size: 0, name: name@ },
            ));
        }
    }

    /// Append a variable row.
    pub fn load_var(&mut self, name: &str, level: usize, addr: usize)
        requires
            old(self).wf(),
        ensures
            final(self)@ == old(self)@.push(
                RowV { ty: SymType::Var, val: 0, level, addr, size: 0, name: name@ },
            ),
            final(self).table_ptr == old(self).table_ptr + 1,
            final(self).wf(),
    {
        let value = TableRow {
            ty: SymType::Var,
            val: 0,
            level,
            addr,
            size: 0,
            name: name.to_owned(),
        };
        self.table.push(value);
        self.table_ptr = self.table.len();
        proof {
            assert(self@ =~= old(self)@.push(
                RowV { ty: SymType::Var, val: 0, level, addr, size: 0, name: name@ },
            ));
        }
    }

    /// Append a procedure row; `val` is patched to its entry address later.
    pub fn load_proc(&mut self, name: &str, level: usize, addr: usize)
        requires
            old(self).wf(),
        ensures
            final(self)@ == old(self)@.push(
                RowV { ty: SymType::Proc, val: 0, level, addr, size: 0, name: name@ },
            ),
            final(self).table_ptr == old(self).table_ptr + 1,
            final(self).wf(),
    {
        let value = TableRow {
            ty: SymType::Proc,
            val: 0,
            level,
            addr,
            size: 0,
            name: name.to_owned(),
        };
        self.table.push(value);
        self.table_ptr = self.table.len();
        proof {
            assert(self@ =~= old(self)@.push(
                RowV { ty: SymType::Proc, val: 0, level, addr, size: 0, name: name@ },
            ));
        }
    }
}

} // verus!
