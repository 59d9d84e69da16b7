use crate::ast::{
    BlockExpr, BodyExpr, ConstDeclExpr, ConstExpr, ExpExpr, FactorExpr, IdExpr, LExpExpr,
    Location, LopExpr, MopExpr, AopExpr, ProcExpr, ProgramExpr, StatementExpr, TermExpr,
    VarDeclExpr,
};
use crate::error::{CompileError, CompileErrorType, ErrV};
use crate::pcode::{patch_a_spec, PCodeManager, Pcode, PcodeType};
use crate::symbol_table::{closest_idx, last_proc_idx, RowV, SymTable, SymType};
use crate::util::{dec_digits, dec_string};
use vstd::prelude::*;
use vstd::string::StringExecFns;

verus! {

/// The mathematical image of the translator: the emitted code, the symbol
/// rows, the collected diagnostics, and the three cursors of the single
/// pass.
#[verifier::ext_equal]
pub ghost struct TrV {
    pub code: Seq<Pcode>,
    pub syms: Seq<RowV>,
    pub errors: Seq<ErrV>,
    pub has_error: bool,
    pub level: usize,
    pub addr: usize,
    pub addr_increment: usize,
}

/// The state a fresh translator starts from.
pub open spec fn tr_init() -> TrV {
    TrV {
        code: Seq::empty(),
        syms: Seq::empty(),
        errors: Seq::empty(),
        has_error: false,
        level: 0,
        addr: 0,
        addr_increment: 1,
    }
}

/// One instruction appended.
pub open spec fn tr_gen(s: TrV, f: PcodeType, l: usize, a: i64) -> TrV {
    TrV { code: s.code.push(Pcode { f, l, a }), ..s }
}

/// The operand of the instruction at `i` patched.
pub open spec fn tr_patch(s: TrV, i: usize, a: i64) -> TrV {
    TrV { code: patch_a_spec(s.code, i, a), ..s }
}

/// A semantic diagnostic recorded at a source position; translation goes
/// on, only the error flag is raised.
pub open spec fn tr_err_at(s: TrV, loc: Location, info: Seq<char>) -> TrV {
    TrV {
        errors: s.errors.push(
            ErrV { line: loc.0, col: loc.1, info, error_type: CompileErrorType::SemanticError },
        ),
        has_error: true,
        ..s
    }
}

/// Whether `name` is already declared at exactly `level`.
pub open spec fn is_now(t: Seq<RowV>, name: Seq<char>, level: usize) -> bool {
    exists|i: int| 0 <= i < t.len() && (#[trigger] t[i]).name == name && t[i].level == level
}

pub open spec fn msg_redefined(n: Seq<char>) -> Seq<char> {
    "`"@ + n + "` is defined before"@
}

pub open spec fn msg_undefined(n: Seq<char>) -> Seq<char> {
    "`"@ + n + "` is undefined"@
}

pub open spec fn msg_not_var(n: Seq<char>) -> Seq<char> {
    "`"@ + n + "` is not a variable"@
}

pub open spec fn msg_not_proc(n: Seq<char>) -> Seq<char> {
    "`"@ + n + "` is not a procedure"@
}

pub open spec fn msg_nil_value(n: Seq<char>) -> Seq<char> {
    "`"@ + n + "` has an non-r-value type `nil` (only `var` or `const` appears after `:=`)"@
}

pub open spec fn msg_proc_value(n: Seq<char>) -> Seq<char> {
    "`"@ + n + "` has an non-r-value type `procedure` (only `var` or `const` appears after `:=`)"@
}

pub open spec fn msg_arity(n: Seq<char>, expected: usize, got: usize) -> Seq<char> {
    "`"@ + n + "` expects "@ + dec_digits(expected as nat) + " args, but received "@ + dec_digits(
        got as nat,
    )
}

/// Natural subtraction.
pub open spec fn nat_sub(a: nat, b: nat) -> nat {
    if a >= b {
        (a - b) as nat
    } else {
        0
    }
}

/// The `OPR` sub-operation that a relational operator compiles to.
pub open spec fn lop_code(l: LopExpr) -> i64 {
    match l {
        LopExpr::Eq(_) => 8,
        LopExpr::Ne(_) => 9,
        LopExpr::Lt(_) => 10,
        LopExpr::Ge(_) => 11,
        LopExpr::Gt(_) => 12,
        LopExpr::Le(_) => 13,
    }
}

/// A factor: a literal load for an integer or a constant, a level-relative
/// load for a variable, a diagnostic for anything else.
pub open spec fn tr_factor(s: TrV, e: FactorExpr) -> TrV
    decreases e, 0nat,
{
    match e {
        FactorExpr::Integer(ie) => tr_gen(s, PcodeType::LIT, 0, (*ie).0),
        FactorExpr::Exp(e2) => tr_exp(s, *e2),
        FactorExpr::Id(id) => {
            let name = (*id).0@;
            let k = closest_idx(s.syms, name, s.level as int);
            if k >= 0 {
                let sym = s.syms[k];
                if sym.ty == SymType::Nil {
                    tr_err_at(s, (*id).1, msg_nil_value(name))
                } else if sym.ty == SymType::Const {
                    tr_gen(s, PcodeType::LIT, 0, sym.val)
                } else if sym.ty == SymType::Var {
                    tr_gen(
                        s,
                        PcodeType::LOD,
                        s.level.saturating_sub(sym.level),
                        sym.addr as i64,
                    )
                } else {
                    tr_err_at(s, (*id).1, msg_proc_value(name))
                }
            } else {
                tr_err_at(s, (*id).1, msg_undefined(name))
            }
        },
    }
}

/// A term: its first factor, then one multiplicative operation per pair.
pub open spec fn tr_term(s: TrV, e: TermExpr) -> TrV
    decreases e, 0nat,
{
    tr_mops(tr_factor(s, *e.factor), e.mop_factors@, 0)
}

pub open spec fn tr_mops(s: TrV, l: Seq<(Box<MopExpr>, Box<FactorExpr>)>, i: nat) -> TrV
    decreases l, l.len() - i,
{
    if i >= l.len() {
        s
    } else {
        let s1 = tr_factor(s, *l[i as int].1);
        let s2 = match *l[i as int].0 {
            MopExpr::Mul(_) => tr_gen(s1, PcodeType::OPR, 0, 4),
            MopExpr::Div(_) => tr_gen(s1, PcodeType::OPR, 0, 5),
        };
        tr_mops(s2, l, i + 1)
    }
}

/// An expression: its first term, a negation when it carries a leading
/// minus, then one additive operation per pair.
pub open spec fn tr_exp(s: TrV, e: ExpExpr) -> TrV
    decreases e, 0nat,
{
    let s1 = tr_term(s, *e.term);
    let s2 = if e.is_negative {
        tr_gen(s1, PcodeType::OPR, 0, 1)
    } else {
        s1
    };
    tr_aops(s2, e.aop_terms@, 0)
}

pub open spec fn tr_aops(s: TrV, l: Seq<(Box<AopExpr>, Box<TermExpr>)>, i: nat) -> TrV
    decreases l, l.len() - i,
{
    if i >= l.len() {
        s
    } else {
        let s1 = tr_term(s, *l[i as int].1);
        let s2 = match *l[i as int].0 {
            AopExpr::Add(_) => tr_gen(s1, PcodeType::OPR, 0, 2),
            AopExpr::Sub(_) => tr_gen(s1, PcodeType::OPR, 0, 3),
        };
        tr_aops(s2, l, i + 1)
    }
}

/// A condition: both operands then the comparison, or the operand then the
/// parity test.
pub open spec fn tr_l_exp(s: TrV, e: LExpExpr) -> TrV
    decreases e, 0nat,
{
    match e {
        LExpExpr::Exp { l_exp, lop, r_exp } => {
            let s1 = tr_exp(s, *l_exp);
            let s2 = tr_exp(s1, *r_exp);
            tr_gen(s2, PcodeType::OPR, 0, lop_code(*lop))
        },
        LExpExpr::Odd { exp } => tr_gen(tr_exp(s, *exp), PcodeType::OPR, 0, 6),
    }
}

/// One statement.  Every failed check records a diagnostic and gives the
/// rest of the statement up; code is emitted only on the checked paths.
pub open spec fn tr_statement(s: TrV, e: StatementExpr) -> TrV
    decreases e, 0nat,
{
    match e {
        StatementExpr::Id { id, exp } => {
            let name = (*id).0@;
            let k = closest_idx(s.syms, name, s.level as int);
            if k < 0 {
                tr_err_at(s, (*id).1, msg_undefined(name))
            } else {
                let sym = s.syms[k];
                if sym.ty != SymType::Var {
                    tr_err_at(s, (*id).1, msg_not_var(name))
                } else {
                    let s1 = tr_exp(s, *exp);
                    tr_gen(
                        s1,
                        PcodeType::STO,
                        s1.level.saturating_sub(sym.level),
                        sym.addr as i64,
                    )
                }
            }
        },
        StatementExpr::If { l_exp, then_statement, else_statement } => {
            let s1 = tr_l_exp(s, *l_exp);
            let pos1 = s1.code.len() as usize;
            let s2 = tr_gen(s1, PcodeType::JPC, 0, 0);
            let s3 = tr_statement(s2, *then_statement);
            let pos2 = s3.code.len() as usize;
            let s4 = tr_gen(s3, PcodeType::JMP, 0, 0);
            let fixed = s4.code.len() as i64;
            let s5 = tr_patch(tr_patch(s4, pos1, fixed), pos2, fixed);
            match else_statement {
                Some(es) => {
                    let s6 = tr_statement(s5, *es);
                    tr_patch(s6, pos2, s6.code.len() as i64)
                },
                None => s5,
            }
        },
        StatementExpr::While { l_exp, statement } => {
            let pos1 = s.code.len() as usize;
            let s1 = tr_l_exp(s, *l_exp);
            let pos2 = s1.code.len() as usize;
            let s2 = tr_gen(s1, PcodeType::JPC, 0, 0);
            let s3 = tr_statement(s2, *statement);
            let s4 = tr_gen(s3, PcodeType::JMP, 0, pos1 as i64);
            tr_patch(s4, pos2, s4.code.len() as i64)
        },
        StatementExpr::Call { id, args } => {
            let name = (*id).0@;
            let k = closest_idx(s.syms, name, s.level as int);
            if k < 0 {
                tr_err_at(s, (*id).1, msg_undefined(name))
            } else {
                let sym = s.syms[k];
                if sym.ty != SymType::Proc {
                    tr_err_at(s, (*id).1, msg_not_proc(name))
                } else if sym.size != args@.len() {
                    tr_err_at(s, (*id).1, msg_arity(name, sym.size, args@.len() as usize))
                } else {
                    let s1 = tr_exps(s, args@, 0);
                    tr_gen(s1, PcodeType::CAL, s1.level.saturating_sub(sym.level), sym.val)
                }
            }
        },
        StatementExpr::Body { body } => tr_body(s, *body),
        StatementExpr::Read { id_list } => tr_reads(s, id_list@, 0),
        StatementExpr::Write { exps } => tr_gen(tr_writes(s, exps@, 0), PcodeType::OPR, 0, 15),
    }
}

pub open spec fn tr_exps(s: TrV, l: Seq<Box<ExpExpr>>, i: nat) -> TrV
    decreases l, l.len() - i,
{
    if i >= l.len() {
        s
    } else {
        tr_exps(tr_exp(s, *l[i as int]), l, i + 1)
    }
}

/// The targets of one `read` statement: a read and a store per name; a bad
/// name stops the whole statement.
pub open spec fn tr_reads(s: TrV, l: Seq<Box<IdExpr>>, i: nat) -> TrV
    decreases l.len() - i,
{
    if i >= l.len() {
        s
    } else {
        let id = *l[i as int];
        let name = id.0@;
        let k = closest_idx(s.syms, name, s.level as int);
        if k < 0 {
            tr_err_at(s, id.1, msg_undefined(name))
        } else {
            let sym = s.syms[k];
            if sym.ty != SymType::Var {
                tr_err_at(s, id.1, msg_not_var(name))
            } else {
                let s1 = tr_gen(s, PcodeType::OPR, 0, 16);
                let s2 = tr_gen(
                    s1,
                    PcodeType::STO,
                    s1.level.saturating_sub(sym.level),
                    sym.addr as i64,
                );
                tr_reads(s2, l, i + 1)
            }
        }
    }
}

/// The arguments of one `write` statement: each value then a print.
pub open spec fn tr_writes(s: TrV, l: Seq<Box<ExpExpr>>, i: nat) -> TrV
    decreases l, l.len() - i,
{
    if i >= l.len() {
        s
    } else {
        tr_writes(tr_gen(tr_exp(s, *l[i as int]), PcodeType::OPR, 0, 14), l, i + 1)
    }
}

/// A statement list, in order.
pub open spec fn tr_body(s: TrV, e: BodyExpr) -> TrV
    decreases e, 0nat,
{
    tr_stmts(s, e.statements@, 0)
}

pub open spec fn tr_stmts(s: TrV, l: Seq<Box<StatementExpr>>, i: nat) -> TrV
    decreases l, l.len() - i,
{
    if i >= l.len() {
        s
    } else {
        tr_stmts(tr_statement(s, *l[i as int]), l, i + 1)
    }
}

/// Constant declarations: each one checked against redeclaration at the
/// current level, then recorded with its value; a duplicate is reported and
/// the rest go on.
pub open spec fn tr_my_const(s: TrV, l: Seq<Box<ConstExpr>>, i: nat) -> TrV
    decreases l.len() - i,
{
    if i >= l.len() {
        s
    } else {
        let c = *l[i as int];
        let name = (*c.id).0@;
        let s1 = if is_now(s.syms, name, s.level) {
            tr_err_at(s, (*c.id).1, msg_redefined(name))
        } else {
            TrV {
                syms: s.syms.push(
                    RowV {
                        ty: SymType::Const,
                        val: (*c.integer).0,
                        level: s.level,
                        addr: s.addr,
                        size: 0,
                        name,
                    },
                ),
                ..s
            }
        };
        tr_my_const(s1, l, i + 1)
    }
}

/// Variable declarations: each name checked against redeclaration, then
/// recorded at the next free offset of the current frame.
pub open spec fn tr_var_decl(s: TrV, l: Seq<Box<IdExpr>>, i: nat) -> TrV
    decreases l.len() - i,
{
    if i >= l.len() {
        s
    } else {
        let id = *l[i as int];
        let name = id.0@;
        let s1 = if is_now(s.syms, name, s.level) {
            tr_err_at(s, id.1, msg_redefined(name))
        } else {
            TrV {
                syms: s.syms.push(
                    RowV {
                        ty: SymType::Var,
                        val: 0,
                        level: s.level,
                        addr: s.addr,
                        size: 0,
                        name,
                    },
                ),
                addr: s.addr.saturating_add(s.addr_increment),
                ..s
            }
        };
        tr_var_decl(s1, l, i + 1)
    }
}

/// The formal parameters of a procedure: each becomes a variable row at
/// header offset 3 + index, and the procedure row's size counts them.
pub open spec fn tr_args(s: TrV, l: Seq<Box<IdExpr>>, i: nat, proc_pos: int) -> TrV
    decreases l.len() - i,
{
    if i >= l.len() {
        s
    } else {
        let id = *l[i as int];
        let s1 = TrV {
            syms: s.syms.push(
                RowV {
                    ty: SymType::Var,
                    val: 0,
                    level: s.level,
                    addr: (i as usize).saturating_add(3),
                    size: 0,
                    name: id.0@,
                },
            ),
            ..s
        };
        let s2 = if 0 <= proc_pos < s1.syms.len() {
            TrV {
                syms: s1.syms.update(
                    proc_pos,
                    RowV { size: (i + 1) as usize, ..s1.syms[proc_pos] },
                ),
                ..s1
            }
        } else {
            s1
        };
        tr_args(s2, l, i + 1, proc_pos)
    }
}

/// A procedure declaration: the redeclaration check, its row, its
/// parameters, its block one level deeper, then its sibling procedures back
/// at its own level.
pub open spec fn tr_procedure(s: TrV, e: ProcExpr) -> TrV
    decreases e, 0nat,
{
    let name = (*e.id).0@;
    if is_now(s.syms, name, s.level) {
        tr_err_at(s, (*e.id).1, msg_redefined(name))
    } else {
        let proc_pos = s.syms.len() as int;
        let s1 = TrV {
            syms: s.syms.push(
                RowV { ty: SymType::Proc, val: 0, level: s.level, addr: s.addr, size: 0, name },
            ),
            addr: s.addr.saturating_add(s.addr_increment),
            level: s.level.saturating_add(1),
            ..s
        };
        let s2 = tr_args(s1, e.args@, 0, proc_pos);
        let s3 = tr_block(s2, *e.block);
        tr_procs(s3, e.procs@, 0)
    }
}

pub open spec fn tr_procs(s: TrV, l: Seq<Box<ProcExpr>>, i: nat) -> TrV
    decreases l, l.len() - i,
{
    if i >= l.len() {
        s
    } else {
        let s1 = tr_procedure(TrV { level: s.level.saturating_sub(1), ..s }, *l[i as int]);
        tr_procs(s1, l, i + 1)
    }
}

/// The argument-copying prologue of a procedure: one `STA` per parameter,
/// moving the actuals, already on the stack below the new frame, into the
/// parameter slots.
pub open spec fn tr_stas(s: TrV, size: usize, i: nat) -> TrV
    decreases size + 1 - i,
{
    if i > size {
        s
    } else {
        tr_stas(
            tr_gen(s, PcodeType::STA, i as usize, ((size - i) as usize).saturating_add(3) as i64),
            size,
            i + 1,
        )
    }
}

/// A block: a placeholder jump over nested procedure code, the
/// declarations, the argument prologue, the patched jump, the frame
/// allocation, the body, and the return.  The frame cursor is restored for
/// the enclosing block.
pub open spec fn tr_block(s: TrV, e: BlockExpr) -> TrV
    decreases e, 0nat,
{
    let old_addr = s.addr;
    let start = s.syms.len();
    let pos0 = last_proc_idx(s.syms);
    let pos = if pos0 >= 0 {
        pos0
    } else {
        0
    };
    let psize = if start != 0 && 0 <= pos < s.syms.len() {
        s.syms[pos].size
    } else {
        0
    };
    let s1 = TrV {
        addr: (3usize).saturating_add(
            if start != 0 {
                psize
            } else {
                0
            },
        ),
        ..s
    };
    let tmp_ptr = s1.code.len() as usize;
    let s2 = tr_gen(s1, PcodeType::JMP, 0, 0);
    let s3 = match e.const_decl {
        Some(cd) => tr_my_const(s2, (*cd).constants@, 0),
        None => s2,
    };
    let s4 = match e.var_decl {
        Some(vd) => tr_var_decl(s3, (*vd).id_list@, 0),
        None => s3,
    };
    let s5 = match e.proc {
        Some(p) => {
            let t = tr_procedure(s4, *p);
            TrV { level: t.level.saturating_sub(1), ..t }
        },
        None => s4,
    };
    let psize2 = if start != 0 && 0 <= pos < s5.syms.len() {
        s5.syms[pos].size
    } else {
        0
    };
    let s6 = if start != 0 {
        tr_stas(s5, psize2, 1)
    } else {
        s5
    };
    let s7 = tr_patch(s6, tmp_ptr, s6.code.len() as i64);
    let s8 = tr_gen(s7, PcodeType::INT, 0, s7.addr as i64);
    let s9 = if start != 0 && 0 <= pos < s8.syms.len() {
        let val = nat_sub(nat_sub(s8.code.len(), 1), s8.syms[pos].size as nat);
        TrV { syms: s8.syms.update(pos, RowV { val: val as i64, ..s8.syms[pos] }), ..s8 }
    } else {
        s8
    };
    let s10 = tr_body(s9, *e.body);
    let s11 = tr_gen(s10, PcodeType::OPR, 0, 0);
    TrV { addr: old_addr, ..s11 }
}

/// A program is its outermost block.
pub open spec fn tr_program(s: TrV, e: ProgramExpr) -> TrV
    decreases e,
{
    tr_block(s, *e.block)
}

/// The single-pass code generator: it walks the AST once, resolves every
/// identifier through the symbol table, performs all semantic checks, and
/// emits the p-code list.  Diagnostics are collected in `errors`;
/// translation continues past each error so one run reports them all.
#[derive(Debug)]
#[verifier::ext_equal]
pub struct Translator {
    pub pcode: PCodeManager,
    pub sym_table: SymTable,
    pub errors: Vec<CompileError>,
    pub has_error: bool,
    pub level: usize,
    pub addr: usize,
    pub addr_increment: usize,
}

impl View for Translator {
    type V = TrV;

    open spec fn view(&self) -> TrV {
        TrV {
            code: self.pcode.pcode_list@,
            syms: self.sym_table@,
            errors: self.errors@.map_values(|e: CompileError| e@),
            has_error: self.has_error,
            level: self.level,
            addr: self.addr,
            addr_increment: self.addr_increment,
        }
    }
}

impl Default for Translator {
    fn default() -> (r: Self)
        ensures
            r@ == tr_init(),
            r.wf(),
    {
        let r = Translator {
            pcode: PCodeManager::new(),
            sym_table: SymTable::new(),
            errors: Vec::new(),
            has_error: false,
            level: 0,
            addr: 0,
            addr_increment: 1,
        };
        proof {
            assert(r@.errors =~= Seq::<ErrV>::empty());
            assert(r@ =~= tr_init());
        }
        r
    }
}

/// The text `\u{60}<name><suffix>`, for the diagnostics that quote a name.
fn msg_wrap(name: &str, suffix: &str) -> (r: String)
    ensures
        r@ == "`"@ + name@ + suffix@,
{
    let mut s = "`".to_owned();
    s.append(name);
    s.append(suffix);
    s
}

/// The arity-mismatch diagnostic text.
fn msg_arity_exec(name: &str, expected: usize, got: usize) -> (r: String)
    ensures
        r@ == msg_arity(name@, expected, got),
{
    let mut s = "`".to_owned();
    s.append(name);
    s.append("` expects ");
    s.append(dec_string(expected as u64).as_str());
    s.append(" args, but received ");
    s.append(dec_string(got as u64).as_str());
    s
}

impl Translator {
    /// The symbol table's row count stays in step with its list.
    pub open spec fn wf(&self) -> bool {
        self.sym_table.wf()
    }

    /// Record one semantic diagnostic and raise the error flag.
    fn sem_err(&mut self, loc: Location, info: String)
        requires
            old(self).wf(),
        ensures
            final(self).wf(),
            final(self)@ == tr_err_at(old(self)@, loc, info@),
    {
        let ghost info_v = info@;
        self.errors.push(
            CompileError {
                line: loc.0,
                col: loc.1,
                info,
                error_type: CompileErrorType::SemanticError,
            },
        );
        self.has_error = true;
        proof {
            assert(self@.errors =~= old(self)@.errors.push(
                ErrV {
                    line: loc.0,
                    col: loc.1,
                    info: info_v,
                    error_type: CompileErrorType::SemanticError,
                },
            ));
            assert(self@ =~= tr_err_at(old(self)@, loc, info_v));
        }
    }

    fn factor(&mut self, expr: &FactorExpr)
        requires
            old(self).wf(),
        ensures
            final(self).wf(),
            final(self)@ == tr_factor(old(self)@, *expr),
        decreases *expr, 0nat,
    {
        match expr {
            FactorExpr::Integer(ie) => {
                self.pcode.gen(PcodeType::LIT, 0, ie.0);
            },
            FactorExpr::Exp(e2) => {
                self.exp(&**e2);
            },
            FactorExpr::Id(id) => {
                let loc = id.1;
                if self.sym_table.is_pre_exists(id.0.as_str(), self.level) {
                    let (ty, val, slevel, saddr) = {
                        let sym = self.sym_table.find_closest_sym(id.0.as_str(), self.level);
                        (sym.ty, sym.val, sym.level, sym.addr)
                    };
                    match ty {
                        SymType::Nil => {
                            let m = msg_wrap(
                                id.0.as_str(),
                                "` has an non-r-value type `nil` (only `var` or `const` appears after `:=`)",
                            );
                            self.sem_err(loc, m);
                        },
                        SymType::Const => {
                            self.pcode.gen(PcodeType::LIT, 0, val);
                        },
                        SymType::Var => {
                            let ld = self.level.saturating_sub(slevel);
                            self.pcode.gen(
                                PcodeType::LOD,
                                ld,
                                #[verifier::truncate] (saddr as i64),
                            );
                        },
                        SymType::Proc => {
                            let m = msg_wrap(
                                id.0.as_str(),
                                "` has an non-r-value type `procedure` (only `var` or `const` appears after `:=`)",
                            );
                            self.sem_err(loc, m);
                        },
                    }
                } else {
                    let m = msg_wrap(id.0.as_str(), "` is undefined");
                    self.sem_err(loc, m);
                }
            },
        }
    }

    fn term(&mut self, expr: &TermExpr)
        requires
            old(self).wf(),
        ensures
            final(self).wf(),
            final(self)@ == tr_term(old(self)@, *expr),
        decreases *expr, 0nat,
    {
        self.factor(&*expr.factor);
        let ghost s0 = self@;
        let n = expr.mop_factors.len();
        let mut i: usize = 0;
        while i < n
            invariant
                0 <= i <= n,
                self.wf(),
                tr_mops(s0, expr.mop_factors@, 0) == tr_mops(self@, expr.mop_factors@, i as nat),
            decreases n - i,
        {
            let pair = &expr.mop_factors[i];
            self.factor(&*pair.1);
            match &*pair.0 {
                MopExpr::Mul(_) => self.pcode.gen(PcodeType::OPR, 0, 4),
                MopExpr::Div(_) => self.pcode.gen(PcodeType::OPR, 0, 5),
            }
            i = i + 1;
        }
    }

    fn exp(&mut self, expr: &ExpExpr)
        requires
            old(self).wf(),
        ensures
            final(self).wf(),
            final(self)@ == tr_exp(old(self)@, *expr),
        decreases *expr, 0nat,
    {
        self.term(&*expr.term);
        if expr.is_negative {
            self.pcode.gen(PcodeType::OPR, 0, 1);
        }
        let ghost s0 = self@;
        let n = expr.aop_terms.len();
        let mut i: usize = 0;
        while i < n
            invariant
                0 <= i <= n,
                self.wf(),
                tr_aops(s0, expr.aop_terms@, 0) == tr_aops(self@, expr.aop_terms@, i as nat),
            decreases n - i,
        {
            let pair = &expr.aop_terms[i];
            self.term(&*pair.1);
            match &*pair.0 {
                AopExpr::Add(_) => self.pcode.gen(PcodeType::OPR, 0, 2),
                AopExpr::Sub(_) => self.pcode.gen(PcodeType::OPR, 0, 3),
            }
            i = i + 1;
        }
    }

    fn l_exp(&mut self, expr: &LExpExpr)
        requires
            old(self).wf(),
        ensures
            final(self).wf(),
            final(self)@ == tr_l_exp(old(self)@, *expr),
        decreases *expr, 0nat,
    {
        match expr {
            LExpExpr::Exp { l_exp, lop, r_exp } => {
                self.exp(&**l_exp);
                self.exp(&**r_exp);
                let code: i64 = match &**lop {
                    LopExpr::Eq(_) => 8,
                    LopExpr::Ne(_) => 9,
                    LopExpr::Lt(_) => 10,
                    LopExpr::Ge(_) => 11,
                    LopExpr::Gt(_) => 12,
                    LopExpr::Le(_) => 13,
                };
                self.pcode.gen(PcodeType::OPR, 0, code);
            },
            LExpExpr::Odd { exp } => {
                self.exp(&**exp);
                self.pcode.gen(PcodeType::OPR, 0, 6);
            },
        }
    }

    #[verifier::rlimit(100)]
    fn statement(&mut self, expr: &StatementExpr)
        requires
            old(self).wf(),
        ensures
            final(self).wf(),
            final(self)@ == tr_statement(old(self)@, *expr),
        decreases *expr, 0nat,
    {
        match expr {
            StatementExpr::Id { id, exp } => {
                let loc = id.1;
                if !self.sym_table.is_pre_exists(id.0.as_str(), self.level) {
                    let m = msg_wrap(id.0.as_str(), "` is undefined");
                    self.sem_err(loc, m);
                    return;
                }
                let (ty, slevel, saddr) = {
                    let sym = self.sym_table.find_closest_sym(id.0.as_str(), self.level);
                    (sym.ty, sym.level, sym.addr)
                };
                if !matches!(ty, SymType::Var) {
                    let m = msg_wrap(id.0.as_str(), "` is not a variable");
                    self.sem_err(loc, m);
                    return;
                }
                self.exp(&**exp);
                let ld = self.level.saturating_sub(slevel);
                self.pcode.gen(PcodeType::STO, ld, #[verifier::truncate] (saddr as i64));
            },
            StatementExpr::If { l_exp, then_statement, else_statement } => {
                self.l_exp(&**l_exp);
                let pos1 = self.pcode.get_pcode_ptr();
                self.pcode.gen(PcodeType::JPC, 0, 0);
                self.statement(&**then_statement);
                let pos2 = self.pcode.get_pcode_ptr();
                self.pcode.gen(PcodeType::JMP, 0, 0);
                let fixed = #[verifier::truncate] (self.pcode.get_pcode_ptr() as i64);
                self.pcode.patch_a(pos1, fixed);
                self.pcode.patch_a(pos2, fixed);
                if let Some(es) = else_statement {
                    self.statement(&**es);
                    let fixed2 = #[verifier::truncate] (self.pcode.get_pcode_ptr() as i64);
                    self.pcode.patch_a(pos2, fixed2);
                }
            },
            StatementExpr::While { l_exp, statement } => {
                let pos1 = self.pcode.get_pcode_ptr();
                self.l_exp(&**l_exp);
                let pos2 = self.pcode.get_pcode_ptr();
                self.pcode.gen(PcodeType::JPC, 0, 0);
                self.statement(&**statement);
                self.pcode.gen(PcodeType::JMP, 0, #[verifier::truncate] (pos1 as i64));
                let fixed = #[verifier::truncate] (self.pcode.get_pcode_ptr() as i64);
                self.pcode.patch_a(pos2, fixed);
            },
            StatementExpr::Call { id, args } => {
                let loc = id.1;
                if !self.sym_table.is_pre_exists(id.0.as_str(), self.level) {
                    let m = msg_wrap(id.0.as_str(), "` is undefined");
                    self.sem_err(loc, m);
                    return;
                }
                let (ty, sval, slevel, ssize) = {
                    let sym = self.sym_table.find_closest_sym(id.0.as_str(), self.level);
                    (sym.ty, sym.val, sym.level, sym.size)
                };
                if !matches!(ty, SymType::Proc) {
                    let m = msg_wrap(id.0.as_str(), "` is not a procedure");
                    self.sem_err(loc, m);
                    return;
                }
                if ssize != args.len() {
                    let m = msg_arity_exec(id.0.as_str(), ssize, args.len());
                    self.sem_err(loc, m);
                    return;
                }
                let ghost s0 = self@;
                let n = args.len();
                let mut i: usize = 0;
                while i < n
                    invariant
                        0 <= i <= n,
                        self.wf(),
                        tr_exps(s0, args@, 0) == tr_exps(self@, args@, i as nat),
                    decreases n - i,
                {
                    self.exp(&*args[i]);
                    i = i + 1;
                }
                let ld = self.level.saturating_sub(slevel);
                self.pcode.gen(PcodeType::CAL, ld, sval);
            },
            StatementExpr::Body { body } => {
                self.body(&**body);
            },
            StatementExpr::Read { id_list } => {
                let ghost s0 = self@;
                let n = id_list.len();
                let mut i: usize = 0;
                while i < n
                    invariant
                        0 <= i <= n,
                        self.wf(),
                        tr_reads(s0, id_list@, 0) == tr_reads(self@, id_list@, i as nat),
                    decreases n - i,
                {
                    let id = &id_list[i];
                    let loc = id.1;
                    if !self.sym_table.is_pre_exists(id.0.as_str(), self.level) {
                        let m = msg_wrap(id.0.as_str(), "` is undefined");
                        self.sem_err(loc, m);
                        return;
                    }
                    let (ty, slevel, saddr) = {
                        let sym = self.sym_table.find_closest_sym(id.0.as_str(), self.level);
                        (sym.ty, sym.level, sym.addr)
                    };
                    if !matches!(ty, SymType::Var) {
                        let m = msg_wrap(id.0.as_str(), "` is not a variable");
                        self.sem_err(loc, m);
                        return;
                    }
                    self.pcode.gen(PcodeType::OPR, 0, 16);
                    let ld = self.level.saturating_sub(slevel);
                    self.pcode.gen(PcodeType::STO, ld, #[verifier::truncate] (saddr as i64));
                    i = i + 1;
                }
            },
            StatementExpr::Write { exps } => {
                let ghost s0 = self@;
                let n = exps.len();
                let mut i: usize = 0;
                while i < n
                    invariant
                        0 <= i <= n,
                        self.wf(),
                        tr_writes(s0, exps@, 0) == tr_writes(self@, exps@, i as nat),
                    decreases n - i,
                {
                    self.exp(&*exps[i]);
                    self.pcode.gen(PcodeType::OPR, 0, 14);
                    i = i + 1;
                }
                self.pcode.gen(PcodeType::OPR, 0, 15);
            },
        }
    }

    fn body(&mut self, expr: &BodyExpr)
        requires
            old(self).wf(),
        ensures
            final(self).wf(),
            final(self)@ == tr_body(old(self)@, *expr),
        decreases *expr, 0nat,
    {
        let ghost s0 = self@;
        let n = expr.statements.len();
        let mut i: usize = 0;
        while i < n
            invariant
                0 <= i <= n,
                self.wf(),
                tr_stmts(s0, expr.statements@, 0) == tr_stmts(self@, expr.statements@, i as nat),
            decreases n - i,
        {
            self.statement(&*expr.statements[i]);
            i = i + 1;
        }
    }

    fn const_decl(&mut self, expr: &ConstDeclExpr)
        requires
            old(self).wf(),
        ensures
            final(self).wf(),
            final(self)@ == tr_my_const(old(self)@, expr.constants@, 0),
    {
        self.my_const(&expr.constants);
    }

    fn my_const(&mut self, constants: &Vec<Box<ConstExpr>>)
        requires
            old(self).wf(),
        ensures
            final(self).wf(),
            final(self)@ == tr_my_const(old(self)@, constants@, 0),
    {
        let ghost s0 = self@;
        let n = constants.len();
        let mut i: usize = 0;
        while i < n
            invariant
                0 <= i <= n,
                self.wf(),
                tr_my_const(s0, constants@, 0) == tr_my_const(self@, constants@, i as nat),
            decreases n - i,
        {
            let c = &constants[i];
            let loc = c.id.1;
            if self.sym_table.is_now_exists(c.id.0.as_str(), self.level) {
                let m = msg_wrap(c.id.0.as_str(), "` is defined before");
                self.sem_err(loc, m);
            } else {
                self.sym_table.load_const(c.id.0.as_str(), self.level, c.integer.0, self.addr);
            }
            i = i + 1;
        }
    }

    fn var_decl(&mut self, expr: &VarDeclExpr)
        requires
            old(self).wf(),
        ensures
            final(self).wf(),
            final(self)@ == tr_var_decl(old(self)@, expr.id_list@, 0),
    {
        let ghost s0 = self@;
        let n = expr.id_list.len();
        let mut i: usize = 0;
        while i < n
            invariant
                0 <= i <= n,
                self.wf(),
                tr_var_decl(s0, expr.id_list@, 0) == tr_var_decl(self@, expr.id_list@, i as nat),
            decreases n - i,
        {
            let id = &expr.id_list[i];
            let loc = id.1;
            if self.sym_table.is_now_exists(id.0.as_str(), self.level) {
                let m = msg_wrap(id.0.as_str(), "` is defined before");
                self.sem_err(loc, m);
            } else {
                self.sym_table.load_var(id.0.as_str(), self.level, self.addr);
                self.addr = self.addr.saturating_add(self.addr_increment);
            }
            i = i + 1;
        }
    }

    fn procedure(&mut self, expr: &ProcExpr)
        requires
            old(self).wf(),
        ensures
            final(self).wf(),
            final(self)@ == tr_procedure(old(self)@, *expr),
        decreases *expr, 0nat,
    {
        let loc = expr.id.1;
        if self.sym_table.is_now_exists(expr.id.0.as_str(), self.level) {
            let m = msg_wrap(expr.id.0.as_str(), "` is defined before");
            self.sem_err(loc, m);
            return;
        }
        let proc_pos = self.sym_table.table_ptr;
        self.sym_table.load_proc(expr.id.0.as_str(), self.level, self.addr);
        self.addr = self.addr.saturating_add(self.addr_increment);
        self.level = self.level.saturating_add(1);
        let ghost s1 = self@;
        let n = expr.args.len();
        let mut k: usize = 0;
        while k < n
            invariant
                0 <= k <= n,
                self.wf(),
                tr_args(s1, expr.args@, 0, proc_pos as int) == tr_args(
                    self@,
                    expr.args@,
                    k as nat,
                    proc_pos as int,
                ),
            decreases n - k,
        {
            let arg = &expr.args[k];
            self.sym_table.load_var(arg.0.as_str(), self.level, k.saturating_add(3));
            if proc_pos < self.sym_table.table.len() {
                self.sym_table.set_row_size(proc_pos, k + 1);
            }
            k = k + 1;
        }
        self.block(&*expr.block);
        let ghost s3 = self@;
        let np = expr.procs.len();
        let mut j: usize = 0;
        while j < np
            invariant
                0 <= j <= np,
                self.wf(),
                tr_procs(s3, expr.procs@, 0) == tr_procs(self@, expr.procs@, j as nat),
            decreases np - j,
        {
            self.level = self.level.saturating_sub(1);
            self.procedure(&*expr.procs[j]);
            j = j + 1;
        }
    }

    #[verifier::rlimit(100)]
    fn block(&mut self, expr: &BlockExpr)
        requires
            old(self).wf(),
        ensures
            final(self).wf(),
            final(self)@ == tr_block(old(self)@, *expr),
        decreases *expr, 0nat,
    {
        let old_addr = self.addr;
        let start = self.sym_table.table_ptr;
        let mut pos: usize = 0;
        self.addr = 3;
        if start != 0 {
            pos = match self.sym_table.get_proc_in_curr_level() {
                Some(p) => p,
                None => 0,
            };
            let psize = if pos < self.sym_table.table.len() {
                self.sym_table.table[pos].size
            } else {
                0
            };
            self.addr = self.addr.saturating_add(psize);
        }
        let tmp_ptr = self.pcode.get_pcode_ptr();
        self.pcode.gen(PcodeType::JMP, 0, 0);
        if let Some(cd) = &expr.const_decl {
            self.const_decl(&**cd);
        }
        if let Some(vd) = &expr.var_decl {
            self.var_decl(&**vd);
        }
        if let Some(p) = &expr.proc {
            self.procedure(&**p);
            self.level = self.level.saturating_sub(1);
        }
        if start != 0 {
            let psize2 = if pos < self.sym_table.table.len() {
                self.sym_table.table[pos].size
            } else {
                0
            };
            let ghost s5 = self@;
            let mut k: usize = 0;
            while k < psize2
                invariant
                    0 <= k <= psize2,
                    self.wf(),
                    tr_stas(s5, psize2, 1) == tr_stas(self@, psize2, (k + 1) as nat),
                decreases psize2 - k,
            {
                let i = k + 1;
                let a = (psize2 - i).saturating_add(3);
                self.pcode.gen(PcodeType::STA, i, #[verifier::truncate] (a as i64));
                k = i;
            }
        }
        let fixed = #[verifier::truncate] (self.pcode.get_pcode_ptr() as i64);
        self.pcode.patch_a(tmp_ptr, fixed);
        self.pcode.gen(PcodeType::INT, 0, #[verifier::truncate] (self.addr as i64));
        if start != 0 && pos < self.sym_table.table.len() {
            let psize3 = self.sym_table.table[pos].size;
            let val = self.pcode.get_pcode_ptr().saturating_sub(1).saturating_sub(psize3);
            self.sym_table.set_row_val(pos, #[verifier::truncate] (val as i64));
        }
        self.body(&*expr.body);
        self.pcode.gen(PcodeType::OPR, 0, 0);
        self.addr = old_addr;
    }

    fn program(&mut self, expr: &ProgramExpr)
        requires
            old(self).wf(),
        ensures
            final(self).wf(),
            final(self)@ == tr_program(old(self)@, *expr),
        decreases *expr,
    {
        self.block(&*expr.block);
    }

    /// Translate a whole program.  The state afterwards is exactly what the
    /// translation relation gives from the state before; the finished
    /// instruction list is handed back only when no semantic error was
    /// recorded, and the diagnostics stay in `errors` either way.
    pub fn translate(&mut self, entry: &ProgramExpr) -> (r: Result<PCodeManager, ()>)
        requires
            old(self).wf(),
        ensures
            final(self).wf(),
            final(self)@ == tr_program(old(self)@, *entry),
            final(self).has_error == tr_program(old(self)@, *entry).has_error,
            match r {
                Ok(code) => !final(self).has_error && code.pcode_list@ == final(self)@.code,
                Err(()) => final(self).has_error,
            },
    {
        self.program(entry);
        if !self.has_error {
            Ok(self.pcode.duplicate())
        } else {
            Err(())
        }
    }
}

/// Whether an instruction that resolves storage or transfers control
/// through the static chain stays within `lvl` hops.
pub open spec fn lvl_instr_ok(p: Pcode, lvl: usize) -> bool {
    (p.f == PcodeType::CAL || p.f == PcodeType::LOD || p.f == PcodeType::STO) ==> p.l <= lvl
}

/// How a translation step may change the instruction list seen from
/// nesting depth `lvl`: the list only grows, earlier instructions keep
/// their opcode and level difference (patches touch operands alone), and
/// every new `CAL`, `LOD` or `STO` stays within `lvl` static-link hops.
pub open spec fn code_extended_ok(a: TrV, b: TrV, lvl: usize) -> bool {
    &&& a.code.len() <= b.code.len()
    &&& forall|i: int|
        0 <= i < a.code.len() ==> (#[trigger] b.code[i]).f == a.code[i].f && b.code[i].l
            == a.code[i].l
    &&& forall|i: int| a.code.len() <= i < b.code.len() ==> lvl_instr_ok(#[trigger] b.code[i], lvl)
}

/// `code_extended_ok` composes.
pub proof fn lemma_ext_trans(a: TrV, b: TrV, c: TrV, lvl: usize)
    requires
        code_extended_ok(a, b, lvl),
        code_extended_ok(b, c, lvl),
    ensures
        code_extended_ok(a, c, lvl),
{
    assert forall|i: int| a.code.len() <= i < c.code.len() implies lvl_instr_ok(
        #[trigger] c.code[i],
        lvl,
    ) by {
        if i < b.code.len() {
            assert(lvl_instr_ok(b.code[i], lvl));
        }
    }
}

pub proof fn lemma_levels_factor(s: TrV, e: FactorExpr)
    ensures
        code_extended_ok(s, tr_factor(s, e), s.level),
        tr_factor(s, e).level == s.level,
    decreases e, 1nat,
{
    match e {
        FactorExpr::Exp(e2) => {
            lemma_levels_exp(s, *e2);
        },
        _ => {},
    }
}

pub proof fn lemma_levels_mops(s: TrV, l: Seq<(Box<MopExpr>, Box<FactorExpr>)>, i: nat)
    ensures
        code_extended_ok(s, tr_mops(s, l, i), s.level),
        tr_mops(s, l, i).level == s.level,
    decreases l, l.len() - i + 1,
{
    if i < l.len() {
        lemma_levels_factor(s, *l[i as int].1);
        let s1 = tr_factor(s, *l[i as int].1);
        let s2 = match *l[i as int].0 {
            MopExpr::Mul(_) => tr_gen(s1, PcodeType::OPR, 0, 4),
            MopExpr::Div(_) => tr_gen(s1, PcodeType::OPR, 0, 5),
        };
        lemma_levels_mops(s2, l, i + 1);
        lemma_ext_trans(s, s2, tr_mops(s2, l, i + 1), s.level);
    }
}

pub proof fn lemma_levels_term(s: TrV, e: TermExpr)
    ensures
        code_extended_ok(s, tr_term(s, e), s.level),
        tr_term(s, e).level == s.level,
    decreases e, 1nat,
{
    lemma_levels_factor(s, *e.factor);
    let s1 = tr_factor(s, *e.factor);
    lemma_levels_mops(s1, e.mop_factors@, 0);
    lemma_ext_trans(s, s1, tr_mops(s1, e.mop_factors@, 0), s.level);
}

pub proof fn lemma_levels_aops(s: TrV, l: Seq<(Box<AopExpr>, Box<TermExpr>)>, i: nat)
    ensures
        code_extended_ok(s, tr_aops(s, l, i), s.level),
        tr_aops(s, l, i).level == s.level,
    decreases l, l.len() - i + 1,
{
    if i < l.len() {
        lemma_levels_term(s, *l[i as int].1);
        let s1 = tr_term(s, *l[i as int].1);
        let s2 = match *l[i as int].0 {
            AopExpr::Add(_) => tr_gen(s1, PcodeType::OPR, 0, 2),
            AopExpr::Sub(_) => tr_gen(s1, PcodeType::OPR, 0, 3),
        };
        lemma_levels_aops(s2, l, i + 1);
        lemma_ext_trans(s, s2, tr_aops(s2, l, i + 1), s.level);
    }
}

pub proof fn lemma_levels_exp(s: TrV, e: ExpExpr)
    ensures
        code_extended_ok(s, tr_exp(s, e), s.level),
        tr_exp(s, e).level == s.level,
    decreases e, 1nat,
{
    lemma_levels_term(s, *e.term);
    let s1 = tr_term(s, *e.term);
    let s2 = if e.is_negative {
        tr_gen(s1, PcodeType::OPR, 0, 1)
    } else {
        s1
    };
    lemma_levels_aops(s2, e.aop_terms@, 0);
    lemma_ext_trans(s, s2, tr_aops(s2, e.aop_terms@, 0), s.level);
}

pub proof fn lemma_levels_l_exp(s: TrV, e: LExpExpr)
    ensures
        code_extended_ok(s, tr_l_exp(s, e), s.level),
        tr_l_exp(s, e).level == s.level,
    decreases e, 1nat,
{
    match e {
        LExpExpr::Exp { l_exp, lop, r_exp } => {
            lemma_levels_exp(s, *l_exp);
            let s1 = tr_exp(s, *l_exp);
            lemma_levels_exp(s1, *r_exp);
            let s2 = tr_exp(s1, *r_exp);
            lemma_ext_trans(s, s1, s2, s.level);
            lemma_ext_trans(s, s2, tr_gen(s2, PcodeType::OPR, 0, lop_code(*lop)), s.level);
        },
        LExpExpr::Odd { exp } => {
            lemma_levels_exp(s, *exp);
        },
    }
}

pub proof fn lemma_levels_exps(s: TrV, l: Seq<Box<ExpExpr>>, i: nat)
    ensures
        code_extended_ok(s, tr_exps(s, l, i), s.level),
        tr_exps(s, l, i).level == s.level,
    decreases l, l.len() - i + 1,
{
    if i < l.len() {
        lemma_levels_exp(s, *l[i as int]);
        let s1 = tr_exp(s, *l[i as int]);
        lemma_levels_exps(s1, l, i + 1);
        lemma_ext_trans(s, s1, tr_exps(s1, l, i + 1), s.level);
    }
}

pub proof fn lemma_levels_reads(s: TrV, l: Seq<Box<IdExpr>>, i: nat)
    ensures
        code_extended_ok(s, tr_reads(s, l, i), s.level),
        tr_reads(s, l, i).level == s.level,
    decreases l.len() - i + 1,
{
    if i < l.len() {
        let id = *l[i as int];
        let name = id.0@;
        let k = closest_idx(s.syms, name, s.level as int);
        if k >= 0 {
            let sym = s.syms[k];
            if sym.ty == SymType::Var {
                let s1 = tr_gen(s, PcodeType::OPR, 0, 16);
                let s2 = tr_gen(
                    s1,
                    PcodeType::STO,
                    s1.level.saturating_sub(sym.level),
                    sym.addr as i64,
                );
                lemma_levels_reads(s2, l, i + 1);
                lemma_ext_trans(s, s2, tr_reads(s2, l, i + 1), s.level);
            }
        }
    }
}

pub proof fn lemma_levels_writes(s: TrV, l: Seq<Box<ExpExpr>>, i: nat)
    ensures
        code_extended_ok(s, tr_writes(s, l, i), s.level),
        tr_writes(s, l, i).level == s.level,
    decreases l, l.len() - i + 1,
{
    if i < l.len() {
        lemma_levels_exp(s, *l[i as int]);
        let s1 = tr_gen(tr_exp(s, *l[i as int]), PcodeType::OPR, 0, 14);
        lemma_ext_trans(s, tr_exp(s, *l[i as int]), s1, s.level);
        lemma_levels_writes(s1, l, i + 1);
        lemma_ext_trans(s, s1, tr_writes(s1, l, i + 1), s.level);
    }
}

pub proof fn lemma_levels_stmts(s: TrV, l: Seq<Box<StatementExpr>>, i: nat)
    ensures
        code_extended_ok(s, tr_stmts(s, l, i), s.level),
        tr_stmts(s, l, i).level == s.level,
    decreases l, l.len() - i + 1,
{
    if i < l.len() {
        lemma_levels_statement(s, *l[i as int]);
        let s1 = tr_statement(s, *l[i as int]);
        lemma_levels_stmts(s1, l, i + 1);
        lemma_ext_trans(s, s1, tr_stmts(s1, l, i + 1), s.level);
    }
}

pub proof fn lemma_levels_body(s: TrV, e: BodyExpr)
    ensures
        code_extended_ok(s, tr_body(s, e), s.level),
        tr_body(s, e).level == s.level,
    decreases e, 1nat,
{
    lemma_levels_stmts(s, e.statements@, 0);
}

/// Every `CAL`, `LOD` and `STO` instruction that a statement compiles to
/// carries a level difference no greater than the nesting depth the
/// statement stands at; the instructions already emitted keep their opcode
/// and level difference, and the depth itself is unchanged.  This is the
/// static half of the guarantee that a run-time static-link chase never
/// climbs past the frame of the outermost block.
pub proof fn lemma_statement_level_difference(s: TrV, e: StatementExpr)
    ensures
        code_extended_ok(s, tr_statement(s, e), s.level),
        tr_statement(s, e).level == s.level,
    decreases e, 1nat,
{
    lemma_levels_statement(s, e);
}

proof fn lemma_levels_statement(s: TrV, e: StatementExpr)
    ensures
        code_extended_ok(s, tr_statement(s, e), s.level),
        tr_statement(s, e).level == s.level,
    decreases e, 0nat,
{
    match e {
        StatementExpr::Id { id, exp } => {
            let name = (*id).0@;
            let k = closest_idx(s.syms, name, s.level as int);
            if k >= 0 {
                let sym = s.syms[k];
                if sym.ty == SymType::Var {
                    lemma_levels_exp(s, *exp);
                    let s1 = tr_exp(s, *exp);
                    lemma_ext_trans(
                        s,
                        s1,
                        tr_gen(
                            s1,
                            PcodeType::STO,
                            s1.level.saturating_sub(sym.level),
                            sym.addr as i64,
                        ),
                        s.level,
                    );
                }
            }
        },
        StatementExpr::If { l_exp, then_statement, else_statement } => {
            lemma_levels_l_exp(s, *l_exp);
            let s1 = tr_l_exp(s, *l_exp);
            let pos1 = s1.code.len() as usize;
            let s2 = tr_gen(s1, PcodeType::JPC, 0, 0);
            lemma_ext_trans(s, s1, s2, s.level);
            lemma_levels_statement(s2, *then_statement);
            let s3 = tr_statement(s2, *then_statement);
            lemma_ext_trans(s, s2, s3, s.level);
            let pos2 = s3.code.len() as usize;
            let s4 = tr_gen(s3, PcodeType::JMP, 0, 0);
            lemma_ext_trans(s, s3, s4, s.level);
            let fixed = s4.code.len() as i64;
            let s5 = tr_patch(tr_patch(s4, pos1, fixed), pos2, fixed);
            lemma_ext_trans(s, s4, s5, s.level);
            match else_statement {
                Some(es) => {
                    lemma_levels_statement(s5, *es);
                    let s6 = tr_statement(s5, *es);
                    lemma_ext_trans(s, s5, s6, s.level);
                    lemma_ext_trans(s, s6, tr_patch(s6, pos2, s6.code.len() as i64), s.level);
                },
                None => {},
            }
        },
        StatementExpr::While { l_exp, statement } => {
            let pos1 = s.code.len() as usize;
            lemma_levels_l_exp(s, *l_exp);
            let s1 = tr_l_exp(s, *l_exp);
            let pos2 = s1.code.len() as usize;
            let s2 = tr_gen(s1, PcodeType::JPC, 0, 0);
            lemma_ext_trans(s, s1, s2, s.level);
            lemma_levels_statement(s2, *statement);
            let s3 = tr_statement(s2, *statement);
            lemma_ext_trans(s, s2, s3, s.level);
            let s4 = tr_gen(s3, PcodeType::JMP, 0, pos1 as i64);
            lemma_ext_trans(s, s3, s4, s.level);
            lemma_ext_trans(s, s4, tr_patch(s4, pos2, s4.code.len() as i64), s.level);
        },
        StatementExpr::Call { id, args } => {
            let name = (*id).0@;
            let k = closest_idx(s.syms, name, s.level as int);
            if k >= 0 {
                let sym = s.syms[k];
                if sym.ty == SymType::Proc && sym.size == args@.len() {
                    lemma_levels_exps(s, args@, 0);
                    let s1 = tr_exps(s, args@, 0);
                    lemma_ext_trans(
                        s,
                        s1,
                        tr_gen(
                            s1,
                            PcodeType::CAL,
                            s1.level.saturating_sub(sym.level),
                            sym.val,
                        ),
                        s.level,
                    );
                }
            }
        },
        StatementExpr::Body { body } => {
            lemma_levels_body(s, *body);
        },
        StatementExpr::Read { id_list } => {
            lemma_levels_reads(s, id_list@, 0);
        },
        StatementExpr::Write { exps } => {
            lemma_levels_writes(s, exps@, 0);
            lemma_ext_trans(
                s,
                tr_writes(s, exps@, 0),
                tr_gen(tr_writes(s, exps@, 0), PcodeType::OPR, 0, 15),
                s.level,
            );
        },
    }
}

/// Translating the same tree twice from a fresh translator yields the same
/// instruction list, the same symbol table and the same diagnostics:
/// translation shares no mutable state between runs.
pub proof fn lemma_translate_deterministic(t1: Translator, t2: Translator, e: ProgramExpr)
    requires
        t1@ == tr_init(),
        t2@ == tr_init(),
    ensures
        tr_program(t1@, e) == tr_program(t2@, e),
{
}

} // verus!
