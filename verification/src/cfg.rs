//! Code generation: lowers each resolved contract into an object of
//! control-flow graphs over virtual registers. Structured statements become
//! basic blocks; `break` and `continue` always target the innermost
//! enclosing loop, tracked as a stack of (continue, break) block pairs.

use crate::diag::any_error;
use crate::diag::has_error;
use crate::namespace::{BinOp, CmpOp, Namespace, RExpr, RStmt, VarRef};
use crate::types::VTy;
use vstd::prelude::*;

verus! {

/// One instruction over virtual registers.
pub enum Ins {
    /// Loads an integer constant into a register.
    ConstInt(usize, Vec<u32>),
    ConstBool(usize, bool),
    /// Copies one register into another.
    Copy(usize, usize),
    /// Reads a persistent storage slot into a register.
    LoadStorage(usize, usize),
    /// Writes a register into a persistent storage slot.
    StoreStorage(usize, usize),
    /// Wrapping arithmetic: destination, left, right.
    Bin(BinOp, usize, usize, usize),
    /// Comparison: boolean destination, left, right.
    Cmp(CmpOp, usize, usize, usize),
    /// Zero-extension to the given limb count.
    Widen(usize, usize, usize),
    /// Calls through the function's symbol table: symbol, result, arguments.
    Call(usize, Option<usize>, Vec<usize>),
}

/// How a basic block ends.
#[derive(Clone, Copy, PartialEq, Eq, Structural, Debug)]
pub enum Term {
    Jump(usize),
    /// Conditional: condition register, then-block, else-block.
    Branch(usize, usize, usize),
    Ret(Option<usize>),
    /// Placeholder of a block no edge reaches.
    Unreachable,
}

/// A basic block: straight-line instructions and one terminator.
pub struct Block {
    pub ins: Vec<Ins>,
    pub term: Term,
}

/// One lowered function. Registers `0..params.len()` hold the arguments;
/// the remaining registers are locals and temporaries.
pub struct FuncObj {
    pub contract_no: usize,
    pub fn_no: usize,
    pub name: String,
    pub export: bool,
    pub params: Vec<VTy>,
    pub ret: Option<VTy>,
    pub reg_tys: Vec<VTy>,
    pub blocks: Vec<Block>,
    /// The symbols this function calls: target contract, function, name.
    pub symbols: Vec<(usize, usize, String)>,
}

/// The initial value of one storage slot.
pub enum InitVal {
    Zero,
    Bool(bool),
    Int(Vec<u32>),
}

/// The emitted object of one contract: its lowered functions (own and
/// inherited) and its storage layout with initial values.
pub struct Object {
    pub contract_no: usize,
    pub name: String,
    pub funcs: Vec<FuncObj>,
    pub storage: Vec<(VTy, InitVal)>,
}

/// The state of one function body being lowered. Sealed blocks accumulate
/// as (block id, instructions, terminator); the current block is open.
pub struct CfgBuilder {
    pub done: Vec<(usize, Vec<Ins>, Term)>,
    pub cur: usize,
    pub cur_ins: Vec<Ins>,
    pub next_block: usize,
    /// Set when the block-id space is exhausted: the lowering is then a
    /// defect, never two blocks sharing one id.
    pub full: bool,
    pub reg_tys: Vec<VTy>,
    /// Innermost-last stack of (continue target, break target) block pairs.
    pub loops: Vec<(usize, usize)>,
    pub symbols: Vec<(usize, usize, String)>,
}

/// Allocates a fresh register of the given type.
fn alloc_reg(b: &mut CfgBuilder, t: VTy) -> (r: usize)
    ensures
        final(b).reg_tys@ == old(b).reg_tys@.push(t),
        r == old(b).reg_tys@.len(),
        final(b).done == old(b).done,
        final(b).cur == old(b).cur,
        final(b).loops == old(b).loops,
{
    let r = b.reg_tys.len();
    b.reg_tys.push(t);
    r
}

/// Appends an instruction to the open block.
fn emit(b: &mut CfgBuilder, i: Ins)
    ensures
        final(b).cur_ins@ == old(b).cur_ins@.push(i),
        final(b).done == old(b).done,
        final(b).cur == old(b).cur,
        final(b).reg_tys == old(b).reg_tys,
        final(b).loops == old(b).loops,
{
    b.cur_ins.push(i);
}

/// Reserves a fresh block id.
fn new_block(b: &mut CfgBuilder) -> (r: usize)
    ensures
        final(b).done == old(b).done,
        final(b).cur == old(b).cur,
        final(b).cur_ins == old(b).cur_ins,
        final(b).reg_tys == old(b).reg_tys,
        final(b).loops == old(b).loops,
{
    let r = b.next_block;
    if b.next_block < usize::MAX {
        b.next_block = b.next_block + 1;
    } else {
        b.full = true;
    }
    r
}

/// Seals the open block with a terminator and opens `new_cur`.
fn seal(b: &mut CfgBuilder, term: Term, new_cur: usize)
    ensures
        final(b).done@.len() == old(b).done@.len() + 1,
        forall|p: int| 0 <= p < old(b).done@.len() ==> final(b).done@[p] == old(b).done@[p],
        final(b).done@.last().0 == old(b).cur,
        final(b).done@.last().1 == old(b).cur_ins,
        final(b).done@.last().2 == term,
        final(b).cur == new_cur,
        final(b).cur_ins@.len() == 0,
        final(b).reg_tys == old(b).reg_tys,
        final(b).loops == old(b).loops,
{
    let mut ins: Vec<Ins> = Vec::new();
    core::mem::swap(&mut ins, &mut b.cur_ins);
    b.done.push((b.cur, ins, term));
    b.cur = new_cur;
}

/// Finds the storage slot assigned to a variable, if it is in the layout.
fn find_slot(layout: &Vec<(usize, usize)>, c: usize, v: usize) -> (r: Option<usize>)
    ensures
        match r {
            Some(s) => s < layout@.len(),
            None => true,
        },
{
    let mut i: usize = 0;
    while i < layout.len()
        invariant
            0 <= i <= layout@.len(),
        decreases layout@.len() - i,
    {
        if layout[i].0 == c && layout[i].1 == v {
            return Some(i);
        }
        i = i + 1;
    }
    None
}

/// Finds or records the symbol index of a call target.
fn intern_symbol(b: &mut CfgBuilder, ns: &Namespace, c: usize, f: usize) -> (r: Result<
    usize,
    (),
>)
    ensures
        final(b).loops == old(b).loops,
        final(b).cur == old(b).cur,
        final(b).done == old(b).done,
        final(b).cur_ins == old(b).cur_ins,
        final(b).reg_tys == old(b).reg_tys,
{
    let mut i: usize = 0;
    while i < b.symbols.len()
        invariant
            0 <= i <= b.symbols@.len(),
        decreases b.symbols@.len() - i,
    {
        if b.symbols[i].0 == c && b.symbols[i].1 == f {
            return Ok(i);
        }
        i = i + 1;
    }
    if c < ns.contracts.len() && f < ns.contracts[c].functions.len() {
        let r = b.symbols.len();
        b.symbols.push((c, f, ns.contracts[c].functions[f].name.clone()));
        Ok(r)
    } else {
        Err(())
    }
}

/// Lowers one expression; the result register holds its value. A malformed
/// input is a lowering defect: the function refuses rather than emit wrong
/// code.
fn lower_expr(
    e: &RExpr,
    ns: &Namespace,
    layout: &Vec<(usize, usize)>,
    b: &mut CfgBuilder,
) -> (r: Result<usize, ()>)
    ensures
        final(b).loops == old(b).loops,
        final(b).cur == old(b).cur,
    decreases *e, 1nat,
{
    match e {
        RExpr::Bool(v) => {
            let r = alloc_reg(b, VTy::Bool);
            emit(b, Ins::ConstBool(r, *v));
            Ok(r)
        },
        RExpr::Number(w, limbs) => {
            if limbs.len() > (u32::MAX / 32) as usize || (limbs.len() as u32) * 32 != *w {
                return Err(());
            }
            let mut v: Vec<u32> = Vec::new();
            let mut i: usize = 0;
            while i < limbs.len()
                decreases limbs@.len() - i,
            {
                v.push(limbs[i]);
                i = i + 1;
            }
            let r = alloc_reg(b, VTy::Uint(*w));
            emit(b, Ins::ConstInt(r, v));
            Ok(r)
        },
        RExpr::Local(slot, _) => {
            if *slot < b.reg_tys.len() {
                Ok(*slot)
            } else {
                Err(())
            }
        },
        RExpr::StorageLoad(c, v, t) => {
            match find_slot(layout, *c, *v) {
                Some(s) => {
                    let r = alloc_reg(b, *t);
                    emit(b, Ins::LoadStorage(r, s));
                    Ok(r)
                },
                None => Err(()),
            }
        },
        RExpr::Binary(op, w, l, rr) => {
            let ra = lower_expr(l, ns, layout, b)?;
            let rb = lower_expr(rr, ns, layout, b)?;
            let r = alloc_reg(b, VTy::Uint(*w));
            emit(b, Ins::Bin(*op, r, ra, rb));
            Ok(r)
        },
        RExpr::Compare(op, l, rr) => {
            let ra = lower_expr(l, ns, layout, b)?;
            let rb = lower_expr(rr, ns, layout, b)?;
            let r = alloc_reg(b, VTy::Bool);
            emit(b, Ins::Cmp(*op, r, ra, rb));
            Ok(r)
        },
        RExpr::Widen(w, inner) => {
            let ra = lower_expr(inner, ns, layout, b)?;
            let r = alloc_reg(b, VTy::Uint(*w));
            emit(b, Ins::Widen(r, ra, (*w / 32) as usize));
            Ok(r)
        },
        RExpr::PostIncr(slot, w) => {
            if *slot >= b.reg_tys.len() {
                return Err(());
            }
            let r = alloc_reg(b, VTy::Uint(*w));
            emit(b, Ins::Copy(r, *slot));
            let one = alloc_reg(b, VTy::Uint(*w));
            let mut v: Vec<u32> = Vec::new();
            v.push(1);
            let mut i: usize = 1;
            while i < (*w / 32) as usize
                decreases (*w / 32) as usize - i,
            {
                v.push(0);
                i = i + 1;
            }
            emit(b, Ins::ConstInt(one, v));
            emit(b, Ins::Bin(BinOp::Add, *slot, *slot, one));
            Ok(r)
        },
        RExpr::PostDecr(slot, w) => {
            if *slot >= b.reg_tys.len() {
                return Err(());
            }
            let r = alloc_reg(b, VTy::Uint(*w));
            emit(b, Ins::Copy(r, *slot));
            let one = alloc_reg(b, VTy::Uint(*w));
            let mut v: Vec<u32> = Vec::new();
            v.push(1);
            let mut i: usize = 1;
            while i < (*w / 32) as usize
                decreases (*w / 32) as usize - i,
            {
                v.push(0);
                i = i + 1;
            }
            emit(b, Ins::ConstInt(one, v));
            emit(b, Ins::Bin(BinOp::Sub, *slot, *slot, one));
            Ok(r)
        },
        RExpr::Call(c, f, args) => {
            let mut regs: Vec<usize> = Vec::new();
            let mut i: usize = 0;
            proof {
                assert(decreases_to!(*e => *args));
            }
            while i < args.len()
                invariant
                    0 <= i <= args@.len(),
                    decreases_to!(*e => *args),
                    b.loops == old(b).loops,
                    b.cur == old(b).cur,
                decreases args@.len() - i,
            {
                let ra = lower_expr(&args[i], ns, layout, b)?;
                regs.push(ra);
                i = i + 1;
            }
            if *c >= ns.contracts.len() || *f >= ns.contracts[*c].functions.len() {
                return Err(());
            }
            let sym = intern_symbol(b, ns, *c, *f)?;
            let rett = ns.contracts[*c].functions[*f].ret;
            match rett {
                Some(t) => {
                    let r = alloc_reg(b, t);
                    emit(b, Ins::Call(sym, Some(r), regs));
                    Ok(r)
                },
                None => {
                    let r = alloc_reg(b, VTy::Bool);
                    emit(b, Ins::ConstBool(r, false));
                    emit(b, Ins::Call(sym, None, regs));
                    Ok(r)
                },
            }
        },
    }
}

/// Lowers one statement into the open block. A `break` seals the open
/// block with a jump to the break target of the innermost enclosing loop,
/// and a `continue` with a jump to its continue target: never to an outer
/// loop's. The loop stack is restored on return.
fn lower_stmt(
    s: &RStmt,
    ns: &Namespace,
    layout: &Vec<(usize, usize)>,
    b: &mut CfgBuilder,
) -> (r: Result<(), ()>)
    ensures
        r is Ok ==> final(b).loops@ == old(b).loops@,
        (r is Ok && s is Break && old(b).loops@.len() > 0) ==> exists|p: int|
            0 <= p < final(b).done@.len() && final(b).done@[p] == (
            old(b).cur,
            old(b).cur_ins,
            Term::Jump(old(b).loops@.last().1),
        ),
        (r is Ok && s is Continue && old(b).loops@.len() > 0) ==> exists|p: int|
            0 <= p < final(b).done@.len() && final(b).done@[p] == (
            old(b).cur,
            old(b).cur_ins,
            Term::Jump(old(b).loops@.last().0),
        ),
    decreases *s, 1nat,
{
    match s {
        RStmt::Store(target, e) => {
            let re = lower_expr(e, ns, layout, b)?;
            match target {
                VarRef::Local(slot, _) => {
                    if *slot >= b.reg_tys.len() {
                        return Err(());
                    }
                    emit(b, Ins::Copy(*slot, re));
                    Ok(())
                },
                VarRef::Storage(c, v, _) => {
                    match find_slot(layout, *c, *v) {
                        Some(slot) => {
                            emit(b, Ins::StoreStorage(slot, re));
                            Ok(())
                        },
                        None => Err(()),
                    }
                },
            }
        },
        RStmt::Expression(e) => {
            let _ = lower_expr(e, ns, layout, b)?;
            Ok(())
        },
        RStmt::If(c, t, f) => {
            let rc = lower_expr(c, ns, layout, b)?;
            let tb = new_block(b);
            let fb = new_block(b);
            let join = new_block(b);
            seal(b, Term::Branch(rc, tb, fb), tb);
            lower_stmts(t, ns, layout, b)?;
            seal(b, Term::Jump(join), fb);
            lower_stmts(f, ns, layout, b)?;
            seal(b, Term::Jump(join), join);
            Ok(())
        },
        RStmt::While(c, body) => {
            let condb = new_block(b);
            let bodyb = new_block(b);
            let exit = new_block(b);
            seal(b, Term::Jump(condb), condb);
            let rc = lower_expr(c, ns, layout, b)?;
            seal(b, Term::Branch(rc, bodyb, exit), bodyb);
            b.loops.push((condb, exit));
            lower_stmts(body, ns, layout, b)?;
            let popped = b.loops.pop();
            if popped.is_none() {
                return Err(());
            }
            proof {
                assert(b.loops@ =~= old(b).loops@);
            }
            seal(b, Term::Jump(condb), exit);
            Ok(())
        },
        RStmt::DoWhile(body, c) => {
            let bodyb = new_block(b);
            let condb = new_block(b);
            let exit = new_block(b);
            seal(b, Term::Jump(bodyb), bodyb);
            b.loops.push((condb, exit));
            lower_stmts(body, ns, layout, b)?;
            let popped = b.loops.pop();
            if popped.is_none() {
                return Err(());
            }
            proof {
                assert(b.loops@ =~= old(b).loops@);
            }
            seal(b, Term::Jump(condb), condb);
            let rc = lower_expr(c, ns, layout, b)?;
            seal(b, Term::Branch(rc, bodyb, exit), exit);
            Ok(())
        },
        RStmt::For(init, cond, next, body) => {
            match init {
                Some(st) => {
                    lower_stmt(st, ns, layout, b)?;
                },
                None => {},
            }
            let condb = new_block(b);
            let bodyb = new_block(b);
            let nextb = new_block(b);
            let exit = new_block(b);
            seal(b, Term::Jump(condb), condb);
            match cond {
                Some(c) => {
                    let rc = lower_expr(c, ns, layout, b)?;
                    seal(b, Term::Branch(rc, bodyb, exit), bodyb);
                },
                None => {
                    seal(b, Term::Jump(bodyb), bodyb);
                },
            }
            b.loops.push((nextb, exit));
            lower_stmts(body, ns, layout, b)?;
            let popped = b.loops.pop();
            if popped.is_none() {
                return Err(());
            }
            proof {
                assert(b.loops@ =~= old(b).loops@);
            }
            seal(b, Term::Jump(nextb), nextb);
            match next {
                Some(st) => {
                    lower_stmt(st, ns, layout, b)?;
                },
                None => {},
            }
            seal(b, Term::Jump(condb), exit);
            Ok(())
        },
        RStmt::Break => {
            if b.loops.len() == 0 {
                return Err(());
            }
            let target = b.loops[b.loops.len() - 1].1;
            let dead = new_block(b);
            seal(b, Term::Jump(target), dead);
            proof {
                assert(b.done@[b.done@.len() - 1] == (
                    old(b).cur,
                    old(b).cur_ins,
                    Term::Jump(old(b).loops@.last().1),
                ));
            }
            Ok(())
        },
        RStmt::Continue => {
            if b.loops.len() == 0 {
                return Err(());
            }
            let target = b.loops[b.loops.len() - 1].0;
            let dead = new_block(b);
            seal(b, Term::Jump(target), dead);
            proof {
                assert(b.done@[b.done@.len() - 1] == (
                    old(b).cur,
                    old(b).cur_ins,
                    Term::Jump(old(b).loops@.last().0),
                ));
            }
            Ok(())
        },
        RStmt::Return(e) => {
            let term = match e {
                Some(expr) => {
                    let r = lower_expr(expr, ns, layout, b)?;
                    Term::Ret(Some(r))
                },
                None => Term::Ret(None),
            };
            let dead = new_block(b);
            seal(b, term, dead);
            Ok(())
        },
    }
}

/// The storage slots one contract contributes: its non-constant variables
/// in declaration order, up to `upto`, each as (contract, variable index).
pub open spec fn spec_contract_slots(ns: Namespace, c: usize, upto: int) -> Seq<(usize, usize)>
    decreases upto,
{
    if upto <= 0 || c >= ns.contracts@.len() {
        Seq::empty()
    } else {
        spec_contract_slots(ns, c, upto - 1) + if !ns.contracts@[c as int].variables@[upto
            - 1].constant && upto <= ns.contracts@[c as int].variables@.len() {
            seq![(c, (upto - 1) as usize)]
        } else {
            Seq::empty()
        }
    }
}

/// The storage layout over a linearization suffix: the last entries of the
/// order contribute first, so ancestors precede the most-derived contract.
pub open spec fn spec_layout(ns: Namespace, order: Seq<usize>) -> Seq<(usize, usize)>
    decreases order.len(),
{
    if order.len() == 0 {
        Seq::empty()
    } else {
        spec_layout(ns, order.drop_first()) + spec_contract_slots(
            ns,
            order[0],
            ns.contracts@[order[0] as int].variables@.len() as int,
        )
    }
}

/// The storage layout of one contract: one slot per non-constant variable,
/// ancestors first (the reverse of the linearized order, which is
/// most-derived first), then the contract's own variables, in declaration
/// order. Each entry is (declaring contract, variable index).
pub fn storage_layout(ns: &Namespace, order: &Vec<usize>) -> (r: Vec<(usize, usize)>)
    requires
        forall|p: int| 0 <= p < order@.len() ==> (#[trigger] order@[p]) < ns.contracts@.len(),
    ensures
        r@ == spec_layout(*ns, order@),
        forall|p: int|
            0 <= p < r@.len() ==> (#[trigger] r@[p]).0 < ns.contracts@.len() && r@[p].1
                < ns.contracts@[r@[p].0 as int].variables@.len(),
{
    let mut r: Vec<(usize, usize)> = Vec::new();
    let mut oi: usize = order.len();
    proof {
        assert(order@.skip(order@.len() as int) =~= Seq::<usize>::empty());
        assert(r@ =~= spec_layout(*ns, order@.skip(order@.len() as int)));
    }
    while oi > 0
        invariant
            forall|p: int| 0 <= p < order@.len() ==> (#[trigger] order@[p]) < ns.contracts@.len(),
            0 <= oi <= order@.len(),
            r@ == spec_layout(*ns, order@.skip(oi as int)),
            forall|p: int|
                0 <= p < r@.len() ==> (#[trigger] r@[p]).0 < ns.contracts@.len() && r@[p].1
                    < ns.contracts@[r@[p].0 as int].variables@.len(),
        decreases oi,
    {
        oi = oi - 1;
        let c = order[oi];
        proof {
            assert(order@.skip(oi as int).drop_first() =~= order@.skip(oi as int + 1));
            assert(order@.skip(oi as int)[0] == order@[oi as int]);
        }
        let vars = &ns.contracts[c].variables;
        let ghost r0 = r@;
        let mut vi: usize = 0;
        proof {
            assert(r@ =~= r0 + spec_contract_slots(*ns, c, 0));
        }
        while vi < vars.len()
            invariant
                c < ns.contracts@.len(),
                vars@ == ns.contracts@[c as int].variables@,
                0 <= vi <= vars@.len(),
                r@ == r0 + spec_contract_slots(*ns, c, vi as int),
                forall|p: int|
                    0 <= p < r@.len() ==> (#[trigger] r@[p]).0 < ns.contracts@.len() && r@[p].1
                        < ns.contracts@[r@[p].0 as int].variables@.len(),
            decreases vars@.len() - vi,
        {
            if vars[vi].is_storage() {
                r.push((c, vi));
                proof {
                    assert(r@ =~= r0 + spec_contract_slots(*ns, c, vi as int + 1));
                }
            } else {
                proof {
                    assert(r@ =~= r0 + spec_contract_slots(*ns, c, vi as int + 1));
                }
            }
            vi = vi + 1;
        }
        proof {
            assert(r@ =~= spec_layout(*ns, order@.skip(oi as int)));
        }
    }
    proof {
        assert(order@.skip(0) =~= order@);
    }
    r
}

/// Why code generation refused to run.
pub enum EmitError {
    /// The namespace carries error diagnostics and is barred from codegen.
    UnresolvedInput,
    /// An internally inconsistent lowering request: a pipeline defect, not
    /// a user-facing semantic error.
    LoweringDefect,
}

/// Lowers one resolved contract into an object: one entry per externally
/// visible function (own and inherited), none for internal or private
/// functions, plus the storage layout with its initial values. A namespace
/// with error diagnostics never reaches lowering; an inconsistent body is a
/// fatal defect, never silently wrong bytecode.
#[verifier::loop_isolation(false)]
pub fn emit_contract(ns: &Namespace, contract_no: usize) -> (r: Result<Object, EmitError>)
    ensures
        r == Err::<Object, EmitError>(EmitError::UnresolvedInput) <==> any_error(ns.diagnostics@),
        match r {
            Ok(obj) => {
                &&& obj.contract_no == contract_no
                &&& contract_no < ns.contracts@.len()
                &&& obj.name@ == ns.contracts@[contract_no as int].name@
                &&& forall|k: int|
                    0 <= k < obj.funcs@.len() ==> {
                        let fo = #[trigger] obj.funcs@[k];
                        &&& fo.contract_no < ns.contracts@.len()
                        &&& fo.fn_no < ns.contracts@[fo.contract_no as int].functions@.len()
                        &&& fo.export == ns.contracts@[fo.contract_no as int].functions@[fo.fn_no as int].spec_is_external()
                        &&& fo.name@ == ns.contracts@[fo.contract_no as int].functions@[fo.fn_no as int].name@
                    }
            },
            Err(_) => true,
        },
{
    if has_error(&ns.diagnostics) {
        return Err(EmitError::UnresolvedInput);
    }
    if contract_no >= ns.contracts.len() {
        return Err(EmitError::LoweringDefect);
    }
    // a defensive re-check of the base table: the resolver guarantees it
    let mut ci: usize = 0;
    while ci < ns.contracts.len()
        invariant
            0 <= ci <= ns.contracts@.len(),
            forall|i: int, j: int|
                0 <= i < ci && 0 <= j < ns.contracts@[i].bases@.len() ==> (
                #[trigger] ns.contracts@[i].bases@[j]) < ns.contracts@.len(),
        decreases ns.contracts@.len() - ci,
    {
        let bs = &ns.contracts[ci].bases;
        let mut bj: usize = 0;
        while bj < bs.len()
            invariant
                ci < ns.contracts@.len(),
                bs@ == ns.contracts@[ci as int].bases@,
                0 <= bj <= bs@.len(),
                forall|j: int|
                    0 <= j < bj ==> (#[trigger] bs@[j]) < ns.contracts@.len(),
            decreases bs@.len() - bj,
        {
            if bs[bj] >= ns.contracts.len() {
                return Err(EmitError::LoweringDefect);
            }
            bj = bj + 1;
        }
        ci = ci + 1;
    }
    proof {
        assert(crate::bases::bases_in_range(ns.contracts@));
    }
    let order = crate::bases::visit_bases_of(&ns.contracts, contract_no);
    let layout = storage_layout(ns, &order);

    // storage slots and their initial values
    let mut storage: Vec<(VTy, InitVal)> = Vec::new();
    let mut si: usize = 0;
    while si < layout.len()
        invariant
            0 <= si <= layout@.len(),
            forall|p: int|
                0 <= p < layout@.len() ==> (#[trigger] layout@[p]).0 < ns.contracts@.len()
                    && layout@[p].1 < ns.contracts@[layout@[p].0 as int].variables@.len(),
        decreases layout@.len() - si,
    {
        let (c, v) = layout[si];
        let var = &ns.contracts[c].variables[v];
        let vt = match crate::sema::vty_of_type(&var.ty) {
            Some(t) => t,
            None => {
                return Err(EmitError::LoweringDefect);
            },
        };
        let init = match &var.initializer {
            None => InitVal::Zero,
            Some(RExpr::Bool(bv)) => InitVal::Bool(*bv),
            Some(RExpr::Number(_, limbs)) => {
                let mut lv: Vec<u32> = Vec::new();
                let mut li: usize = 0;
                while li < limbs.len()
                    decreases limbs@.len() - li,
                {
                    lv.push(limbs[li]);
                    li = li + 1;
                }
                InitVal::Int(lv)
            },
            Some(_) => {
                return Err(EmitError::LoweringDefect);
            },
        };
        storage.push((vt, init));
        si = si + 1;
    }

    // every function visible through the linearization, most derived first
    let mut funcs: Vec<FuncObj> = Vec::new();
    let mut oi: usize = 0;
    while oi < order.len()
        invariant
            forall|p: int| 0 <= p < order@.len() ==> (#[trigger] order@[p]) < ns.contracts@.len(),
            0 <= oi <= order@.len(),
            forall|k: int|
                0 <= k < funcs@.len() ==> {
                    let fo = #[trigger] funcs@[k];
                    &&& fo.contract_no < ns.contracts@.len()
                    &&& fo.fn_no < ns.contracts@[fo.contract_no as int].functions@.len()
                    &&& fo.export == ns.contracts@[fo.contract_no as int].functions@[fo.fn_no as int].spec_is_external()
                    &&& fo.name@ == ns.contracts@[fo.contract_no as int].functions@[fo.fn_no as int].name@
                },
        decreases order@.len() - oi,
    {
        let c = order[oi];
        let mut fi: usize = 0;
        while fi < ns.contracts[c].functions.len()
            invariant
                c < ns.contracts@.len(),
                forall|p: int|
                    0 <= p < order@.len() ==> (#[trigger] order@[p]) < ns.contracts@.len(),
                0 <= fi <= ns.contracts@[c as int].functions@.len(),
                forall|k: int|
                    0 <= k < funcs@.len() ==> {
                        let fo = #[trigger] funcs@[k];
                        &&& fo.contract_no < ns.contracts@.len()
                        &&& fo.fn_no < ns.contracts@[fo.contract_no as int].functions@.len()
                        &&& fo.export == ns.contracts@[fo.contract_no as int].functions@[fo.fn_no as int].spec_is_external()
                        &&& fo.name@ == ns.contracts@[fo.contract_no as int].functions@[fo.fn_no as int].name@
                    },
            decreases ns.contracts@[c as int].functions@.len() - fi,
        {
            let f = &ns.contracts[c].functions[fi];
            let mut reg_tys: Vec<VTy> = Vec::new();
            let mut li: usize = 0;
            while li < f.locals.len()
                invariant
                    c < ns.contracts@.len(),
                    fi < ns.contracts@[c as int].functions@.len(),
                    f == ns.contracts@[c as int].functions@[fi as int],
                decreases f.locals@.len() - li,
            {
                reg_tys.push(f.locals[li]);
                li = li + 1;
            }
            let mut params: Vec<VTy> = Vec::new();
            let mut pi: usize = 0;
            while pi < f.params.len()
                invariant
                    c < ns.contracts@.len(),
                    fi < ns.contracts@[c as int].functions@.len(),
                    f == ns.contracts@[c as int].functions@[fi as int],
                decreases f.params@.len() - pi,
            {
                params.push(f.params[pi]);
                pi = pi + 1;
            }
            if params.len() > reg_tys.len() {
                return Err(EmitError::LoweringDefect);
            }
            let mut b = CfgBuilder {
                done: Vec::new(),
                cur: 0,
                cur_ins: Vec::new(),
                next_block: 0,
                full: false,
                reg_tys,
                loops: Vec::new(),
                symbols: Vec::new(),
            };
            let entry = new_block(&mut b);
            b.cur = entry;
            match lower_stmts(&f.body, ns, &layout, &mut b) {
                Ok(()) => {},
                Err(()) => {
                    return Err(EmitError::LoweringDefect);
                },
            }
            // falling off the end returns the zero value of the return type
            let tail = new_block(&mut b);
            seal(&mut b, Term::Ret(None), tail);
            seal(&mut b, Term::Unreachable, tail);
            if b.full {
                return Err(EmitError::LoweringDefect);
            }
            // place the sealed blocks at their ids
            let n = b.next_block;
            let mut blocks: Vec<Block> = Vec::new();
            let mut zi: usize = 0;
            while zi < n
                invariant
                    blocks@.len() == zi,
                    0 <= zi <= n,
                decreases n - zi,
            {
                blocks.push(Block { ins: Vec::new(), term: Term::Unreachable });
                zi = zi + 1;
            }
            let mut rest = b.done;
            while rest.len() > 0
                invariant
                    blocks@.len() == n,
                decreases rest@.len(),
            {
                let (id, ins, term) = rest.remove(0);
                if id < n {
                    blocks.set(id, Block { ins, term });
                }
            }
            funcs.push(
                FuncObj {
                    contract_no: c,
                    fn_no: fi,
                    name: f.name.clone(),
                    export: f.is_external(),
                    params,
                    ret: f.ret,
                    reg_tys: b.reg_tys,
                    blocks,
                    symbols: b.symbols,
                },
            );
            fi = fi + 1;
        }
        oi = oi + 1;
    }
    Ok(
        Object {
            contract_no,
            name: ns.contracts[contract_no].name.clone(),
            funcs,
            storage,
        },
    )
}

/// Deep copy of one instruction.
fn copy_ins(i: &Ins) -> Ins {
    match i {
        Ins::ConstInt(d, v) => {
            let mut lv: Vec<u32> = Vec::new();
            let mut li: usize = 0;
            while li < v.len()
                decreases v@.len() - li,
            {
                lv.push(v[li]);
                li = li + 1;
            }
            Ins::ConstInt(*d, lv)
        },
        Ins::ConstBool(d, b) => Ins::ConstBool(*d, *b),
        Ins::Copy(d, sr) => Ins::Copy(*d, *sr),
        Ins::LoadStorage(d, sl) => Ins::LoadStorage(*d, *sl),
        Ins::StoreStorage(sl, sr) => Ins::StoreStorage(*sl, *sr),
        Ins::Bin(op, d, a, b) => Ins::Bin(*op, *d, *a, *b),
        Ins::Cmp(op, d, a, b) => Ins::Cmp(*op, *d, *a, *b),
        Ins::Widen(d, sr, k) => Ins::Widen(*d, *sr, *k),
        Ins::Call(sym, d, args) => {
            let mut av: Vec<usize> = Vec::new();
            let mut ai: usize = 0;
            while ai < args.len()
                decreases args@.len() - ai,
            {
                av.push(args[ai]);
                ai = ai + 1;
            }
            Ins::Call(*sym, *d, av)
        },
    }
}

/// Deep copy of a block list, for carrying emitted code into a module.
pub(crate) fn copy_blocks(blocks: &Vec<Block>) -> Vec<Block> {
    let mut out: Vec<Block> = Vec::new();
    let mut bi: usize = 0;
    while bi < blocks.len()
        invariant
            0 <= bi <= blocks@.len(),
        decreases blocks@.len() - bi,
    {
        let blk = &blocks[bi];
        let mut ins: Vec<Ins> = Vec::new();
        let mut ii: usize = 0;
        while ii < blk.ins.len()
            invariant
                bi < blocks@.len(),
                blk == blocks@[bi as int],
            decreases blk.ins@.len() - ii,
        {
            ins.push(copy_ins(&blk.ins[ii]));
            ii = ii + 1;
        }
        out.push(Block { ins, term: blk.term });
        bi = bi + 1;
    }
    out
}

/// Lowers a statement list in order.
fn lower_stmts(
    list: &Vec<RStmt>,
    ns: &Namespace,
    layout: &Vec<(usize, usize)>,
    b: &mut CfgBuilder,
) -> (r: Result<(), ()>)
    ensures
        r is Ok ==> final(b).loops@ == old(b).loops@,
    decreases *list, 0nat,
{
    let mut i: usize = 0;
    while i < list.len()
        invariant
            0 <= i <= list@.len(),
            b.loops@ == old(b).loops@,
        decreases list@.len() - i,
    {
        lower_stmt(&list[i], ns, layout, b)?;
        i = i + 1;
    }
    Ok(())
}

} // verus!
