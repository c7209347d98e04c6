//! A small register machine that loads and runs a linked module. The
//! startup routine must complete before any exported entry point is
//! callable; every inconsistency traps rather than computing a wrong
//! result; execution is bounded by fuel so it always returns.

use crate::cfg::{InitVal, Ins, Term};
use crate::link::Module;
use crate::namespace::{BinOp, CmpOp};
use crate::types::VTy;
use crate::wide::{lval, wide_add, wide_cmp, wide_mul, wide_sub, wide_zero, widen, WideOrd};
use vstd::prelude::*;

verus! {

/// A runtime value: a boolean or an integer of 32-bit limbs.
pub enum Value {
    Bool(bool),
    Int(Vec<u32>),
}

/// Why execution stopped without a result.
#[derive(Clone, Copy, PartialEq, Eq, Structural, Debug)]
pub enum Trap {
    /// The startup routine has not completed yet.
    NotStarted,
    /// The startup image is inconsistent with the storage types.
    StartupFailure,
    /// No exported entry point has the given name.
    UnknownExport,
    /// Argument count or types do not match the entry point.
    BadArguments,
    /// An internal inconsistency of the loaded code: never a wrong answer.
    Defect,
    /// The fuel bound was exhausted.
    OutOfFuel,
}

/// Deep copy of a runtime value.
fn clone_value(v: &Value) -> (r: Value)
{
    match v {
        Value::Bool(b) => Value::Bool(*b),
        Value::Int(limbs) => {
            let mut lv: Vec<u32> = Vec::new();
            let mut i: usize = 0;
            while i < limbs.len()
                decreases limbs@.len() - i,
            {
                lv.push(limbs[i]);
                i = i + 1;
            }
            Value::Int(lv)
        },
    }
}

/// Whether a storage initializer is structurally consistent with its
/// declared type: kinds agree and an integer image has no limbs beyond the
/// declared width.
pub open spec fn init_fits(entry: (VTy, InitVal)) -> bool {
    match entry {
        (VTy::Bool, InitVal::Int(_)) => false,
        (VTy::Uint(_), InitVal::Bool(_)) => false,
        (VTy::Uint(w), InitVal::Int(l)) => l@.len() <= (w / 32) as nat,
        _ => true,
    }
}

/// Whether a runtime value is the loaded form of one storage image entry:
/// right kind, exactly width/32 limbs, and the declared initial value
/// (zero where none was declared).
pub open spec fn slot_matches(entry: (VTy, InitVal), v: Value) -> bool {
    match (entry, v) {
        ((VTy::Bool, InitVal::Zero), Value::Bool(b)) => !b,
        ((VTy::Bool, InitVal::Bool(b0)), Value::Bool(b)) => b == b0,
        ((VTy::Uint(w), InitVal::Zero), Value::Int(l)) => l@.len() == (w / 32) as nat && lval(l@)
            == 0,
        ((VTy::Uint(w), InitVal::Int(src)), Value::Int(l)) => l@.len() == (w / 32) as nat && lval(
            l@,
        ) == lval(src@),
        _ => false,
    }
}

/// The zero value of a type.
fn zero_value(t: &VTy) -> (r: Value)
    ensures
        match (*t, r) {
            (VTy::Bool, Value::Bool(b)) => !b,
            (VTy::Uint(w), Value::Int(l)) => l@.len() == (w / 32) as nat && lval(l@) == 0,
            _ => false,
        },
{
    match t {
        VTy::Bool => Value::Bool(false),
        VTy::Uint(w) => Value::Int(wide_zero((*w / 32) as usize)),
    }
}

/// Whether a value inhabits a type.
fn value_matches(v: &Value, t: &VTy) -> (r: bool)
{
    match (v, t) {
        (Value::Bool(_), VTy::Bool) => true,
        (Value::Int(limbs), VTy::Uint(w)) => limbs.len() == (*w / 32) as usize,
        _ => false,
    }
}

/// A loaded module together with its persistent storage. No export is
/// callable until the startup routine has completed.
pub struct Instance {
    pub module: Module,
    pub storage: Vec<Value>,
    pub started: bool,
}

/// Loads a module; the instance holds it unchanged and is not started yet.
pub fn instantiate(module: Module) -> (r: Instance)
    ensures
        !r.started,
        r.module == module,
        r.storage@.len() == 0,
{
    Instance { module, storage: Vec::new(), started: false }
}

impl Instance {
    /// Runs the startup routine: establishes every storage slot's declared
    /// initial value. It succeeds exactly when every initializer fits its
    /// declared type; then the storage holds one matching value per slot of
    /// the module's image. Only after this succeeds are exported functions
    /// callable; a failure is reported, never swallowed.
    pub fn run_start(&mut self) -> (r: Result<(), Trap>)
        ensures
            final(self).module == old(self).module,
            r is Ok <==> forall|k: int|
                0 <= k < old(self).module.storage@.len() ==> init_fits(
                    #[trigger] old(self).module.storage@[k],
                ),
            r is Ok ==> final(self).started && final(self).storage@.len() == old(
                self,
            ).module.storage@.len() && forall|k: int|
                0 <= k < final(self).storage@.len() ==> slot_matches(
                    old(self).module.storage@[k],
                    #[trigger] final(self).storage@[k],
                ),
            r is Err ==> !final(self).started,
    {
        self.started = false;
        let mut storage: Vec<Value> = Vec::new();
        let mut i: usize = 0;
        while i < self.module.storage.len()
            invariant
                !self.started,
                self.module == old(self).module,
                0 <= i <= self.module.storage@.len(),
                storage@.len() == i,
                forall|k: int|
                    0 <= k < i ==> init_fits(#[trigger] self.module.storage@[k]) && slot_matches(
                        self.module.storage@[k],
                        storage@[k],
                    ),
            decreases self.module.storage@.len() - i,
        {
            let v = match &self.module.storage[i] {
                (t, InitVal::Zero) => zero_value(t),
                (VTy::Bool, InitVal::Bool(b)) => Value::Bool(*b),
                (VTy::Uint(w), InitVal::Int(limbs)) => {
                    let k = (*w / 32) as usize;
                    if limbs.len() > k {
                        proof {
                            assert(!init_fits(self.module.storage@[i as int]));
                        }
                        return Err(Trap::StartupFailure);
                    }
                    Value::Int(widen(limbs, k))
                },
                _ => {
                    proof {
                        assert(!init_fits(self.module.storage@[i as int]));
                    }
                    return Err(Trap::StartupFailure);
                },
            };
            storage.push(v);
            i = i + 1;
        }
        self.storage = storage;
        self.started = true;
        Ok(())
    }

    /// Invokes an exported entry point by name. It refuses with
    /// `NotStarted` exactly when the startup routine has not completed,
    /// and with `UnknownExport` exactly when no export carries the name;
    /// otherwise execution itself answers, and its failures are only
    /// `BadArguments`, `Defect` or `OutOfFuel`.
    pub fn invoke_export(&mut self, name: &str, args: Vec<Value>, fuel: u64) -> (r: Result<
        Option<Value>,
        Trap,
    >)
        ensures
            final(self).module == old(self).module,
            final(self).started == old(self).started,
            r == Err::<Option<Value>, Trap>(Trap::NotStarted) <==> !old(self).started,
            old(self).started ==> (r == Err::<Option<Value>, Trap>(Trap::UnknownExport) <==> (
            forall|p: int|
                0 <= p < old(self).module.exports@.len() ==> (#[trigger] old(
                    self,
                ).module.exports@[p]).0@ != name@)),
    {
        if !self.started {
            return Err(Trap::NotStarted);
        }
        let key: String = name.to_owned();
        let mut i: usize = 0;
        let mut target: Option<usize> = None;
        while i < self.module.exports.len() && target.is_none()
            invariant
                self.module == old(self).module,
                self.started == old(self).started,
                key@ == name@,
                0 <= i <= self.module.exports@.len(),
                target is None ==> forall|p: int|
                    0 <= p < i ==> (#[trigger] self.module.exports@[p]).0@ != name@,
                match target {
                    Some(g) => exists|p: int|
                        0 <= p < self.module.exports@.len() && (
                        #[trigger] self.module.exports@[p]).0@ == name@
                            && self.module.exports@[p].1 == g,
                    None => true,
                },
            decreases self.module.exports@.len() - i,
        {
            if self.module.exports[i].0 == key {
                target = Some(self.module.exports[i].1);
            }
            i = i + 1;
        }
        match target {
            Some(g) => {
                let r = exec_fn(&self.module, g, args, &mut self.storage, fuel);
                proof {
                    assert(!(r == Err::<Option<Value>, Trap>(Trap::NotStarted)));
                    assert(!(r == Err::<Option<Value>, Trap>(Trap::UnknownExport)));
                }
                r
            },
            None => Err(Trap::UnknownExport),
        }
    }
}

/// Evaluates one arithmetic instruction on integer values of equal width.
fn eval_bin(op: BinOp, a: &Value, b: &Value) -> (r: Result<Value, Trap>)
    ensures
        r is Err ==> r == Err::<Value, Trap>(Trap::Defect),
{
    match (a, b) {
        (Value::Int(va), Value::Int(vb)) => {
            if va.len() != vb.len() {
                return Err(Trap::Defect);
            }
            let v = match op {
                BinOp::Add => wide_add(va, vb),
                BinOp::Sub => wide_sub(va, vb),
                BinOp::Mul => wide_mul(va, vb),
            };
            Ok(Value::Int(v))
        },
        _ => Err(Trap::Defect),
    }
}

/// Evaluates one comparison on two values of one type.
fn eval_cmp(op: CmpOp, a: &Value, b: &Value) -> (r: Result<bool, Trap>)
    ensures
        r is Err ==> r == Err::<bool, Trap>(Trap::Defect),
{
    match (a, b) {
        (Value::Int(va), Value::Int(vb)) => {
            if va.len() != vb.len() {
                return Err(Trap::Defect);
            }
            let ord = wide_cmp(va, vb);
            let res = match op {
                CmpOp::Lt => matches!(ord, WideOrd::Less),
                CmpOp::Le => matches!(ord, WideOrd::Less | WideOrd::Equal),
                CmpOp::Gt => matches!(ord, WideOrd::Greater),
                CmpOp::Ge => matches!(ord, WideOrd::Greater | WideOrd::Equal),
                CmpOp::Eq => matches!(ord, WideOrd::Equal),
                CmpOp::Ne => !matches!(ord, WideOrd::Equal),
            };
            Ok(res)
        },
        (Value::Bool(ba), Value::Bool(bb)) => {
            match op {
                CmpOp::Eq => Ok(*ba == *bb),
                CmpOp::Ne => Ok(*ba != *bb),
                _ => Err(Trap::Defect),
            }
        },
        _ => Err(Trap::Defect),
    }
}

/// Executes one function of the module on the given arguments. Fuel bounds
/// every loop and call, so execution always returns; running out of fuel is
/// reported as a trap, never as a wrong result.
fn exec_fn(
    m: &Module,
    fidx: usize,
    args: Vec<Value>,
    storage: &mut Vec<Value>,
    fuel: u64,
) -> (r: Result<Option<Value>, Trap>)
    ensures
        r is Err ==> r == Err::<Option<Value>, Trap>(Trap::BadArguments) || r == Err::<
            Option<Value>,
            Trap,
        >(Trap::Defect) || r == Err::<Option<Value>, Trap>(Trap::OutOfFuel),
    decreases fuel,
{
    if fidx >= m.funcs.len() {
        return Err(Trap::Defect);
    }
    let f = &m.funcs[fidx];
    if args.len() != f.params.len() {
        return Err(Trap::BadArguments);
    }
    // registers: arguments first, then zero-initialized locals/temporaries
    let mut regs: Vec<Value> = Vec::new();
    let mut rest = args;
    let mut ri: usize = 0;
    while rest.len() > 0
        invariant
            fidx < m.funcs@.len(),
            f == m.funcs@[fidx as int],
            ri + rest@.len() == f.params@.len(),
        decreases rest@.len(),
    {
        let a = rest.remove(0);
        if ri < f.params.len() {
            if !value_matches(&a, &f.params[ri]) {
                return Err(Trap::BadArguments);
            }
        }
        regs.push(a);
        ri = ri + 1;
    }
    while ri < f.reg_tys.len()
        invariant
            fidx < m.funcs@.len(),
            f == m.funcs@[fidx as int],
        decreases f.reg_tys@.len() - ri,
    {
        regs.push(zero_value(&f.reg_tys[ri]));
        ri = ri + 1;
    }
    let mut pc: usize = 0;
    let mut fuel2: u64 = fuel;
    loop
        invariant_except_break
            fidx < m.funcs@.len(),
            f == m.funcs@[fidx as int],
            fuel2 <= fuel,
        ensures
            true,
        decreases fuel2,
    {
        if fuel2 == 0 {
            return Err(Trap::OutOfFuel);
        }
        fuel2 = fuel2 - 1;
        if pc >= f.blocks.len() {
            return Err(Trap::Defect);
        }
        let blk = &f.blocks[pc];
        let mut ii: usize = 0;
        while ii < blk.ins.len()
            invariant
                fidx < m.funcs@.len(),
                f == m.funcs@[fidx as int],
                pc < f.blocks@.len(),
                blk == f.blocks@[pc as int],
                fuel2 < fuel,
            decreases blk.ins@.len() - ii,
        {
            match &blk.ins[ii] {
                Ins::ConstInt(d, v) => {
                    if *d >= regs.len() {
                        return Err(Trap::Defect);
                    }
                    let mut lv: Vec<u32> = Vec::new();
                    let mut li: usize = 0;
                    while li < v.len()
                        invariant
                            fidx < m.funcs@.len(),
                        decreases v@.len() - li,
                    {
                        lv.push(v[li]);
                        li = li + 1;
                    }
                    regs.set(*d, Value::Int(lv));
                },
                Ins::ConstBool(d, b) => {
                    if *d >= regs.len() {
                        return Err(Trap::Defect);
                    }
                    regs.set(*d, Value::Bool(*b));
                },
                Ins::Copy(d, s) => {
                    if *d >= regs.len() || *s >= regs.len() {
                        return Err(Trap::Defect);
                    }
                    let v = clone_value(&regs[*s]);
                    regs.set(*d, v);
                },
                Ins::LoadStorage(d, slot) => {
                    if *d >= regs.len() {
                        return Err(Trap::Defect);
                    }
                    if *slot >= usize::MAX - f.storage_base {
                        return Err(Trap::Defect);
                    }
                    let idx = f.storage_base + *slot;
                    if idx >= storage.len() {
                        return Err(Trap::Defect);
                    }
                    let v = clone_value(&storage[idx]);
                    regs.set(*d, v);
                },
                Ins::StoreStorage(slot, s) => {
                    if *s >= regs.len() {
                        return Err(Trap::Defect);
                    }
                    if *slot >= usize::MAX - f.storage_base {
                        return Err(Trap::Defect);
                    }
                    let idx = f.storage_base + *slot;
                    if idx >= storage.len() {
                        return Err(Trap::Defect);
                    }
                    let v = clone_value(&regs[*s]);
                    storage.set(idx, v);
                },
                Ins::Bin(op, d, a, b) => {
                    if *d >= regs.len() || *a >= regs.len() || *b >= regs.len() {
                        return Err(Trap::Defect);
                    }
                    let v = match eval_bin(*op, &regs[*a], &regs[*b]) {
                        Ok(v) => v,
                        Err(t) => {
                            return Err(t);
                        },
                    };
                    regs.set(*d, v);
                },
                Ins::Cmp(op, d, a, b) => {
                    if *d >= regs.len() || *a >= regs.len() || *b >= regs.len() {
                        return Err(Trap::Defect);
                    }
                    let v = match eval_cmp(*op, &regs[*a], &regs[*b]) {
                        Ok(v) => v,
                        Err(t) => {
                            return Err(t);
                        },
                    };
                    regs.set(*d, Value::Bool(v));
                },
                Ins::Widen(d, s, k) => {
                    if *d >= regs.len() || *s >= regs.len() {
                        return Err(Trap::Defect);
                    }
                    let v = match &regs[*s] {
                        Value::Int(limbs) => {
                            if limbs.len() > *k {
                                return Err(Trap::Defect);
                            }
                            Value::Int(widen(limbs, *k))
                        },
                        _ => {
                            return Err(Trap::Defect);
                        },
                    };
                    regs.set(*d, v);
                },
                Ins::Call(sym, dst, argregs) => {
                    if *sym >= f.syms.len() {
                        return Err(Trap::Defect);
                    }
                    let g = f.syms[*sym];
                    let mut argvals: Vec<Value> = Vec::new();
                    let mut ai: usize = 0;
                    while ai < argregs.len()
                        invariant
                            fidx < m.funcs@.len(),
                        decreases argregs@.len() - ai,
                    {
                        if argregs[ai] >= regs.len() {
                            return Err(Trap::Defect);
                        }
                        argvals.push(clone_value(&regs[argregs[ai]]));
                        ai = ai + 1;
                    }
                    let res = exec_fn(m, g, argvals, storage, fuel2)?;
                    match (dst, res) {
                        (Some(d), Some(v)) => {
                            if *d >= regs.len() {
                                return Err(Trap::Defect);
                            }
                            regs.set(*d, v);
                        },
                        (None, _) => {},
                        (Some(_), None) => {
                            return Err(Trap::Defect);
                        },
                    }
                },
            }
            ii = ii + 1;
        }
        match blk.term {
            Term::Jump(t) => {
                pc = t;
            },
            Term::Branch(c, tb, fb) => {
                if c >= regs.len() {
                    return Err(Trap::Defect);
                }
                match &regs[c] {
                    Value::Bool(bv) => {
                        pc = if *bv {
                            tb
                        } else {
                            fb
                        };
                    },
                    _ => {
                        return Err(Trap::Defect);
                    },
                }
            },
            Term::Ret(None) => {
                match &f.ret {
                    None => {
                        return Ok(None);
                    },
                    Some(t) => {
                        return Ok(Some(zero_value(t)));
                    },
                }
            },
            Term::Ret(Some(rr)) => {
                if rr >= regs.len() {
                    return Err(Trap::Defect);
                }
                match &f.ret {
                    None => {
                        return Ok(None);
                    },
                    Some(t) => {
                        if !value_matches(&regs[rr], t) {
                            return Err(Trap::Defect);
                        }
                        return Ok(Some(clone_value(&regs[rr])));
                    },
                }
            },
            Term::Unreachable => {
                return Err(Trap::Defect);
            },
        }
    }
}

} // verus!
