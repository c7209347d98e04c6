//! Linking: combines per-contract emitted objects into one loadable module.
//! Symbols resolve deterministically in object order; a missing symbol is a
//! fatal link error naming the unresolved symbol, and so is a clash of
//! exported entry-point names.

use crate::cfg::{FuncObj, InitVal, Object};
use crate::types::VTy;
use vstd::prelude::*;

verus! {

/// A fatal link failure, carrying the offending symbol's name.
pub enum LinkError {
    /// A call names a function no object defines.
    Unresolved(String),
    /// Two exported entry points share one name.
    DuplicateExport(String),
}

/// One function of the linked module: its code plus the resolved global
/// index of every symbol it calls and the base of its object's storage.
pub struct LinkedFn {
    pub name: String,
    pub export: bool,
    pub params: Vec<VTy>,
    pub ret: Option<VTy>,
    pub reg_tys: Vec<VTy>,
    pub blocks: Vec<crate::cfg::Block>,
    /// Global function index for each symbol slot of the emitted function.
    pub syms: Vec<usize>,
    pub storage_base: usize,
}

/// A loadable module: functions, exported entry points, and the storage
/// image its startup routine must establish before any export is callable.
pub struct Module {
    pub funcs: Vec<LinkedFn>,
    /// Exported name and global function index, one entry per externally
    /// visible function.
    pub exports: Vec<(String, usize)>,
    pub storage: Vec<(VTy, InitVal)>,
}

/// How many functions the first `upto` objects hold: the global index of
/// object `upto`'s first function in the linked module.
pub open spec fn flat_base(objs: Seq<Object>, upto: int) -> int
    decreases upto,
{
    if upto <= 0 {
        0
    } else {
        flat_base(objs, upto - 1) + if upto <= objs.len() {
            objs[upto - 1].funcs@.len() as int
        } else {
            0
        }
    }
}

/// `flat_base` grows with its bound.
proof fn lemma_flat_base_mono(objs: Seq<Object>, a: int, b: int)
    requires
        a <= b,
    ensures
        flat_base(objs, a) <= flat_base(objs, b),
    decreases b - a,
{
    if a < b {
        lemma_flat_base_mono(objs, a, b - 1);
    }
}

/// Whether symbol `si` of function `fi` of one object names no function of
/// that object: the unresolved-symbol condition.
pub open spec fn symbol_unresolved(obj: Object, fi: int, si: int) -> bool {
    forall|g: int|
        0 <= g < obj.funcs@.len() ==> !((#[trigger] obj.funcs@[g]).contract_no
            == obj.funcs@[fi].symbols@[si].0 && obj.funcs@[g].fn_no
            == obj.funcs@[fi].symbols@[si].1)
}

/// Links emitted objects into one module. Resolution is deterministic: for
/// a fixed object list the same symbols resolve to the same indices. On
/// success the module holds one function per input function, in object
/// order, keeping name, export flag and signature; every export entry
/// indexes a function carrying its name, export names are pairwise
/// distinct, and an error always names a real offender: an `Unresolved`
/// symbol no function of its object defines, or two exported functions
/// sharing one name.
#[verifier::loop_isolation(false)]
pub fn link(objects: Vec<Object>) -> (r: Result<Module, LinkError>)
    ensures
        match r {
            Ok(m) => {
                &&& m.funcs@.len() == flat_base(objects@, objects@.len() as int)
                &&& forall|oi: int, fi: int|
                    #![trigger objects@[oi].funcs@[fi]]
                    0 <= oi < objects@.len() && 0 <= fi < objects@[oi].funcs@.len() ==> 0
                        <= flat_base(objects@, oi) + fi < m.funcs@.len() && m.funcs@[
                        flat_base(objects@, oi) + fi
                    ].name@ == objects@[oi].funcs@[fi].name@ && m.funcs@[
                        flat_base(objects@, oi) + fi
                    ].export == objects@[oi].funcs@[fi].export && m.funcs@[
                        flat_base(objects@, oi) + fi
                    ].ret == objects@[oi].funcs@[fi].ret
                &&& forall|p: int|
                    0 <= p < m.exports@.len() ==> (#[trigger] m.exports@[p]).1 < m.funcs@.len()
                        && m.funcs@[m.exports@[p].1 as int].name@ == m.exports@[p].0@
                        && m.funcs@[m.exports@[p].1 as int].export
                &&& forall|p: int, q: int|
                    0 <= p < m.exports@.len() && 0 <= q < p ==> (#[trigger] m.exports@[p]).0@ != (
                    #[trigger] m.exports@[q]).0@
            },
            Err(LinkError::Unresolved(nm)) => exists|oi: int, fi: int, si: int|
                #![trigger objects@[oi].funcs@[fi].symbols@[si]]
                0 <= oi < objects@.len() && 0 <= fi < objects@[oi].funcs@.len() && 0 <= si
                    < objects@[oi].funcs@[fi].symbols@.len() && symbol_unresolved(
                    objects@[oi],
                    fi,
                    si,
                ) && objects@[oi].funcs@[fi].symbols@[si].2@ == nm@,
            Err(LinkError::DuplicateExport(nm)) => exists|
                oi: int,
                fi: int,
                oj: int,
                fj: int,
            |
                #![trigger objects@[oi].funcs@[fi], objects@[oj].funcs@[fj]]
                0 <= oi < objects@.len() && 0 <= fi < objects@[oi].funcs@.len() && 0 <= oj
                    < objects@.len() && 0 <= fj < objects@[oj].funcs@.len() && (oi < oj || (oi
                    == oj && fi < fj)) && objects@[oi].funcs@[fi].export && objects@[
                    oj
                ].funcs@[fj].export && objects@[oi].funcs@[fi].name@ == nm@ && objects@[
                    oj
                ].funcs@[fj].name@ == nm@,
        },
{
    // global function table: (object position, contract, function index)
    let mut ftab: Vec<(usize, usize, usize)> = Vec::new();
    let mut bases: Vec<usize> = Vec::new();
    let mut storage: Vec<(VTy, InitVal)> = Vec::new();
    let mut oi: usize = 0;
    while oi < objects.len()
        invariant
            bases@.len() == oi,
            0 <= oi <= objects@.len(),
            ftab@.len() == flat_base(objects@, oi as int),
            forall|o2: int, f2: int|
                #![trigger objects@[o2].funcs@[f2]]
                0 <= o2 < oi && 0 <= f2 < objects@[o2].funcs@.len() ==> 0 <= flat_base(
                    objects@,
                    o2,
                ) + f2 < ftab@.len() && ftab@[
                    flat_base(objects@, o2) + f2
                ] == (o2 as usize, objects@[o2].funcs@[f2].contract_no, objects@[
                    o2
                ].funcs@[f2].fn_no),
        decreases objects@.len() - oi,
    {
        bases.push(storage.len());
        let mut fi: usize = 0;
        while fi < objects[oi].funcs.len()
            invariant
                oi < objects@.len(),
                0 <= fi <= objects@[oi as int].funcs@.len(),
                ftab@.len() == flat_base(objects@, oi as int) + fi,
                forall|o2: int, f2: int|
                    #![trigger objects@[o2].funcs@[f2]]
                    0 <= o2 < oi && 0 <= f2 < objects@[o2].funcs@.len() ==> 0 <= flat_base(
                        objects@,
                        o2,
                    ) + f2 < ftab@.len() && ftab@[
                        flat_base(objects@, o2) + f2
                    ] == (o2 as usize, objects@[o2].funcs@[f2].contract_no, objects@[
                        o2
                    ].funcs@[f2].fn_no),
                forall|f2: int|
                    0 <= f2 < fi ==> ftab@[flat_base(objects@, oi as int) + f2] == (
                        oi,
                        (#[trigger] objects@[oi as int].funcs@[f2]).contract_no,
                        objects@[oi as int].funcs@[f2].fn_no,
                    ),
            decreases objects@[oi as int].funcs@.len() - fi,
        {
            ftab.push((oi, objects[oi].funcs[fi].contract_no, objects[oi].funcs[fi].fn_no));
            fi = fi + 1;
        }
        let mut si: usize = 0;
        while si < objects[oi].storage.len()
            invariant
                oi < objects@.len(),
            decreases objects@[oi as int].storage@.len() - si,
        {
            let (t, iv) = match &objects[oi].storage[si] {
                (t, InitVal::Zero) => (*t, InitVal::Zero),
                (t, InitVal::Bool(bv)) => (*t, InitVal::Bool(*bv)),
                (t, InitVal::Int(v)) => {
                    let mut lv: Vec<u32> = Vec::new();
                    let mut li: usize = 0;
                    while li < v.len()
                        decreases v@.len() - li,
                    {
                        lv.push(v[li]);
                        li = li + 1;
                    }
                    (*t, InitVal::Int(lv))
                },
            };
            storage.push((t, iv));
            si = si + 1;
        }
        oi = oi + 1;
    }

    // resolve: each symbol of each function must name a function of the
    // same object (a call resolved through the inheritance chain), found by
    // its (contract, function) identity
    let mut funcs: Vec<LinkedFn> = Vec::new();
    let mut exports: Vec<(String, usize)> = Vec::new();
    // ghost record of each export's source function, for the error witnesses
    let ghost mut srcs: Seq<(int, int)> = Seq::empty();
    let mut oi2: usize = 0;
    while oi2 < objects.len()
        invariant
            0 <= oi2 <= objects@.len(),
            funcs@.len() == flat_base(objects@, oi2 as int),
            forall|o2: int, f2: int|
                #![trigger objects@[o2].funcs@[f2]]
                0 <= o2 < oi2 && 0 <= f2 < objects@[o2].funcs@.len() ==> 0 <= flat_base(
                    objects@,
                    o2,
                ) + f2 < funcs@.len() && funcs@[
                    flat_base(objects@, o2) + f2
                ].name@ == objects@[o2].funcs@[f2].name@ && funcs@[
                    flat_base(objects@, o2) + f2
                ].export == objects@[o2].funcs@[f2].export && funcs@[
                    flat_base(objects@, o2) + f2
                ].ret == objects@[o2].funcs@[f2].ret,
            forall|p: int|
                0 <= p < exports@.len() ==> (#[trigger] exports@[p]).1 < funcs@.len()
                    && funcs@[exports@[p].1 as int].name@ == exports@[p].0@
                    && funcs@[exports@[p].1 as int].export,
            forall|p: int, q: int|
                0 <= p < exports@.len() && 0 <= q < p ==> (#[trigger] exports@[p]).0@ != (
                #[trigger] exports@[q]).0@,
            srcs.len() == exports@.len(),
            forall|p: int|
                0 <= p < srcs.len() ==> 0 <= (#[trigger] srcs[p]).0 < objects@.len() && 0
                    <= srcs[p].1 < objects@[srcs[p].0].funcs@.len() && objects@[
                    srcs[p].0
                ].funcs@[srcs[p].1].export && objects@[srcs[p].0].funcs@[srcs[p].1].name@
                    == exports@[p].0@ && flat_base(objects@, srcs[p].0) + srcs[p].1
                    == exports@[p].1,
        decreases objects@.len() - oi2,
    {
        let mut fi: usize = 0;
        while fi < objects[oi2].funcs.len()
            invariant
                oi2 < objects@.len(),
                0 <= fi <= objects@[oi2 as int].funcs@.len(),
                funcs@.len() == flat_base(objects@, oi2 as int) + fi,
                forall|o2: int, f2: int|
                    #![trigger objects@[o2].funcs@[f2]]
                    0 <= o2 < oi2 && 0 <= f2 < objects@[o2].funcs@.len() ==> 0 <= flat_base(
                        objects@,
                        o2,
                    ) + f2 < funcs@.len() && funcs@[
                        flat_base(objects@, o2) + f2
                    ].name@ == objects@[o2].funcs@[f2].name@ && funcs@[
                        flat_base(objects@, o2) + f2
                    ].export == objects@[o2].funcs@[f2].export && funcs@[
                        flat_base(objects@, o2) + f2
                    ].ret == objects@[o2].funcs@[f2].ret,
                forall|f2: int|
                    0 <= f2 < fi ==> funcs@[flat_base(objects@, oi2 as int) + f2].name@ == (
                    #[trigger] objects@[oi2 as int].funcs@[f2]).name@ && funcs@[
                        flat_base(objects@, oi2 as int) + f2
                    ].export == objects@[oi2 as int].funcs@[f2].export && funcs@[
                        flat_base(objects@, oi2 as int) + f2
                    ].ret == objects@[oi2 as int].funcs@[f2].ret,
                forall|p: int|
                    0 <= p < exports@.len() ==> (#[trigger] exports@[p]).1 < funcs@.len()
                        && funcs@[exports@[p].1 as int].name@ == exports@[p].0@
                        && funcs@[exports@[p].1 as int].export,
                forall|p: int, q: int|
                    0 <= p < exports@.len() && 0 <= q < p ==> (#[trigger] exports@[p]).0@ != (
                    #[trigger] exports@[q]).0@,
                srcs.len() == exports@.len(),
                forall|p: int|
                    0 <= p < srcs.len() ==> 0 <= (#[trigger] srcs[p]).0 < objects@.len() && 0
                        <= srcs[p].1 < objects@[srcs[p].0].funcs@.len() && objects@[
                        srcs[p].0
                    ].funcs@[srcs[p].1].export && objects@[srcs[p].0].funcs@[srcs[p].1].name@
                        == exports@[p].0@ && flat_base(objects@, srcs[p].0) + srcs[p].1
                        == exports@[p].1,
            decreases objects@[oi2 as int].funcs@.len() - fi,
        {
            let f = &objects[oi2].funcs[fi];
            // resolve this function's symbols
            let mut syms: Vec<usize> = Vec::new();
            let mut si: usize = 0;
            while si < f.symbols.len()
                invariant
                    0 <= si <= f.symbols@.len(),
                decreases f.symbols@.len() - si,
            {
                let (c, fno, nm) = &f.symbols[si];
                let mut found: Option<usize> = None;
                let mut ti: usize = 0;
                while ti < ftab.len() && found.is_none()
                    invariant
                        0 <= ti <= ftab@.len(),
                        found is None ==> forall|t: int|
                            0 <= t < ti ==> !((#[trigger] ftab@[t]).0 == oi2 && ftab@[t].1 == *c
                                && ftab@[t].2 == *fno),
                    decreases ftab@.len() - ti,
                {
                    if ftab[ti].0 == oi2 && ftab[ti].1 == *c && ftab[ti].2 == *fno {
                        found = Some(ti);
                    }
                    ti = ti + 1;
                }
                match found {
                    Some(g) => syms.push(g),
                    None => {
                        proof {
                            // every function of this object stands in the
                            // table and none of them matched the symbol
                            assert forall|g: int|
                                0 <= g < objects@[oi2 as int].funcs@.len() implies !((
                            #[trigger] objects@[oi2 as int].funcs@[g]).contract_no
                                == objects@[oi2 as int].funcs@[fi as int].symbols@[si as int].0
                                && objects@[oi2 as int].funcs@[g].fn_no == objects@[
                                oi2 as int
                            ].funcs@[fi as int].symbols@[si as int].1) by {
                                let t = flat_base(objects@, oi2 as int) + g;
                                lemma_flat_base_mono(objects@, oi2 as int + 1, objects@.len() as int);
                                assert(ftab@[t] == (
                                    oi2,
                                    objects@[oi2 as int].funcs@[g].contract_no,
                                    objects@[oi2 as int].funcs@[g].fn_no,
                                ));
                            }
                            assert(symbol_unresolved(objects@[oi2 as int], fi as int, si as int));
                        }
                        return Err(LinkError::Unresolved(nm.clone()));
                    },
                }
                si = si + 1;
            }
            // record the export, refusing a second entry point of one name
            if f.export {
                let mut xi: usize = 0;
                while xi < exports.len()
                    invariant
                        0 <= xi <= exports@.len(),
                        forall|p: int|
                            0 <= p < xi ==> (#[trigger] exports@[p]).0@ != f.name@,
                    decreases exports@.len() - xi,
                {
                    if exports[xi].0 == f.name {
                        proof {
                            // the earlier export's source function and this
                            // one are distinct exported functions sharing
                            // the name: its global index lies strictly
                            // before this function's
                            let (o2, f2) = srcs[xi as int];
                            assert(flat_base(objects@, o2) + f2 == exports@[xi as int].1);
                            assert(exports@[xi as int].1 < funcs@.len());
                            assert(funcs@.len() == flat_base(objects@, oi2 as int) + fi);
                            if o2 > oi2 as int {
                                lemma_flat_base_mono(objects@, oi2 as int + 1, o2);
                                assert(flat_base(objects@, oi2 as int + 1) == flat_base(
                                    objects@,
                                    oi2 as int,
                                ) + objects@[oi2 as int].funcs@.len());
                                assert(false);
                            }
                            assert(o2 < oi2 as int || (o2 == oi2 as int && f2 < fi as int));
                            assert(objects@[o2].funcs@[f2].name@ == f.name@);
                            assert(objects@[oi2 as int].funcs@[fi as int].export);
                        }
                        return Err(LinkError::DuplicateExport(f.name.clone()));
                    }
                    xi = xi + 1;
                }
                exports.push((f.name.clone(), funcs.len()));
                proof {
                    srcs = srcs.push((oi2 as int, fi as int));
                }
            }
            // copy the code into the module
            let mut reg_tys: Vec<VTy> = Vec::new();
            let mut ri: usize = 0;
            while ri < f.reg_tys.len()
                invariant
                    oi2 < objects@.len(),
                    fi < objects@[oi2 as int].funcs@.len(),
                    f == objects@[oi2 as int].funcs@[fi as int],
                decreases f.reg_tys@.len() - ri,
            {
                reg_tys.push(f.reg_tys[ri]);
                ri = ri + 1;
            }
            let mut params: Vec<VTy> = Vec::new();
            let mut pi: usize = 0;
            while pi < f.params.len()
                invariant
                    oi2 < objects@.len(),
                    fi < objects@[oi2 as int].funcs@.len(),
                    f == objects@[oi2 as int].funcs@[fi as int],
                decreases f.params@.len() - pi,
            {
                params.push(f.params[pi]);
                pi = pi + 1;
            }
            let blocks = crate::cfg::copy_blocks(&f.blocks);
            funcs.push(
                LinkedFn {
                    name: f.name.clone(),
                    export: f.export,
                    params,
                    ret: f.ret,
                    reg_tys,
                    blocks,
                    syms,
                    storage_base: bases[oi2],
                },
            );
            fi = fi + 1;
        }
        oi2 = oi2 + 1;
    }
    Ok(Module { funcs, exports, storage })
}

} // verus!
