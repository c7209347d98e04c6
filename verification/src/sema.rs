//! The namespace builder: resolves syntax trees into a `Namespace`,
//! deduplicating declarations by source location, typing every field and
//! expression, aligning documentation tags with field positions, resolving
//! calls to overloads, and collecting diagnostics instead of aborting.

use crate::ast::{AstType, DocTag, Expr, SourceUnit, Stmt, Visibility};
use crate::bases::{bases_in_range, has_base_cycle, spec_reaches, visit_bases_of};
use crate::diag::{any_fatal, Diagnostic, Level, Loc};
use crate::namespace::{
    BinOp, CmpOp, Contract, ContractVariable, EnumDecl, EventDecl, Namespace, Parameter,
    RExpr, ResolvedFn, RStmt, StructDecl, Tag, VarRef,
};
use crate::types::{can_convert, Type, VTy};
use vstd::prelude::*;

verus! {

broadcast use vstd::seq_lib::group_seq_properties;

/// Positions of enum values are in range and pairwise distinct: together
/// with the count this means they cover `0..K` exactly once.
pub open spec fn positions_ok(values: Seq<(String, usize)>) -> bool {
    (forall|i: int| 0 <= i < values.len() ==> (#[trigger] values[i]).1 < values.len())
        && (forall|i: int, j: int|
        0 <= i < values.len() && 0 <= j < values.len() && i != j ==> (#[trigger] values[i]).1 != (
        #[trigger] values[j]).1)
}

/// Decides `positions_ok`.
pub fn check_enum_positions(values: &Vec<(String, usize)>) -> (r: bool)
    ensures
        r == positions_ok(values@),
{
    let n = values.len();
    let mut i: usize = 0;
    while i < n
        invariant
            n == values@.len(),
            0 <= i <= n,
            forall|p: int| 0 <= p < i ==> (#[trigger] values@[p]).1 < n,
            forall|p: int, q: int|
                0 <= p < i && 0 <= q < p ==> (#[trigger] values@[p]).1 != (
                #[trigger] values@[q]).1,
        decreases n - i,
    {
        if values[i].1 >= n {
            return false;
        }
        let mut j: usize = 0;
        while j < i
            invariant
                n == values@.len(),
                0 <= j <= i < n,
                forall|q: int| 0 <= q < j ==> (#[trigger] values@[q]).1 != values@[i as int].1,
            decreases i - j,
        {
            if values[j].1 == values[i].1 {
                return false;
            }
            j = j + 1;
        }
        i = i + 1;
    }
    true
}

/// Whether a documentation tag is well formed for a declaration with
/// `nfields` fields: a `param` tag must address an existing field position.
pub open spec fn spec_tag_ok(t: DocTag, nfields: nat) -> bool {
    t.tag@ != "param"@ || (t.no as nat) < nfields
}

/// The tags the builder keeps, in order, dropping malformed `param` tags.
pub open spec fn spec_kept_tags(tags: Seq<DocTag>, nfields: nat) -> Seq<Tag>
    decreases tags.len(),
{
    if tags.len() == 0 {
        Seq::empty()
    } else {
        let rest = spec_kept_tags(tags.drop_last(), nfields);
        let t = tags.last();
        if spec_tag_ok(t, nfields) {
            rest.push(Tag { tag: t.tag, no: t.no, value: t.value })
        } else {
            rest
        }
    }
}

/// How many tags are malformed and must each produce a diagnostic.
pub open spec fn spec_dropped_count(tags: Seq<DocTag>, nfields: nat) -> nat
    decreases tags.len(),
{
    if tags.len() == 0 {
        0
    } else {
        spec_dropped_count(tags.drop_last(), nfields) + if spec_tag_ok(tags.last(), nfields) {
            0
        } else {
            1nat
        }
    }
}

/// A well-formed `param` tag with index `i` is kept, attached at occurrence
/// index `i`: tags align to field position by index, never by tag order.
pub proof fn lemma_param_tag_alignment(tags: Seq<DocTag>, nfields: nat, i: int)
    requires
        0 <= i < tags.len(),
        tags[i].tag@ == "param"@,
        (tags[i].no as nat) < nfields,
    ensures
        spec_kept_tags(tags, nfields).contains(
            Tag { tag: tags[i].tag, no: tags[i].no, value: tags[i].value },
        ),
    decreases tags.len(),
{
    let t = Tag { tag: tags[i].tag, no: tags[i].no, value: tags[i].value };
    if i == tags.len() - 1 {
        assert(spec_tag_ok(tags.last(), nfields));
        let rest = spec_kept_tags(tags.drop_last(), nfields);
        assert(rest.push(t)[rest.len() as int] == t);
    } else {
        assert(tags.drop_last()[i] == tags[i]);
        lemma_param_tag_alignment(tags.drop_last(), nfields, i);
        let rest = spec_kept_tags(tags.drop_last(), nfields);
        let q = choose|q: int| 0 <= q < rest.len() && rest[q] == t;
        if spec_tag_ok(tags.last(), nfields) {
            assert(rest.push(Tag { tag: tags.last().tag, no: tags.last().no, value: tags.last().value })[q] == t);
        }
    }
}

/// Resolves the documentation tags of one declaration with `nfields`
/// fields. Malformed `param` tags (index at or beyond the field count) are
/// each reported as an error diagnostic, never dropped silently.
pub fn resolve_tags(
    tags: &Vec<DocTag>,
    nfields: usize,
    loc: Loc,
    diags: &mut Vec<Diagnostic>,
) -> (out: Vec<Tag>)
    ensures
        out@ == spec_kept_tags(tags@, nfields as nat),
        final(diags)@.len() == old(diags)@.len() + spec_dropped_count(tags@, nfields as nat),
        forall|p: int| 0 <= p < old(diags)@.len() ==> final(diags)@[p] == old(diags)@[p],
        forall|p: int|
            old(diags)@.len() <= p < final(diags)@.len() ==> (#[trigger] final(diags)@[p]).level
                == Level::Error,
{
    let param_key: String = "param".to_owned();
    let mut out: Vec<Tag> = Vec::new();
    let mut i: usize = 0;
    proof {
        assert(tags@.take(0) =~= Seq::<DocTag>::empty());
    }
    while i < tags.len()
        invariant
            0 <= i <= tags@.len(),
            param_key@ == "param"@,
            out@ == spec_kept_tags(tags@.take(i as int), nfields as nat),
            diags@.len() == old(diags)@.len() + spec_dropped_count(
                tags@.take(i as int),
                nfields as nat,
            ),
            forall|p: int| 0 <= p < old(diags)@.len() ==> diags@[p] == old(diags)@[p],
            forall|p: int|
                old(diags)@.len() <= p < diags@.len() ==> (#[trigger] diags@[p]).level
                    == Level::Error,
        decreases tags@.len() - i,
    {
        proof {
            assert(tags@.take(i as int + 1).drop_last() =~= tags@.take(i as int));
            assert(tags@.take(i as int + 1).last() == tags@[i as int]);
        }
        let t = &tags[i];
        if t.tag == param_key && t.no >= nfields {
            diags.push(Diagnostic::error(loc, "param tag index exceeds field count".to_owned()));
        } else {
            out.push(Tag { tag: t.tag.clone(), no: t.no, value: t.value.clone() });
        }
        i = i + 1;
    }
    proof {
        assert(tags@.take(tags@.len() as int) =~= tags@);
    }
    out
}

/// The value type of a resolved type, where one exists.
pub fn vty_of_type(t: &Type) -> (r: Option<VTy>)
    ensures
        match *t {
            Type::Bool => r == Some(VTy::Bool),
            Type::Uint(w) => r == Some(VTy::Uint(w)),
            _ => r is None,
        },
{
    match t {
        Type::Bool => Some(VTy::Bool),
        Type::Uint(w) => Some(VTy::Uint(*w)),
        _ => None,
    }
}

/// Resolves a written type against the declarations collected so far; an
/// unknown name is reported and becomes the unresolved placeholder.
pub fn resolve_ast_type(
    t: &AstType,
    enums: &Vec<EnumDecl>,
    structs: &Vec<StructDecl>,
    contract_names: &Vec<String>,
    loc: Loc,
    diags: &mut Vec<Diagnostic>,
) -> (r: Type)
    ensures
        final(diags)@.len() >= old(diags)@.len(),
        forall|p: int| 0 <= p < old(diags)@.len() ==> final(diags)@[p] == old(diags)@[p],
        r == Type::Unresolved ==> final(diags)@.len() > old(diags)@.len(),
{
    match t {
        AstType::Bool => Type::Bool,
        AstType::Uint(w) => {
            if *w >= 32 && *w <= 256 && *w % 32 == 0 {
                Type::Uint(*w)
            } else {
                diags.push(Diagnostic::error(loc, "unsupported integer width".to_owned()));
                Type::Unresolved
            }
        },
        AstType::Named(name) => {
            let mut i: usize = 0;
            while i < enums.len()
                invariant
                    0 <= i <= enums@.len(),
                decreases enums@.len() - i,
            {
                if enums[i].name == *name {
                    return Type::Enum(i);
                }
                i = i + 1;
            }
            let mut j: usize = 0;
            while j < structs.len()
                invariant
                    0 <= j <= structs@.len(),
                decreases structs@.len() - j,
            {
                if structs[j].name == *name {
                    return Type::Struct(j);
                }
                j = j + 1;
            }
            match find_name(contract_names, name) {
                Some(c) => Type::Contract(c),
                None => {
                    diags.push(Diagnostic::error(loc, "unresolved type name".to_owned()));
                    Type::Unresolved
                },
            }
        },
    }
}

/// Whether an overload can take the argument types: same name, same count,
/// every argument implicitly convertible to the parameter.
pub open spec fn candidate_matches(f: ResolvedFn, name: Seq<char>, args: Seq<VTy>) -> bool {
    f.name@ == name && f.params@.len() == args.len() && forall|k: int|
        0 <= k < args.len() ==> crate::types::implicitly_convertible(
            args[k],
            #[trigger] f.params@[k],
        )
}

/// Whether an overload takes the argument types with no widening at all.
pub open spec fn exact_matches(f: ResolvedFn, name: Seq<char>, args: Seq<VTy>) -> bool {
    f.name@ == name && f.params@ == args
}

/// Decides whether one overload accepts the call, exactly or with widening.
fn fn_matches(f: &ResolvedFn, name: &String, args: &Vec<VTy>, exact: bool) -> (r: bool)
    ensures
        exact ==> r == exact_matches(*f, name@, args@),
        !exact ==> r == candidate_matches(*f, name@, args@),
{
    if !(f.name == *name) {
        return false;
    }
    if f.params.len() != args.len() {
        proof {
            assert(f.params@ != args@);
        }
        return false;
    }
    let mut k: usize = 0;
    while k < args.len()
        invariant
            f.params@.len() == args@.len(),
            0 <= k <= args@.len(),
            exact ==> forall|p: int| 0 <= p < k ==> args@[p] == (#[trigger] f.params@[p]),
            !exact ==> forall|p: int|
                0 <= p < k ==> crate::types::implicitly_convertible(
                    args@[p],
                    #[trigger] f.params@[p],
                ),
        decreases args@.len() - k,
    {
        if exact {
            if !(args[k] == f.params[k]) {
                proof {
                    assert(f.params@ != args@);
                }
                return false;
            }
        } else {
            if !can_convert(&args[k], &f.params[k]) {
                return false;
            }
        }
        k = k + 1;
    }
    proof {
        if exact {
            assert(f.params@ =~= args@);
        }
    }
    true
}

/// Resolves a call to one overload among the functions visible through the
/// linearized inheritance order (most-derived first). Overloads needing no
/// widening win over ones needing widening; among those, the most-derived
/// declaration wins; two candidates in one contract are ambiguous and are
/// reported, never picked silently. Failure is owed only to a call no
/// visible overload accepts, or to such an ambiguity; and a widening
/// overload is picked only when no visible overload matches exactly.
pub fn resolve_call(
    contracts: &Vec<Contract>,
    order: &Vec<usize>,
    name: &String,
    args: &Vec<VTy>,
    loc: Loc,
    diags: &mut Vec<Diagnostic>,
) -> (r: Result<(usize, usize), ()>)
    requires
        forall|p: int| 0 <= p < order@.len() ==> (#[trigger] order@[p]) < contracts@.len(),
    ensures
        match r {
            Ok((c, f)) => order@.contains(c) && f < contracts@[c as int].functions@.len()
                && candidate_matches(contracts@[c as int].functions@[f as int], name@, args@) && (
            !exact_matches(contracts@[c as int].functions@[f as int], name@, args@)
                ==> forall|p: int, g: int|
                #![trigger contracts@[order@[p] as int].functions@[g]]
                0 <= p < order@.len() && 0 <= g < contracts@[order@[p] as int].functions@.len()
                    ==> !exact_matches(
                    contracts@[order@[p] as int].functions@[g],
                    name@,
                    args@,
                )),
            Err(()) => final(diags)@.len() > old(diags)@.len() && ((forall|p: int, g: int|
                #![trigger contracts@[order@[p] as int].functions@[g]]
                0 <= p < order@.len() && 0 <= g < contracts@[order@[p] as int].functions@.len()
                    ==> !candidate_matches(
                    contracts@[order@[p] as int].functions@[g],
                    name@,
                    args@,
                )) || (exists|p: int, g1: int, g2: int|
                0 <= p < order@.len() && 0 <= g1 < contracts@[order@[p] as int].functions@.len()
                    && 0 <= g2 < contracts@[order@[p] as int].functions@.len() && g1 != g2
                    && candidate_matches(
                    #[trigger] contracts@[order@[p] as int].functions@[g1],
                    name@,
                    args@,
                ) && candidate_matches(
                    #[trigger] contracts@[order@[p] as int].functions@[g2],
                    name@,
                    args@,
                ))),
        },
        forall|p: int| 0 <= p < old(diags)@.len() ==> final(diags)@[p] == old(diags)@[p],
{
    let mut exact: bool = true;
    loop
        invariant
            forall|p: int| 0 <= p < order@.len() ==> (#[trigger] order@[p]) < contracts@.len(),
            forall|p: int| 0 <= p < old(diags)@.len() ==> diags@[p] == old(diags)@[p],
            diags@.len() >= old(diags)@.len(),
            !exact ==> forall|p: int, g: int|
                #![trigger contracts@[order@[p] as int].functions@[g]]
                0 <= p < order@.len() && 0 <= g < contracts@[order@[p] as int].functions@.len()
                    ==> !exact_matches(contracts@[order@[p] as int].functions@[g], name@, args@),
        decreases (if exact {
            1int
        } else {
            0int
        }),
    {
        let mut oi: usize = 0;
        while oi < order.len()
            invariant
                forall|p: int| 0 <= p < order@.len() ==> (#[trigger] order@[p]) < contracts@.len(),
                forall|p: int| 0 <= p < old(diags)@.len() ==> diags@[p] == old(diags)@[p],
                diags@.len() >= old(diags)@.len(),
                0 <= oi <= order@.len(),
                !exact ==> forall|p: int, g: int|
                    #![trigger contracts@[order@[p] as int].functions@[g]]
                    0 <= p < order@.len() && 0 <= g < contracts@[order@[p] as int].functions@.len()
                        ==> !exact_matches(
                        contracts@[order@[p] as int].functions@[g],
                        name@,
                        args@,
                    ),
                forall|p: int, g: int|
                    #![trigger contracts@[order@[p] as int].functions@[g]]
                    0 <= p < oi && 0 <= g < contracts@[order@[p] as int].functions@.len() ==> (
                    exact ==> !exact_matches(
                        contracts@[order@[p] as int].functions@[g],
                        name@,
                        args@,
                    )) && (!exact ==> !candidate_matches(
                        contracts@[order@[p] as int].functions@[g],
                        name@,
                        args@,
                    )),
            decreases order@.len() - oi,
        {
            let c = order[oi];
            let fns = &contracts[c].functions;
            let mut found: usize = 0;
            let mut found2: usize = 0;
            let mut count: usize = 0;
            let mut fi: usize = 0;
            while fi < fns.len()
                invariant
                    fns@ == contracts@[c as int].functions@,
                    0 <= fi <= fns@.len(),
                    count <= fi,
                    count == 0 ==> forall|g: int|
                        0 <= g < fi ==> (exact ==> !exact_matches(
                            #[trigger] fns@[g],
                            name@,
                            args@,
                        )) && (!exact ==> !candidate_matches(fns@[g], name@, args@)),
                    count > 0 ==> found < fi && candidate_matches(
                        fns@[found as int],
                        name@,
                        args@,
                    ),
                    exact && count > 0 ==> exact_matches(fns@[found as int], name@, args@),
                    count > 1 ==> found2 < fi && found != found2 && candidate_matches(
                        fns@[found2 as int],
                        name@,
                        args@,
                    ),
                decreases fns@.len() - fi,
            {
                if fn_matches(&fns[fi], name, args, exact) {
                    proof {
                        if exact {
                            // an exact signature converts to itself
                            assert forall|k: int|
                                0 <= k < args@.len() implies crate::types::implicitly_convertible(
                                args@[k],
                                #[trigger] fns@[fi as int].params@[k],
                            ) by {
                                assert(fns@[fi as int].params@[k] == args@[k]);
                            }
                            assert(candidate_matches(fns@[fi as int], name@, args@));
                        }
                    }
                    if count == 0 {
                        found = fi;
                    } else if count == 1 {
                        found2 = fi;
                    }
                    count = count + 1;
                }
                fi = fi + 1;
            }
            if count == 1 {
                proof {
                    assert(order@[oi as int] == c);
                    assert(order@.contains(c));
                }
                return Ok((c, found));
            }
            if count > 1 {
                diags.push(Diagnostic::error(loc, "ambiguous call to overloaded function".to_owned()));
                proof {
                    assert(candidate_matches(
                        contracts@[order@[oi as int] as int].functions@[found as int],
                        name@,
                        args@,
                    ));
                    assert(candidate_matches(
                        contracts@[order@[oi as int] as int].functions@[found2 as int],
                        name@,
                        args@,
                    ));
                }
                return Err(());
            }
            oi = oi + 1;
        }
        if !exact {
            diags.push(Diagnostic::error(loc, "no overload accepts these arguments".to_owned()));
            return Err(());
        }
        exact = false;
    }
}

/// Finds the innermost local with the given name; shadowing picks the
/// latest declaration.
fn find_local(local_names: &Vec<String>, locals: &Vec<VTy>, name: &String) -> (r: Option<
    (usize, VTy),
>)
    requires
        local_names@.len() == locals@.len(),
    ensures
        match r {
            Some((s, _)) => s < locals@.len(),
            None => true,
        },
{
    let mut i: usize = local_names.len();
    while i > 0
        invariant
            local_names@.len() == locals@.len(),
            0 <= i <= locals@.len(),
        decreases i,
    {
        i = i - 1;
        if local_names[i] == *name {
            return Some((i, locals[i]));
        }
    }
    None
}

/// Finds a contract variable visible through the linearized order.
fn find_var(contracts: &Vec<Contract>, order: &Vec<usize>, name: &String) -> (r: Option<
    (usize, usize),
>)
    requires
        forall|p: int| 0 <= p < order@.len() ==> (#[trigger] order@[p]) < contracts@.len(),
    ensures
        match r {
            Some((c, v)) => c < contracts@.len() && v < contracts@[c as int].variables@.len(),
            None => true,
        },
{
    let mut oi: usize = 0;
    while oi < order.len()
        invariant
            forall|p: int| 0 <= p < order@.len() ==> (#[trigger] order@[p]) < contracts@.len(),
            0 <= oi <= order@.len(),
        decreases order@.len() - oi,
    {
        let c = order[oi];
        let vars = &contracts[c].variables;
        let mut vi: usize = 0;
        while vi < vars.len()
            invariant
                vars@ == contracts@[c as int].variables@,
                c < contracts@.len(),
                0 <= vi <= vars@.len(),
            decreases vars@.len() - vi,
        {
            if vars[vi].name == *name {
                return Some((c, vi));
            }
            vi = vi + 1;
        }
        oi = oi + 1;
    }
    None
}

/// Copies a literal resolved expression; non-literals yield `None`.
fn clone_literal(e: &RExpr) -> (r: Option<RExpr>)
{
    match e {
        RExpr::Bool(b) => Some(RExpr::Bool(*b)),
        RExpr::Number(w, limbs) => {
            let mut v: Vec<u32> = Vec::new();
            let mut i: usize = 0;
            while i < limbs.len()
                decreases limbs@.len() - i,
            {
                v.push(limbs[i]);
                i = i + 1;
            }
            Some(RExpr::Number(*w, v))
        },
        _ => None,
    }
}

/// Widens an expression to the target type where the implicit rule allows;
/// anything else is a reported error, never a silent truncation.
fn convert_expr(
    re: RExpr,
    from: VTy,
    to: VTy,
    loc: Loc,
    diags: &mut Vec<Diagnostic>,
) -> (r: Result<RExpr, ()>)
{
    match (from, to) {
        (VTy::Bool, VTy::Bool) => Ok(re),
        (VTy::Uint(a), VTy::Uint(b)) => {
            if a == b {
                Ok(re)
            } else if a < b {
                Ok(RExpr::Widen(b, Box::new(re)))
            } else {
                diags.push(Diagnostic::error(loc, "implicit narrowing is not allowed".to_owned()));
                Err(())
            }
        },
        _ => {
            diags.push(Diagnostic::error(loc, "type mismatch".to_owned()));
            Err(())
        },
    }
}

/// Brings two integer operands to one width by widening the narrower.
fn unify_ints(
    a: RExpr,
    ta: VTy,
    b: RExpr,
    tb: VTy,
    loc: Loc,
    diags: &mut Vec<Diagnostic>,
) -> (r: Result<(RExpr, RExpr, u32), ()>)
{
    match (ta, tb) {
        (VTy::Uint(wa), VTy::Uint(wb)) => {
            if wa == wb {
                Ok((a, b, wa))
            } else if wa < wb {
                Ok((RExpr::Widen(wb, Box::new(a)), b, wb))
            } else {
                Ok((a, RExpr::Widen(wa, Box::new(b)), wa))
            }
        },
        _ => {
            diags.push(Diagnostic::error(loc, "arithmetic needs integer operands".to_owned()));
            Err(())
        },
    }
}

/// Resolves an expression, assigning it a type; `None` is a call to a
/// function without a return value.
fn resolve_expr(
    e: &Expr,
    contracts: &Vec<Contract>,
    order: &Vec<usize>,
    local_names: &Vec<String>,
    locals: &Vec<VTy>,
    loc: Loc,
    diags: &mut Vec<Diagnostic>,
) -> (r: Result<(RExpr, Option<VTy>), ()>)
    requires
        forall|p: int| 0 <= p < order@.len() ==> (#[trigger] order@[p]) < contracts@.len(),
        local_names@.len() == locals@.len(),
    decreases *e, 1nat,
{
    match e {
        Expr::BoolLiteral(b) => Ok((RExpr::Bool(*b), Some(VTy::Bool))),
        Expr::NumberLiteral(v) => {
            let mut n: usize = v.len();
            while n > 1 && v[n - 1] == 0
                invariant
                    1 <= n <= v@.len() || (v@.len() == 0 && n == 0),
                decreases n,
            {
                n = n - 1;
            }
            if n > 8 {
                diags.push(Diagnostic::error(loc, "number literal exceeds 256 bits".to_owned()));
                return Err(());
            }
            let mut limbs: Vec<u32> = Vec::new();
            let mut i: usize = 0;
            while i < n
                invariant
                    n <= v@.len(),
                    0 <= i <= n,
                    limbs@.len() == i,
                decreases n - i,
            {
                limbs.push(v[i]);
                i = i + 1;
            }
            if limbs.len() == 0 {
                limbs.push(0);
            }
            let w: u32 = (limbs.len() as u32) * 32;
            Ok((RExpr::Number(w, limbs), Some(VTy::Uint(w))))
        },
        Expr::Variable(name) => {
            match find_local(local_names, locals, name) {
                Some((slot, t)) => Ok((RExpr::Local(slot, t), Some(t))),
                None => match find_var(contracts, order, name) {
                    Some((c, v)) => {
                        let var = &contracts[c].variables[v];
                        match vty_of_type(&var.ty) {
                            Some(t) => {
                                if var.constant {
                                    match &var.initializer {
                                        Some(init) => match clone_literal(init) {
                                            Some(lit) => Ok((lit, Some(t))),
                                            None => {
                                                diags.push(Diagnostic::error(loc, "constant has no literal value".to_owned()));
                                                Err(())
                                            },
                                        },
                                        None => {
                                            diags.push(Diagnostic::error(loc, "constant has no value".to_owned()));
                                            Err(())
                                        },
                                    }
                                } else {
                                    Ok((RExpr::StorageLoad(c, v, t), Some(t)))
                                }
                            },
                            None => {
                                diags.push(Diagnostic::error(loc, "variable type not usable in expressions".to_owned()));
                                Err(())
                            },
                        }
                    },
                    None => {
                        diags.push(Diagnostic::error(loc, "undeclared variable".to_owned()));
                        Err(())
                    },
                },
            }
        },
        Expr::Add(l, rr) => {
            let (a, ta, b, tb) = resolve_two(e, l, rr, contracts, order, local_names, locals, loc, diags)?;
            mk_arith(BinOp::Add, a, ta, b, tb, loc, diags)
        },
        Expr::Sub(l, rr) => {
            let (a, ta, b, tb) = resolve_two(e, l, rr, contracts, order, local_names, locals, loc, diags)?;
            mk_arith(BinOp::Sub, a, ta, b, tb, loc, diags)
        },
        Expr::Mul(l, rr) => {
            let (a, ta, b, tb) = resolve_two(e, l, rr, contracts, order, local_names, locals, loc, diags)?;
            mk_arith(BinOp::Mul, a, ta, b, tb, loc, diags)
        },
        Expr::Lt(l, rr) => {
            let (a, ta, b, tb) = resolve_two(e, l, rr, contracts, order, local_names, locals, loc, diags)?;
            mk_compare(CmpOp::Lt, a, ta, b, tb, loc, diags)
        },
        Expr::Le(l, rr) => {
            let (a, ta, b, tb) = resolve_two(e, l, rr, contracts, order, local_names, locals, loc, diags)?;
            mk_compare(CmpOp::Le, a, ta, b, tb, loc, diags)
        },
        Expr::Gt(l, rr) => {
            let (a, ta, b, tb) = resolve_two(e, l, rr, contracts, order, local_names, locals, loc, diags)?;
            mk_compare(CmpOp::Gt, a, ta, b, tb, loc, diags)
        },
        Expr::Ge(l, rr) => {
            let (a, ta, b, tb) = resolve_two(e, l, rr, contracts, order, local_names, locals, loc, diags)?;
            mk_compare(CmpOp::Ge, a, ta, b, tb, loc, diags)
        },
        Expr::Eq(l, rr) => {
            let (a, ta, b, tb) = resolve_two(e, l, rr, contracts, order, local_names, locals, loc, diags)?;
            mk_compare(CmpOp::Eq, a, ta, b, tb, loc, diags)
        },
        Expr::Ne(l, rr) => {
            let (a, ta, b, tb) = resolve_two(e, l, rr, contracts, order, local_names, locals, loc, diags)?;
            mk_compare(CmpOp::Ne, a, ta, b, tb, loc, diags)
        },
        Expr::PostIncr(name) => {
            match find_local(local_names, locals, name) {
                Some((slot, VTy::Uint(w))) => Ok((RExpr::PostIncr(slot, w), Some(VTy::Uint(w)))),
                _ => {
                    diags.push(Diagnostic::error(loc, "increment needs an integer local".to_owned()));
                    Err(())
                },
            }
        },
        Expr::PostDecr(name) => {
            match find_local(local_names, locals, name) {
                Some((slot, VTy::Uint(w))) => Ok((RExpr::PostDecr(slot, w), Some(VTy::Uint(w)))),
                _ => {
                    diags.push(Diagnostic::error(loc, "decrement needs an integer local".to_owned()));
                    Err(())
                },
            }
        },
        Expr::Call(name, args) => {
            let mut res: Vec<RExpr> = Vec::new();
            let mut tys: Vec<VTy> = Vec::new();
            let mut i: usize = 0;
            proof {
                assert(decreases_to!(*e => *args));
            }
            while i < args.len()
                invariant
                    forall|p: int|
                        0 <= p < order@.len() ==> (#[trigger] order@[p]) < contracts@.len(),
                    local_names@.len() == locals@.len(),
                    0 <= i <= args@.len(),
                    res@.len() == tys@.len(),
                    decreases_to!(*e => *args),
                decreases args@.len() - i,
            {
                match resolve_expr(&args[i], contracts, order, local_names, locals, loc, diags) {
                    Ok((re, Some(t))) => {
                        res.push(re);
                        tys.push(t);
                    },
                    Ok((_, None)) => {
                        diags.push(Diagnostic::error(loc, "void value used as argument".to_owned()));
                        return Err(());
                    },
                    Err(()) => {
                        return Err(());
                    },
                }
                i = i + 1;
            }
            let (c, f) = match resolve_call(contracts, order, name, &tys, loc, diags) {
                Ok(t) => t,
                Err(()) => {
                    return Err(());
                },
            };
            let mut conv: Vec<RExpr> = Vec::new();
            let mut k: usize = 0;
            while res.len() > 0
                invariant
                    c < contracts@.len(),
                    f < contracts@[c as int].functions@.len(),
                    k + res@.len() == tys@.len(),
                decreases res@.len(),
            {
                let a = res.remove(0);
                if k < tys.len() && k < contracts[c].functions[f].params.len() {
                    let ta = tys[k];
                    let tp = contracts[c].functions[f].params[k];
                    match convert_expr(a, ta, tp, loc, diags) {
                        Ok(ca) => conv.push(ca),
                        Err(()) => {
                            return Err(());
                        },
                    }
                } else {
                    conv.push(a);
                }
                k = k + 1;
            }
            let ret = contracts[c].functions[f].ret;
            Ok((RExpr::Call(c, f, conv), ret))
        },
    }
}

/// Resolves the two operands of a binary node.
fn resolve_two(
    e: &Expr,
    l: &Expr,
    r: &Expr,
    contracts: &Vec<Contract>,
    order: &Vec<usize>,
    local_names: &Vec<String>,
    locals: &Vec<VTy>,
    loc: Loc,
    diags: &mut Vec<Diagnostic>,
) -> (res: Result<(RExpr, VTy, RExpr, VTy), ()>)
    requires
        forall|p: int| 0 <= p < order@.len() ==> (#[trigger] order@[p]) < contracts@.len(),
        local_names@.len() == locals@.len(),
        decreases_to!(*e => *l),
        decreases_to!(*e => *r),
    decreases *e, 0nat,
{
    let (la, ta) = match resolve_expr(l, contracts, order, local_names, locals, loc, diags) {
        Ok((a, Some(t))) => (a, t),
        Ok((_, None)) => {
            diags.push(Diagnostic::error(loc, "void value used as operand".to_owned()));
            return Err(());
        },
        Err(()) => {
            return Err(());
        },
    };
    let (rb, tb) = match resolve_expr(r, contracts, order, local_names, locals, loc, diags) {
        Ok((b, Some(t))) => (b, t),
        Ok((_, None)) => {
            diags.push(Diagnostic::error(loc, "void value used as operand".to_owned()));
            return Err(());
        },
        Err(()) => {
            return Err(());
        },
    };
    Ok((la, ta, rb, tb))
}

/// Builds one arithmetic node from resolved operands.
fn mk_arith(
    op: BinOp,
    la: RExpr,
    ta: VTy,
    rb: RExpr,
    tb: VTy,
    loc: Loc,
    diags: &mut Vec<Diagnostic>,
) -> (res: Result<(RExpr, Option<VTy>), ()>)
{
    match unify_ints(la, ta, rb, tb, loc, diags) {
        Ok((a2, b2, w)) => Ok(
            (RExpr::Binary(op, w, Box::new(a2), Box::new(b2)), Some(VTy::Uint(w))),
        ),
        Err(()) => Err(()),
    }
}

/// Builds one comparison node from resolved operands.
fn mk_compare(
    op: CmpOp,
    la: RExpr,
    ta: VTy,
    rb: RExpr,
    tb: VTy,
    loc: Loc,
    diags: &mut Vec<Diagnostic>,
) -> (res: Result<(RExpr, Option<VTy>), ()>)
{
    match (ta, tb) {
        (VTy::Bool, VTy::Bool) => {
            if matches!(op, CmpOp::Eq | CmpOp::Ne) {
                Ok((RExpr::Compare(op, Box::new(la), Box::new(rb)), Some(VTy::Bool)))
            } else {
                diags.push(Diagnostic::error(loc, "ordering needs integer operands".to_owned()));
                Err(())
            }
        },
        _ => match unify_ints(la, ta, rb, tb, loc, diags) {
            Ok((a2, b2, _)) => Ok(
                (RExpr::Compare(op, Box::new(a2), Box::new(b2)), Some(VTy::Bool)),
            ),
            Err(()) => Err(()),
        },
    }
}

/// A zero value of the given type, used to initialize declared locals.
fn zero_expr(t: VTy) -> RExpr {
    match t {
        VTy::Bool => RExpr::Bool(false),
        VTy::Uint(w) => {
            let k: usize = (w / 32) as usize;
            let mut limbs: Vec<u32> = Vec::new();
            let mut i: usize = 0;
            while i < k
                decreases k - i,
            {
                limbs.push(0);
                i = i + 1;
            }
            RExpr::Number(w, limbs)
        },
    }
}

/// Resolves one statement; `in_loop` records whether a loop encloses the
/// statement, so that `break` and `continue` outside any loop are reported.
fn resolve_stmt(
    s: &Stmt,
    contracts: &Vec<Contract>,
    order: &Vec<usize>,
    enums: &Vec<EnumDecl>,
    structs: &Vec<StructDecl>,
    cnames: &Vec<String>,
    ret: Option<VTy>,
    local_names: &mut Vec<String>,
    locals: &mut Vec<VTy>,
    in_loop: bool,
    loc: Loc,
    diags: &mut Vec<Diagnostic>,
) -> (r: Result<RStmt, ()>)
    requires
        forall|p: int| 0 <= p < order@.len() ==> (#[trigger] order@[p]) < contracts@.len(),
        old(local_names)@.len() == old(locals)@.len(),
    ensures
        final(local_names)@.len() == final(locals)@.len(),
    decreases *s, 1nat,
{
    match s {
        Stmt::VarDecl(name, ty, init) => {
            let t = resolve_ast_type(ty, enums, structs, cnames, loc, diags);
            let vt = match vty_of_type(&t) {
                Some(vt) => vt,
                None => {
                    diags.push(Diagnostic::error(loc, "local type not usable in functions".to_owned()));
                    return Err(());
                },
            };
            let init_expr = match init {
                Some(e) => {
                    match resolve_expr(e, contracts, order, local_names, locals, loc, diags) {
                        Ok((re, Some(te))) => match convert_expr(re, te, vt, loc, diags) {
                            Ok(ce) => ce,
                            Err(()) => {
                                return Err(());
                            },
                        },
                        Ok((_, None)) => {
                            diags.push(Diagnostic::error(loc, "void value used as initializer".to_owned()));
                            return Err(());
                        },
                        Err(()) => {
                            return Err(());
                        },
                    }
                },
                None => zero_expr(vt),
            };
            let slot = locals.len();
            local_names.push(name.clone());
            locals.push(vt);
            Ok(RStmt::Store(VarRef::Local(slot, vt), init_expr))
        },
        Stmt::Assign(name, e) => {
            let (re, te) = match resolve_expr(e, contracts, order, local_names, locals, loc, diags) {
                Ok((re, Some(te))) => (re, te),
                Ok((_, None)) => {
                    diags.push(Diagnostic::error(loc, "void value assigned".to_owned()));
                    return Err(());
                },
                Err(()) => {
                    return Err(());
                },
            };
            match find_local(local_names, locals, name) {
                Some((slot, t)) => match convert_expr(re, te, t, loc, diags) {
                    Ok(ce) => Ok(RStmt::Store(VarRef::Local(slot, t), ce)),
                    Err(()) => Err(()),
                },
                None => match find_var(contracts, order, name) {
                    Some((c, v)) => {
                        let var = &contracts[c].variables[v];
                        if var.constant {
                            diags.push(Diagnostic::error(loc, "cannot assign to a constant".to_owned()));
                            return Err(());
                        }
                        match vty_of_type(&var.ty) {
                            Some(t) => match convert_expr(re, te, t, loc, diags) {
                                Ok(ce) => Ok(RStmt::Store(VarRef::Storage(c, v, t), ce)),
                                Err(()) => Err(()),
                            },
                            None => {
                                diags.push(Diagnostic::error(loc, "variable type not assignable".to_owned()));
                                Err(())
                            },
                        }
                    },
                    None => {
                        diags.push(Diagnostic::error(loc, "undeclared variable".to_owned()));
                        Err(())
                    },
                },
            }
        },
        Stmt::Expression(e) => {
            match resolve_expr(e, contracts, order, local_names, locals, loc, diags) {
                Ok((re, _)) => Ok(RStmt::Expression(re)),
                Err(()) => Err(()),
            }
        },
        Stmt::If(c, t, f) => {
            let cond = resolve_cond(c, contracts, order, local_names, locals, loc, diags)?;
            let tb = resolve_stmts(t, contracts, order, enums, structs, cnames, ret, local_names, locals, in_loop, loc, diags)?;
            let fb = resolve_stmts(f, contracts, order, enums, structs, cnames, ret, local_names, locals, in_loop, loc, diags)?;
            Ok(RStmt::If(cond, tb, fb))
        },
        Stmt::While(c, b) => {
            let cond = resolve_cond(c, contracts, order, local_names, locals, loc, diags)?;
            let body = resolve_stmts(b, contracts, order, enums, structs, cnames, ret, local_names, locals, true, loc, diags)?;
            Ok(RStmt::While(cond, body))
        },
        Stmt::DoWhile(b, c) => {
            let body = resolve_stmts(b, contracts, order, enums, structs, cnames, ret, local_names, locals, true, loc, diags)?;
            let cond = resolve_cond(c, contracts, order, local_names, locals, loc, diags)?;
            Ok(RStmt::DoWhile(body, cond))
        },
        Stmt::For(init, cond, next, body) => {
            let ri = match init {
                Some(st) => Some(
                    Box::new(
                        resolve_stmt(st, contracts, order, enums, structs, cnames, ret, local_names, locals, in_loop, loc, diags)?,
                    ),
                ),
                None => None,
            };
            let rc = match cond {
                Some(c) => Some(resolve_cond(c, contracts, order, local_names, locals, loc, diags)?),
                None => None,
            };
            let rn = match next {
                Some(st) => Some(
                    Box::new(
                        resolve_stmt(st, contracts, order, enums, structs, cnames, ret, local_names, locals, true, loc, diags)?,
                    ),
                ),
                None => None,
            };
            let rb = resolve_stmts(body, contracts, order, enums, structs, cnames, ret, local_names, locals, true, loc, diags)?;
            Ok(RStmt::For(ri, rc, rn, rb))
        },
        Stmt::Break => {
            if !in_loop {
                diags.push(Diagnostic::error(loc, "break outside a loop".to_owned()));
                Err(())
            } else {
                Ok(RStmt::Break)
            }
        },
        Stmt::Continue => {
            if !in_loop {
                diags.push(Diagnostic::error(loc, "continue outside a loop".to_owned()));
                Err(())
            } else {
                Ok(RStmt::Continue)
            }
        },
        Stmt::Return(e) => {
            match (e, ret) {
                (None, None) => Ok(RStmt::Return(None)),
                (Some(ex), Some(t)) => {
                    match resolve_expr(ex, contracts, order, local_names, locals, loc, diags) {
                        Ok((re, Some(te))) => match convert_expr(re, te, t, loc, diags) {
                            Ok(ce) => Ok(RStmt::Return(Some(ce))),
                            Err(()) => Err(()),
                        },
                        Ok((_, None)) => {
                            diags.push(Diagnostic::error(loc, "void value returned".to_owned()));
                            Err(())
                        },
                        Err(()) => Err(()),
                    }
                },
                (None, Some(_)) => {
                    diags.push(Diagnostic::error(loc, "missing return value".to_owned()));
                    Err(())
                },
                (Some(_), None) => {
                    diags.push(Diagnostic::error(loc, "function returns no value".to_owned()));
                    Err(())
                },
            }
        },
    }
}

/// Resolves a loop or branch condition, which must be boolean.
fn resolve_cond(
    c: &Expr,
    contracts: &Vec<Contract>,
    order: &Vec<usize>,
    local_names: &Vec<String>,
    locals: &Vec<VTy>,
    loc: Loc,
    diags: &mut Vec<Diagnostic>,
) -> (r: Result<RExpr, ()>)
    requires
        forall|p: int| 0 <= p < order@.len() ==> (#[trigger] order@[p]) < contracts@.len(),
        local_names@.len() == locals@.len(),
{
    match resolve_expr(c, contracts, order, local_names, locals, loc, diags) {
        Ok((re, Some(VTy::Bool))) => Ok(re),
        Ok(_) => {
            diags.push(Diagnostic::error(loc, "condition must be boolean".to_owned()));
            Err(())
        },
        Err(()) => Err(()),
    }
}

/// Resolves a statement list in order, stopping this body at the first
/// failed statement; the failure is already recorded as a diagnostic.
fn resolve_stmts(
    list: &Vec<Stmt>,
    contracts: &Vec<Contract>,
    order: &Vec<usize>,
    enums: &Vec<EnumDecl>,
    structs: &Vec<StructDecl>,
    cnames: &Vec<String>,
    ret: Option<VTy>,
    local_names: &mut Vec<String>,
    locals: &mut Vec<VTy>,
    in_loop: bool,
    loc: Loc,
    diags: &mut Vec<Diagnostic>,
) -> (r: Result<Vec<RStmt>, ()>)
    requires
        forall|p: int| 0 <= p < order@.len() ==> (#[trigger] order@[p]) < contracts@.len(),
        old(local_names)@.len() == old(locals)@.len(),
    ensures
        final(local_names)@.len() == final(locals)@.len(),
    decreases *list, 0nat,
{
    let mut out: Vec<RStmt> = Vec::new();
    let mut i: usize = 0;
    while i < list.len()
        invariant
            forall|p: int| 0 <= p < order@.len() ==> (#[trigger] order@[p]) < contracts@.len(),
            local_names@.len() == locals@.len(),
            0 <= i <= list@.len(),
        decreases list@.len() - i,
    {
        match resolve_stmt(&list[i], contracts, order, enums, structs, cnames, ret, local_names, locals, in_loop, loc, diags) {
            Ok(rs) => out.push(rs),
            Err(()) => {
                return Err(());
            },
        }
        i = i + 1;
    }
    Ok(out)
}

/// Looks up a name in a list; `Some` indices are always in range.
fn find_name(names: &Vec<String>, name: &String) -> (r: Option<usize>)
    ensures
        match r {
            Some(i) => i < names@.len(),
            None => true,
        },
{
    let mut i: usize = 0;
    while i < names.len()
        invariant
            0 <= i <= names@.len(),
        decreases names@.len() - i,
    {
        if names[i] == *name {
            return Some(i);
        }
        i = i + 1;
    }
    None
}

/// Resolves a variable initializer, which must be a literal of the
/// variable's type; anything else is reported.
fn resolve_initializer(
    init: &Option<Expr>,
    t: &Type,
    loc: Loc,
    diags: &mut Vec<Diagnostic>,
) -> (r: Option<RExpr>)
{
    match init {
        None => None,
        Some(Expr::BoolLiteral(b)) => {
            if matches!(t, Type::Bool) {
                Some(RExpr::Bool(*b))
            } else {
                diags.push(Diagnostic::error(loc, "initializer type mismatch".to_owned()));
                None
            }
        },
        Some(Expr::NumberLiteral(v)) => {
            match t {
                Type::Uint(w) => {
                    let k: usize = (*w / 32) as usize;
                    let mut limbs: Vec<u32> = Vec::new();
                    let mut i: usize = 0;
                    while i < k
                        invariant
                            0 <= i <= k,
                        decreases k - i,
                    {
                        if i < v.len() {
                            limbs.push(v[i]);
                        } else {
                            limbs.push(0);
                        }
                        i = i + 1;
                    }
                    let mut j: usize = k;
                    while j < v.len()
                        invariant
                            k <= j <= v@.len() || v@.len() <= k,
                        decreases v@.len() - j,
                    {
                        if v[j] != 0 {
                            diags.push(Diagnostic::error(loc, "initializer does not fit the declared width".to_owned()));
                            return None;
                        }
                        j = j + 1;
                    }
                    Some(RExpr::Number(*w, limbs))
                },
                _ => {
                    diags.push(Diagnostic::error(loc, "initializer type mismatch".to_owned()));
                    None
                },
            }
        },
        Some(_) => {
            diags.push(Diagnostic::error(loc, "initializer must be a literal".to_owned()));
            None
        },
    }
}

/// Resolves one or more syntax trees into a namespace: declarations are
/// deduplicated by source location, every field and expression is typed,
/// documentation tags align to field positions, enum value positions must
/// cover their range injectively, and circular base-contract declarations
/// are a fatal diagnostic. Resolution collects diagnostics and keeps going;
/// a namespace with error diagnostics is barred from code generation.
pub fn resolver(units: &Vec<SourceUnit>) -> (ns: Namespace)
    ensures
        bases_in_range(ns.contracts@),
        forall|p: int, q: int|
            0 <= p < ns.enums@.len() && 0 <= q < p ==> (#[trigger] ns.enums@[p]).loc != (
            #[trigger] ns.enums@[q]).loc,
        forall|p: int, q: int|
            0 <= p < ns.structs@.len() && 0 <= q < p ==> (#[trigger] ns.structs@[p]).loc != (
            #[trigger] ns.structs@[q]).loc,
        forall|p: int, q: int|
            0 <= p < ns.events@.len() && 0 <= q < p ==> (#[trigger] ns.events@[p]).loc != (
            #[trigger] ns.events@[q]).loc,
        forall|p: int, q: int|
            0 <= p < ns.contracts@.len() && 0 <= q < p ==> (#[trigger] ns.contracts@[p]).loc != (
            #[trigger] ns.contracts@[q]).loc,
        forall|p: int|
            0 <= p < ns.enums@.len() ==> positions_ok((#[trigger] ns.enums@[p]).values@),
        forall|u: int, d: int|
            #![trigger units@[u].enums@[d]]
            0 <= u < units@.len() && 0 <= d < units@[u].enums@.len() && positions_ok(
                units@[u].enums@[d].values@,
            ) ==> exists|p: int|
                0 <= p < ns.enums@.len() && (#[trigger] ns.enums@[p]).loc
                    == units@[u].enums@[d].loc,
        forall|u: int, d: int|
            #![trigger units@[u].structs@[d]]
            0 <= u < units@.len() && 0 <= d < units@[u].structs@.len() ==> exists|p: int|
                0 <= p < ns.structs@.len() && (#[trigger] ns.structs@[p]).loc
                    == units@[u].structs@[d].loc,
        forall|u: int, d: int|
            #![trigger units@[u].events@[d]]
            0 <= u < units@.len() && 0 <= d < units@[u].events@.len() ==> exists|p: int|
                0 <= p < ns.events@.len() && (#[trigger] ns.events@[p]).loc
                    == units@[u].events@[d].loc,
        forall|u: int, d: int|
            #![trigger units@[u].contracts@[d]]
            0 <= u < units@.len() && 0 <= d < units@[u].contracts@.len() ==> exists|p: int|
                0 <= p < ns.contracts@.len() && (#[trigger] ns.contracts@[p]).loc
                    == units@[u].contracts@[d].loc,
        forall|i: int|
            0 <= i < ns.contracts@.len() && spec_reaches(
                ns.contracts@,
                ns.contracts@[i].bases@,
                i,
            ) ==> any_fatal(ns.diagnostics@),
{
    let mut diags: Vec<Diagnostic> = Vec::new();
    let mut enums: Vec<EnumDecl> = Vec::new();
    let mut enum_locs: Vec<Loc> = Vec::new();

    // enums: deduplicate by location, validate value positions, keep tags
    let mut ui: usize = 0;
    while ui < units.len()
        invariant
            enum_locs@.len() == enums@.len(),
            forall|p: int| 0 <= p < enums@.len() ==> (#[trigger] enums@[p]).loc == enum_locs@[p],
            forall|p: int, q: int|
                0 <= p < enums@.len() && 0 <= q < p ==> (#[trigger] enums@[p]).loc != (
                #[trigger] enums@[q]).loc,
            forall|p: int|
                0 <= p < enums@.len() ==> positions_ok((#[trigger] enums@[p]).values@),
            0 <= ui <= units@.len(),
            forall|u: int, d: int|
                #![trigger units@[u].enums@[d]]
                0 <= u < ui && 0 <= d < units@[u].enums@.len() && positions_ok(
                    units@[u].enums@[d].values@,
                ) ==> enum_locs@.contains(units@[u].enums@[d].loc),
        decreases units@.len() - ui,
    {
        let unit = &units[ui];
        let mut di: usize = 0;
        while di < unit.enums.len()
            invariant
                unit == units@[ui as int],
                ui < units@.len(),
                0 <= di <= unit.enums@.len(),
                enum_locs@.len() == enums@.len(),
                forall|p: int|
                    0 <= p < enums@.len() ==> (#[trigger] enums@[p]).loc == enum_locs@[p],
                forall|p: int, q: int|
                    0 <= p < enums@.len() && 0 <= q < p ==> (#[trigger] enums@[p]).loc != (
                    #[trigger] enums@[q]).loc,
                forall|p: int|
                    0 <= p < enums@.len() ==> positions_ok((#[trigger] enums@[p]).values@),
                forall|u: int, d: int|
                    #![trigger units@[u].enums@[d]]
                    0 <= u < units@.len() && 0 <= d < units@[u].enums@.len() && (u < ui || (u
                        == ui && d < di)) && positions_ok(units@[u].enums@[d].values@)
                        ==> enum_locs@.contains(units@[u].enums@[d].loc),
            decreases unit.enums@.len() - di,
        {
            let d = &unit.enums[di];
            if !loc_seen(&enum_locs, d.loc) {
                if !check_enum_positions(&d.values) {
                    diags.push(Diagnostic::error(d.loc, "enum value positions must cover the range exactly once".to_owned()));
                } else {
                    let tags = resolve_tags(&d.tags, d.values.len(), d.loc, &mut diags);
                    let mut values: Vec<(String, usize)> = Vec::new();
                    let mut vi: usize = 0;
                    while vi < d.values.len()
                        invariant
                            values@.len() == vi,
                            vi <= d.values@.len(),
                            forall|p: int| 0 <= p < vi ==> values@[p] == d.values@[p],
                        decreases d.values@.len() - vi,
                    {
                        values.push((d.values[vi].0.clone(), d.values[vi].1));
                        vi = vi + 1;
                    }
                    proof {
                        assert(values@ =~= d.values@);
                    }
                    let contract = match &d.contract {
                        Some(c) => Some(c.clone()),
                        None => None,
                    };
                    enum_locs.push(d.loc);
                    enums.push(
                        EnumDecl { loc: d.loc, name: d.name.clone(), contract, values, tags },
                    );
                }
            }
            di = di + 1;
        }
        ui = ui + 1;
    }

    // the deduplicated contract names, so member types can name a contract
    // declared anywhere, before or after the member
    let mut cnames: Vec<String> = Vec::new();
    let mut cname_locs: Vec<Loc> = Vec::new();
    ui = 0;
    while ui < units.len()
        decreases units@.len() - ui,
    {
        let unit = &units[ui];
        let mut ci: usize = 0;
        while ci < unit.contracts.len()
            decreases unit.contracts@.len() - ci,
        {
            let d = &unit.contracts[ci];
            if !loc_seen(&cname_locs, d.loc) {
                cname_locs.push(d.loc);
                cnames.push(d.name.clone());
            }
            ci = ci + 1;
        }
        ui = ui + 1;
    }

    // structs and events, deduplicated by location, fields typed, tags
    // aligned to field positions
    let mut structs: Vec<StructDecl> = Vec::new();
    let mut struct_locs: Vec<Loc> = Vec::new();
    let mut events: Vec<EventDecl> = Vec::new();
    let mut event_locs: Vec<Loc> = Vec::new();
    ui = 0;
    while ui < units.len()
        invariant
            struct_locs@.len() == structs@.len(),
            forall|p: int|
                0 <= p < structs@.len() ==> (#[trigger] structs@[p]).loc == struct_locs@[p],
            forall|p: int, q: int|
                0 <= p < structs@.len() && 0 <= q < p ==> (#[trigger] structs@[p]).loc != (
                #[trigger] structs@[q]).loc,
            event_locs@.len() == events@.len(),
            forall|p: int|
                0 <= p < events@.len() ==> (#[trigger] events@[p]).loc == event_locs@[p],
            forall|p: int, q: int|
                0 <= p < events@.len() && 0 <= q < p ==> (#[trigger] events@[p]).loc != (
                #[trigger] events@[q]).loc,
            0 <= ui <= units@.len(),
            forall|u: int, d: int|
                #![trigger units@[u].structs@[d]]
                0 <= u < ui && 0 <= d < units@[u].structs@.len() ==> struct_locs@.contains(
                    units@[u].structs@[d].loc,
                ),
            forall|u: int, d: int|
                #![trigger units@[u].events@[d]]
                0 <= u < ui && 0 <= d < units@[u].events@.len() ==> event_locs@.contains(
                    units@[u].events@[d].loc,
                ),
        decreases units@.len() - ui,
    {
        let unit = &units[ui];
        let mut di: usize = 0;
        while di < unit.structs.len()
            invariant
                unit == units@[ui as int],
                ui < units@.len(),
                0 <= di <= unit.structs@.len(),
                struct_locs@.len() == structs@.len(),
                forall|p: int|
                    0 <= p < structs@.len() ==> (#[trigger] structs@[p]).loc == struct_locs@[p],
                forall|p: int, q: int|
                    0 <= p < structs@.len() && 0 <= q < p ==> (#[trigger] structs@[p]).loc != (
                    #[trigger] structs@[q]).loc,
                forall|u: int, d: int|
                    #![trigger units@[u].structs@[d]]
                    0 <= u < units@.len() && 0 <= d < units@[u].structs@.len() && (u < ui || (u
                        == ui && d < di)) ==> struct_locs@.contains(units@[u].structs@[d].loc),
            decreases unit.structs@.len() - di,
        {
            let d = &unit.structs[di];
            if !loc_seen(&struct_locs, d.loc) {
                let tags = resolve_tags(&d.tags, d.fields.len(), d.loc, &mut diags);
                let mut fields: Vec<Parameter> = Vec::new();
                let mut fi: usize = 0;
                while fi < d.fields.len()
                    decreases d.fields@.len() - fi,
                {
                    let ty = resolve_ast_type(&d.fields[fi].1, &enums, &structs, &cnames, d.loc, &mut diags);
                    fields.push(Parameter { name: d.fields[fi].0.clone(), ty, indexed: false });
                    fi = fi + 1;
                }
                let contract = match &d.contract {
                    Some(c) => Some(c.clone()),
                    None => None,
                };
                struct_locs.push(d.loc);
                structs.push(
                    StructDecl { loc: d.loc, name: d.name.clone(), contract, fields, tags },
                );
            }
            di = di + 1;
        }
        let mut ei: usize = 0;
        while ei < unit.events.len()
            invariant
                unit == units@[ui as int],
                ui < units@.len(),
                0 <= ei <= unit.events@.len(),
                event_locs@.len() == events@.len(),
                forall|p: int|
                    0 <= p < events@.len() ==> (#[trigger] events@[p]).loc == event_locs@[p],
                forall|p: int, q: int|
                    0 <= p < events@.len() && 0 <= q < p ==> (#[trigger] events@[p]).loc != (
                    #[trigger] events@[q]).loc,
                forall|u: int, d: int|
                    #![trigger units@[u].events@[d]]
                    0 <= u < units@.len() && 0 <= d < units@[u].events@.len() && (u < ui || (u
                        == ui && d < ei)) ==> event_locs@.contains(units@[u].events@[d].loc),
            decreases unit.events@.len() - ei,
        {
            let d = &unit.events[ei];
            if !loc_seen(&event_locs, d.loc) {
                let tags = resolve_tags(&d.tags, d.fields.len(), d.loc, &mut diags);
                let mut fields: Vec<Parameter> = Vec::new();
                let mut fi: usize = 0;
                while fi < d.fields.len()
                    decreases d.fields@.len() - fi,
                {
                    let ty = resolve_ast_type(&d.fields[fi].1, &enums, &structs, &cnames, d.loc, &mut diags);
                    fields.push(
                        Parameter { name: d.fields[fi].0.clone(), ty, indexed: d.fields[fi].2 },
                    );
                    fi = fi + 1;
                }
                let contract = match &d.contract {
                    Some(c) => Some(c.clone()),
                    None => None,
                };
                event_locs.push(d.loc);
                events.push(
                    EventDecl {
                        loc: d.loc,
                        name: d.name.clone(),
                        contract,
                        fields,
                        anonymous: d.anonymous,
                        tags,
                    },
                );
            }
            ei = ei + 1;
        }
        ui = ui + 1;
    }

    // contracts: bases resolved by name against the full table, own
    // variables and function signatures typed, duplicate member names
    // reported; bodies follow once every signature is known
    let mut contracts: Vec<Contract> = Vec::new();
    let mut seen_clocs: Vec<Loc> = Vec::new();
    let mut src_map: Vec<(usize, usize)> = Vec::new();
    ui = 0;
    while ui < units.len()
        invariant
            seen_clocs@.len() == contracts@.len(),
            forall|p: int|
                0 <= p < contracts@.len() ==> (#[trigger] contracts@[p]).loc == seen_clocs@[p],
            forall|p: int, q: int|
                0 <= p < contracts@.len() && 0 <= q < p ==> (#[trigger] contracts@[p]).loc != (
                #[trigger] contracts@[q]).loc,
            0 <= ui <= units@.len(),
            forall|u: int, d: int|
                #![trigger units@[u].contracts@[d]]
                0 <= u < ui && 0 <= d < units@[u].contracts@.len() ==> seen_clocs@.contains(
                    units@[u].contracts@[d].loc,
                ),
        decreases units@.len() - ui,
    {
        let unit = &units[ui];
        let mut ci: usize = 0;
        while ci < unit.contracts.len()
            invariant
                unit == units@[ui as int],
                ui < units@.len(),
                0 <= ci <= unit.contracts@.len(),
                seen_clocs@.len() == contracts@.len(),
                forall|p: int|
                    0 <= p < contracts@.len() ==> (#[trigger] contracts@[p]).loc == seen_clocs@[p],
                forall|p: int, q: int|
                    0 <= p < contracts@.len() && 0 <= q < p ==> (#[trigger] contracts@[p]).loc != (
                    #[trigger] contracts@[q]).loc,
                forall|u: int, d: int|
                    #![trigger units@[u].contracts@[d]]
                    0 <= u < units@.len() && 0 <= d < units@[u].contracts@.len() && (u < ui || (u
                        == ui && d < ci)) ==> seen_clocs@.contains(units@[u].contracts@[d].loc),
            decreases unit.contracts@.len() - ci,
        {
            let d = &unit.contracts[ci];
            if !loc_seen(&seen_clocs, d.loc) {
                let tags = resolve_tags(&d.tags, 0, d.loc, &mut diags);
                let bases: Vec<usize> = Vec::new();
                // duplicate variable names within one contract are an error
                let mut vi: usize = 0;
                while vi < d.variables.len()
                    invariant
                        vi <= d.variables@.len(),
                    decreases d.variables@.len() - vi,
                {
                    let mut vj: usize = 0;
                    while vj < vi
                        invariant
                            vj <= vi < d.variables@.len(),
                        decreases vi - vj,
                    {
                        if d.variables[vj].name == d.variables[vi].name {
                            diags.push(Diagnostic::error(d.loc, "duplicate member name".to_owned()));
                        }
                        vj = vj + 1;
                    }
                    vi = vi + 1;
                }
                let mut variables: Vec<ContractVariable> = Vec::new();
                vi = 0;
                while vi < d.variables.len()
                    decreases d.variables@.len() - vi,
                {
                    let v = &d.variables[vi];
                    let ty = resolve_ast_type(&v.ty, &enums, &structs, &cnames, v.loc, &mut diags);
                    let vtags = resolve_tags(&v.tags, 0, v.loc, &mut diags);
                    let initializer = resolve_initializer(&v.initializer, &ty, v.loc, &mut diags);
                    if v.constant && initializer.is_none() {
                        diags.push(Diagnostic::error(v.loc, "constant variable needs a value".to_owned()));
                    }
                    variables.push(
                        ContractVariable {
                            loc: v.loc,
                            name: v.name.clone(),
                            ty,
                            constant: v.constant,
                            visibility: v.visibility,
                            initializer,
                            tags: vtags,
                        },
                    );
                    vi = vi + 1;
                }
                let mut functions: Vec<ResolvedFn> = Vec::new();
                let mut fi: usize = 0;
                while fi < d.functions.len()
                    decreases d.functions@.len() - fi,
                {
                    let f = &d.functions[fi];
                    let mut params: Vec<VTy> = Vec::new();
                    let mut param_names: Vec<String> = Vec::new();
                    let mut pi: usize = 0;
                    while pi < f.params.len()
                        invariant
                            params@.len() == param_names@.len(),
                        decreases f.params@.len() - pi,
                    {
                        let ty = resolve_ast_type(&f.params[pi].1, &enums, &structs, &cnames, f.loc, &mut diags);
                        match vty_of_type(&ty) {
                            Some(t) => {
                                params.push(t);
                                param_names.push(f.params[pi].0.clone());
                            },
                            None => {
                                diags.push(Diagnostic::error(f.loc, "parameter type not supported".to_owned()));
                            },
                        }
                        pi = pi + 1;
                    }
                    let ret = match &f.returns {
                        Some(rt) => {
                            let ty = resolve_ast_type(rt, &enums, &structs, &cnames, f.loc, &mut diags);
                            match vty_of_type(&ty) {
                                Some(t) => Some(t),
                                None => {
                                    diags.push(Diagnostic::error(f.loc, "return type not supported".to_owned()));
                                    None
                                },
                            }
                        },
                        None => None,
                    };
                    let locals: Vec<VTy> = Vec::new();
                    let body: Vec<RStmt> = Vec::new();
                    functions.push(
                        ResolvedFn {
                            loc: f.loc,
                            name: f.name.clone(),
                            params,
                            param_names,
                            ret,
                            visibility: f.visibility,
                            locals,
                            body,
                        },
                    );
                    fi = fi + 1;
                }
                seen_clocs.push(d.loc);
                src_map.push((ui, ci));
                contracts.push(
                    Contract {
                        loc: d.loc,
                        name: d.name.clone(),
                        kind: d.kind,
                        bases,
                        variables,
                        functions,
                        tags,
                    },
                );
            }
            ci = ci + 1;
        }
        ui = ui + 1;
    }
    // resolve declared base names against the deduplicated contract table
    let mut names: Vec<String> = Vec::new();
    let mut ni: usize = 0;
    while ni < contracts.len()
        invariant
            names@.len() == ni,
            ni <= contracts@.len(),
        decreases contracts@.len() - ni,
    {
        names.push(contracts[ni].name.clone());
        ni = ni + 1;
    }
    let mut all_bases: Vec<Vec<usize>> = Vec::new();
    let mut pi2: usize = 0;
    while pi2 < contracts.len()
        invariant
            names@.len() == contracts@.len(),
            all_bases@.len() == pi2,
            pi2 <= contracts@.len(),
            forall|p: int, j: int|
                0 <= p < all_bases@.len() && 0 <= j < (#[trigger] all_bases@[p])@.len() ==> (
                #[trigger] all_bases@[p]@[j]) < contracts@.len(),
        decreases contracts@.len() - pi2,
    {
        let mut bases: Vec<usize> = Vec::new();
        if pi2 < src_map.len() {
            let (u, c) = src_map[pi2];
            if u < units.len() && c < units[u].contracts.len() {
                let d = &units[u].contracts[c];
                let mut bi: usize = 0;
                while bi < d.bases.len()
                    invariant
                        names@.len() == contracts@.len(),
                        forall|j: int|
                            0 <= j < bases@.len() ==> (#[trigger] bases@[j]) < contracts@.len(),
                    decreases d.bases@.len() - bi,
                {
                    match find_name(&names, &d.bases[bi]) {
                        Some(b) => bases.push(b),
                        None => diags.push(
                            Diagnostic::error(d.loc, "unknown base contract".to_owned()),
                        ),
                    }
                    bi = bi + 1;
                }
            }
        }
        all_bases.push(bases);
        pi2 = pi2 + 1;
    }
    let ghost shells0 = contracts@;
    let mut withbases: Vec<Contract> = Vec::new();
    let mut rest_b = all_bases;
    while contracts.len() > 0 && rest_b.len() > 0
        invariant
            withbases@.len() + contracts@.len() == shells0.len(),
            rest_b@.len() == contracts@.len(),
            forall|p: int|
                0 <= p < contracts@.len() ==> contracts@[p] == shells0[shells0.len()
                    - contracts@.len() + p],
            forall|p: int, j: int|
                0 <= p < rest_b@.len() && 0 <= j < (#[trigger] rest_b@[p])@.len() ==> (
                #[trigger] rest_b@[p]@[j]) < shells0.len(),
            forall|p: int, j: int|
                0 <= p < withbases@.len() && 0 <= j < (#[trigger] withbases@[p]).bases@.len()
                    ==> (#[trigger] withbases@[p].bases@[j]) < shells0.len(),
            forall|p: int|
                0 <= p < withbases@.len() ==> (#[trigger] withbases@[p]).loc == shells0[p].loc,
            withbases@.len() <= shells0.len(),
        decreases contracts@.len(),
    {
        let c = contracts.remove(0);
        let b = rest_b.remove(0);
        withbases.push(
            Contract {
                loc: c.loc,
                name: c.name,
                kind: c.kind,
                bases: b,
                variables: c.variables,
                functions: c.functions,
                tags: c.tags,
            },
        );
    }
    let mut contracts = withbases;
    proof {
        assert(bases_in_range(contracts@)) by {
            assert forall|i: int, j: int|
                0 <= i < contracts@.len() && 0 <= j < contracts@[i].bases@.len() implies (
            #[trigger] contracts@[i].bases@[j]) < contracts@.len() by {
                assert(contracts@[i].bases@[j] < shells0.len());
            }
        }
    }

    // function bodies, resolved against the full signature table through
    // each contract's linearized inheritance order
    let mut all_bodies: Vec<Vec<(Vec<RStmt>, Vec<VTy>)>> = Vec::new();
    let mut ci: usize = 0;
    while ci < contracts.len()
        invariant
            bases_in_range(contracts@),
            ci <= contracts@.len(),
        decreases contracts@.len() - ci,
    {
        let order = visit_bases_of(&contracts, ci);
        let mut newfns: Vec<(Vec<RStmt>, Vec<VTy>)> = Vec::new();
        let mut fi: usize = 0;
        while fi < contracts[ci].functions.len()
            invariant
                bases_in_range(contracts@),
                ci < contracts@.len(),
                forall|p: int| 0 <= p < order@.len() ==> (#[trigger] order@[p]) < contracts@.len(),
            decreases contracts@[ci as int].functions@.len() - fi,
        {
            let mut local_names: Vec<String> = Vec::new();
            let mut locals: Vec<VTy> = Vec::new();
            let f = &contracts[ci].functions[fi];
            let floc = f.loc;
            let fret = f.ret;
            let mut pi: usize = 0;
            while pi < f.params.len()
                invariant
                    ci < contracts@.len(),
                    fi < contracts@[ci as int].functions@.len(),
                    f == contracts@[ci as int].functions@[fi as int],
                    local_names@.len() == locals@.len(),
                decreases f.params@.len() - pi,
            {
                if pi < f.param_names.len() {
                    locals.push(f.params[pi]);
                    local_names.push(f.param_names[pi].clone());
                }
                pi = pi + 1;
            }
            let mut body: Vec<RStmt> = Vec::new();
            if ci < src_map.len() {
                let (u, c) = src_map[ci];
                if u < units.len() && c < units[u].contracts.len() && fi < units[u].contracts[c].functions.len() {
                    let astf = &units[u].contracts[c].functions[fi];
                    match resolve_stmts(
                        &astf.body,
                        &contracts,
                        &order,
                        &enums,
                        &structs,
                        &cnames,
                        fret,
                        &mut local_names,
                        &mut locals,
                        false,
                        floc,
                        &mut diags,
                    ) {
                        Ok(b) => {
                            body = b;
                        },
                        Err(()) => {},
                    }
                }
            }
            newfns.push((body, locals));
            fi = fi + 1;
        }
        all_bodies.push(newfns);
        ci = ci + 1;
    }

    // rebuild the contract table with the resolved bodies; everything else
    // is preserved field for field
    let ghost shells = contracts@;
    let mut done: Vec<Contract> = Vec::new();
    let mut bodies_rest = all_bodies;
    while contracts.len() > 0
        invariant
            done@.len() + contracts@.len() == shells.len(),
            forall|p: int|
                0 <= p < contracts@.len() ==> contracts@[p] == shells[done@.len() + p],
            forall|p: int|
                0 <= p < done@.len() ==> (#[trigger] done@[p]).bases@ == shells[p].bases@
                    && done@[p].loc == shells[p].loc,
        decreases contracts@.len(),
    {
        let c = contracts.remove(0);
        let mut fns = c.functions;
        let mut newfns: Vec<ResolvedFn> = Vec::new();
        if bodies_rest.len() > 0 {
            let mut bl = bodies_rest.remove(0);
            while fns.len() > 0
                decreases fns@.len(),
            {
                let f = fns.remove(0);
                if bl.len() > 0 {
                    let (body, locals) = bl.remove(0);
                    newfns.push(
                        ResolvedFn {
                            loc: f.loc,
                            name: f.name,
                            params: f.params,
                            param_names: f.param_names,
                            ret: f.ret,
                            visibility: f.visibility,
                            locals,
                            body,
                        },
                    );
                } else {
                    newfns.push(f);
                }
            }
        } else {
            newfns = fns;
        }
        done.push(
            Contract {
                loc: c.loc,
                name: c.name,
                kind: c.kind,
                bases: c.bases,
                variables: c.variables,
                functions: newfns,
                tags: c.tags,
            },
        );
    }
    let contracts = done;
    proof {
        assert(bases_in_range(contracts@)) by {
            assert forall|i: int, j: int|
                0 <= i < contracts@.len() && 0 <= j < contracts@[i].bases@.len() implies (
            #[trigger] contracts@[i].bases@[j]) < contracts@.len() by {
                assert(contracts@[i].bases@ == shells[i].bases@);
                assert(shells[i].bases@[j] < shells.len());
            }
        }
    }

    // circular base-contract declarations are a fatal diagnostic, found by
    // a visited-set traversal that cannot recurse forever
    let mut ki: usize = 0;
    while ki < contracts.len()
        invariant
            bases_in_range(contracts@),
            ki <= contracts@.len(),
            forall|i: int|
                0 <= i < ki && spec_reaches(contracts@, contracts@[i].bases@, i) ==> any_fatal(
                    diags@,
                ),
        decreases contracts@.len() - ki,
    {
        let ghost d0 = diags@;
        if has_base_cycle(&contracts, ki) {
            diags.push(Diagnostic::fatal(contracts[ki].loc, "circular inheritance between base contracts".to_owned()));
            proof {
                assert(diags@[diags@.len() - 1].level == Level::Fatal);
            }
        }
        proof {
            assert forall|p: int| 0 <= p < d0.len() implies diags@[p] == d0[p] by {}
            assert(any_fatal(d0) ==> any_fatal(diags@)) by {
                if any_fatal(d0) {
                    let w = choose|w: int| 0 <= w < d0.len() && d0[w].level == Level::Fatal;
                    assert(diags@[w].level == Level::Fatal);
                }
            }
        }
        ki = ki + 1;
    }

    proof {
        // the rebuilds preserved each contract's location, so the recorded
        // locations still index the final table
        assert forall|p: int| 0 <= p < contracts@.len() implies (#[trigger] contracts@[p]).loc
            == seen_clocs@[p] by {
            assert(contracts@[p].loc == shells[p].loc);
            assert(shells[p].loc == shells0[p].loc);
        }
        assert forall|u: int, d: int|
            0 <= u < units@.len() && 0 <= d < (#[trigger] units@[u].enums@[d], units@[u].enums@).1.len()
                && positions_ok(units@[u].enums@[d].values@) implies exists|p: int|
            0 <= p < enums@.len() && (#[trigger] enums@[p]).loc == units@[u].enums@[d].loc by {
            let l = units@[u].enums@[d].loc;
            assert(enum_locs@.contains(l));
            let q = choose|q: int| 0 <= q < enum_locs@.len() && enum_locs@[q] == l;
            assert(enums@[q].loc == l);
        }
        assert forall|u: int, d: int|
            0 <= u < units@.len() && 0 <= d < (#[trigger] units@[u].structs@[d], units@[u].structs@).1.len() implies exists|p: int|
            0 <= p < structs@.len() && (#[trigger] structs@[p]).loc == units@[u].structs@[d].loc by {
            let l = units@[u].structs@[d].loc;
            assert(struct_locs@.contains(l));
            let q = choose|q: int| 0 <= q < struct_locs@.len() && struct_locs@[q] == l;
            assert(structs@[q].loc == l);
        }
        assert forall|u: int, d: int|
            0 <= u < units@.len() && 0 <= d < (#[trigger] units@[u].events@[d], units@[u].events@).1.len() implies exists|p: int|
            0 <= p < events@.len() && (#[trigger] events@[p]).loc == units@[u].events@[d].loc by {
            let l = units@[u].events@[d].loc;
            assert(event_locs@.contains(l));
            let q = choose|q: int| 0 <= q < event_locs@.len() && event_locs@[q] == l;
            assert(events@[q].loc == l);
        }
        assert forall|u: int, d: int|
            0 <= u < units@.len() && 0 <= d < (#[trigger] units@[u].contracts@[d], units@[u].contracts@).1.len() implies exists|p: int|
            0 <= p < contracts@.len() && (#[trigger] contracts@[p]).loc == units@[u].contracts@[d].loc by {
            let l = units@[u].contracts@[d].loc;
            assert(seen_clocs@.contains(l));
            let q = choose|q: int| 0 <= q < seen_clocs@.len() && seen_clocs@[q] == l;
            assert(contracts@[q].loc == l);
        }
    }
    let ns = Namespace { contracts, enums, structs, events, diagnostics: diags };
    ns
}

/// Whether a location already occurs in a list of seen locations.
pub fn loc_seen(seen: &Vec<Loc>, loc: Loc) -> (r: bool)
    ensures
        r == seen@.contains(loc),
{
    let mut i: usize = 0;
    while i < seen.len()
        invariant
            0 <= i <= seen@.len(),
            forall|p: int| 0 <= p < i ==> seen@[p] != loc,
        decreases seen@.len() - i,
    {
        if seen[i] == loc {
            return true;
        }
        i = i + 1;
    }
    false
}

} // verus!
