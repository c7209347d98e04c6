//! The documentation model: a flat, render-ready view of one or more
//! namespaces. Declarations seen through several inclusion paths appear
//! once (deduplicated by source location); enum values are placed by their
//! authoritative position; a contract's own and inherited variables are
//! kept in two disjoint lists.

use crate::ast::Visibility;
use crate::bases::visit_bases;
use crate::diag::Loc;
use crate::namespace::{get_tag, get_tag_no, spec_find_tag, Namespace};
use crate::sema::positions_ok;
use vstd::prelude::*;

verus! {

broadcast use vstd::seq_lib::group_seq_properties;

/// One documented field of an event or struct.
pub struct DocField {
    pub name: String,
    pub ty: String,
    pub indexed: bool,
    pub doc: Option<String>,
}

/// A documented struct.
pub struct DocStruct {
    pub loc: Loc,
    pub name: String,
    pub contract: Option<String>,
    pub field: Vec<DocField>,
    pub title: Option<String>,
    pub notice: Option<String>,
    pub author: Option<String>,
    pub dev: Option<String>,
}

/// A documented event.
pub struct DocEvent {
    pub loc: Loc,
    pub name: String,
    pub contract: Option<String>,
    pub anonymous: bool,
    pub field: Vec<DocField>,
    pub title: Option<String>,
    pub notice: Option<String>,
    pub author: Option<String>,
    pub dev: Option<String>,
}

/// A documented enum; `field` is the value names by position.
pub struct DocEnum {
    pub loc: Loc,
    pub name: String,
    pub contract: Option<String>,
    pub field: Vec<String>,
    pub title: Option<String>,
    pub notice: Option<String>,
    pub author: Option<String>,
    pub dev: Option<String>,
}

/// A documented contract variable; inherited entries name the base
/// contract that declares them, own entries never do.
pub struct DocVariable {
    pub name: String,
    pub constant: bool,
    pub base_contract: Option<String>,
    pub ty: String,
    pub visibility: String,
    pub title: Option<String>,
    pub notice: Option<String>,
    pub author: Option<String>,
    pub dev: Option<String>,
}

/// A documented contract with its own and its inherited variables.
pub struct DocContract {
    pub loc: Loc,
    pub name: String,
    pub ty: String,
    pub variables: Vec<DocVariable>,
    pub base_variables: Vec<DocVariable>,
    pub title: Option<String>,
    pub notice: Option<String>,
    pub author: Option<String>,
    pub dev: Option<String>,
}

/// Everything the documentation renders.
pub struct DocTop {
    pub contracts: Vec<DocContract>,
    pub events: Vec<DocEvent>,
    pub structs: Vec<DocStruct>,
    pub enums: Vec<DocEnum>,
}

/// Every position in `0..K` is hit by some enum value: injective positions
/// below `K`, of `K` values, cover the range.
pub proof fn lemma_positions_cover(values: Seq<(String, usize)>, p: int)
    requires
        positions_ok(values),
        0 <= p < values.len(),
    ensures
        exists|i: int| 0 <= i < values.len() && (#[trigger] values[i]).1 == p,
{
    if !(exists|i: int| 0 <= i < values.len() && (#[trigger] values[i]).1 == p) {
        // remap every position above p down by one: the images stay
        // distinct and fall below K - 1, which K distinct values cannot do
        let k = values.len() as int;
        let remap = Seq::new(
            values.len(),
            |i: int|
                if values[i].1 > p {
                    (values[i].1 - 1) as usize
                } else {
                    values[i].1
                },
        );
        assert forall|i: int| 0 <= i < remap.len() implies (#[trigger] remap[i]) < (k
            - 1) as nat by {
            assert(values[i].1 != p);
            assert(values[i].1 < values.len());
        }
        assert(remap.no_duplicates()) by {
            assert forall|i: int, j: int|
                0 <= i < remap.len() && 0 <= j < remap.len() && i != j implies remap[i]
                != remap[j] by {
                assert(values[i].1 != values[j].1);
                assert(values[i].1 != p && values[j].1 != p);
            }
        }
        crate::bases::lemma_distinct_bounded(remap, (k - 1) as nat);
        assert(false);
    }
}

/// Builds the field-position array of an enum: index `i` holds the name
/// declared at position `i`, whatever the textual order of the values.
pub fn enum_field_positions(values: &Vec<(String, usize)>) -> (r: Vec<String>)
    requires
        positions_ok(values@),
    ensures
        r@.len() == values@.len(),
        forall|i: int|
            0 <= i < values@.len() ==> r@[(#[trigger] values@[i]).1 as int]@ == values@[i].0@,
{
    let mut r: Vec<String> = Vec::new();
    let mut z: usize = 0;
    while z < values.len()
        invariant
            0 <= z <= values@.len(),
            r@.len() == z,
        decreases values@.len() - z,
    {
        r.push(String::new());
        z = z + 1;
    }
    let mut i: usize = 0;
    while i < values.len()
        invariant
            positions_ok(values@),
            0 <= i <= values@.len(),
            r@.len() == values@.len(),
            forall|j: int|
                0 <= j < i ==> r@[(#[trigger] values@[j]).1 as int]@ == values@[j].0@,
        decreases values@.len() - i,
    {
        let pos = values[i].1;
        r.set(pos, values[i].0.clone());
        proof {
            assert forall|j: int|
                0 <= j < i + 1 implies r@[(#[trigger] values@[j]).1 as int]@ == values@[j].0@ by {
                if j < i as int {
                    assert(values@[j].1 != values@[i as int].1);
                }
            }
        }
        i = i + 1;
    }
    r
}

/// Renders a visibility keyword.
fn visibility_str(v: &Visibility) -> (r: String)
    ensures
        match *v {
            Visibility::Public => r@ == "public"@,
            Visibility::Private => r@ == "private"@,
            Visibility::Internal => r@ == "internal"@,
            Visibility::External => r@ == "external"@,
        },
{
    match v {
        Visibility::Public => "public".to_owned(),
        Visibility::Private => "private".to_owned(),
        Visibility::Internal => "internal".to_owned(),
        Visibility::External => "external".to_owned(),
    }
}

/// What the documentation model of one contract variable must hold: the
/// source variable's name, its storage classification, the rendered
/// visibility keyword, and the first tag of each documentation kind.
pub open spec fn doc_var_of(ns: Namespace, c: int, v: int, r: DocVariable) -> bool {
    let src = ns.contracts@[c].variables@[v];
    &&& r.name@ == src.name@
    &&& r.constant == src.constant
    &&& (src.visibility == Visibility::Public ==> r.visibility@ == "public"@)
    &&& (src.visibility == Visibility::Private ==> r.visibility@ == "private"@)
    &&& (src.visibility == Visibility::Internal ==> r.visibility@ == "internal"@)
    &&& (src.visibility == Visibility::External ==> r.visibility@ == "external"@)
    &&& match r.title {
        Some(t) => spec_find_tag(src.tags@, "title"@) == Some(t@),
        None => spec_find_tag(src.tags@, "title"@) is None,
    }
    &&& match r.notice {
        Some(t) => spec_find_tag(src.tags@, "notice"@) == Some(t@),
        None => spec_find_tag(src.tags@, "notice"@) is None,
    }
    &&& match r.author {
        Some(t) => spec_find_tag(src.tags@, "author"@) == Some(t@),
        None => spec_find_tag(src.tags@, "author"@) is None,
    }
    &&& match r.dev {
        Some(t) => spec_find_tag(src.tags@, "dev"@) == Some(t@),
        None => spec_find_tag(src.tags@, "dev"@) is None,
    }
}

/// Whether a documentation entry is the faithful image of some variable of
/// a linearized base other than the contract itself, naming that base.
pub open spec fn inherited_entry_ok(
    ns: Namespace,
    order: Seq<usize>,
    self_no: usize,
    d: DocVariable,
) -> bool {
    exists|c: usize, v: int|
        order.contains(c) && c != self_no && c < ns.contracts@.len() && 0 <= v < ns.contracts@[
            c as int
        ].variables@.len() && #[trigger] doc_var_of(ns, c as int, v, d) && (
        d.base_contract matches Some(b) && b@ == ns.contracts@[c as int].name@)
}

/// Maps one contract variable into the documentation model; `base` names
/// the declaring base contract for inherited entries and is `None` exactly
/// for the contract's own.
fn map_var(
    ns: &Namespace,
    base: Option<&String>,
    c: usize,
    v: usize,
) -> (r: DocVariable)
    requires
        c < ns.contracts@.len(),
        v < ns.contracts@[c as int].variables@.len(),
    ensures
        doc_var_of(*ns, c as int, v as int, r),
        match (base, r.base_contract) {
            (Some(b0), Some(bc)) => bc@ == b0@,
            (None, None) => true,
            _ => false,
        },
{
    let var = &ns.contracts[c].variables[v];
    DocVariable {
        name: var.name.clone(),
        constant: !var.is_storage(),
        base_contract: match base {
            Some(b) => Some(b.clone()),
            None => None,
        },
        ty: var.ty.to_string(ns),
        visibility: visibility_str(&var.visibility),
        title: get_tag("title", &var.tags),
        notice: get_tag("notice", &var.tags),
        author: get_tag("author", &var.tags),
        dev: get_tag("dev", &var.tags),
    }
}

/// How many variables the linearized bases other than the contract itself
/// contribute: the members an instance inherits.
pub open spec fn inherited_var_count(ns: Namespace, order: Seq<usize>, self_no: usize) -> int
    decreases order.len(),
{
    if order.len() == 0 {
        0
    } else {
        inherited_var_count(ns, order.drop_last(), self_no) + if order.last() != self_no
            && order.last() < ns.contracts@.len() {
            ns.contracts@[order.last() as int].variables@.len() as int
        } else {
            0
        }
    }
}

/// Gathers one contract's own and inherited variable lists, `order` being
/// its linearized inheritance list. The two lists are disjoint: an own
/// entry never names a base contract, an inherited entry always does.
/// Together they hold every storage or constant member visible on an
/// instance: one entry per own variable, in order, and exactly one per
/// variable of every linearized base other than the contract itself.
pub fn contract_variables(ns: &Namespace, contract_no: usize, order: &Vec<usize>) -> (r: (
    Vec<DocVariable>,
    Vec<DocVariable>,
))
    requires
        contract_no < ns.contracts@.len(),
        forall|p: int| 0 <= p < order@.len() ==> (#[trigger] order@[p]) < ns.contracts@.len(),
    ensures
        r.0@.len() == ns.contracts@[contract_no as int].variables@.len(),
        forall|i: int|
            0 <= i < r.0@.len() ==> (#[trigger] r.0@[i]).base_contract is None && doc_var_of(
                *ns,
                contract_no as int,
                i,
                r.0@[i],
            ),
        forall|i: int| 0 <= i < r.1@.len() ==> (#[trigger] r.1@[i]).base_contract is Some,
        r.1@.len() == inherited_var_count(*ns, order@, contract_no),
        forall|i: int|
            0 <= i < r.1@.len() ==> inherited_entry_ok(*ns, order@, contract_no, #[trigger] r.1@[i]),
{
    let mut own: Vec<DocVariable> = Vec::new();
    let mut vi: usize = 0;
    while vi < ns.contracts[contract_no].variables.len()
        invariant
            contract_no < ns.contracts@.len(),
            0 <= vi <= ns.contracts@[contract_no as int].variables@.len(),
            own@.len() == vi,
            forall|i: int|
                0 <= i < own@.len() ==> (#[trigger] own@[i]).base_contract is None && doc_var_of(
                    *ns,
                    contract_no as int,
                    i,
                    own@[i],
                ),
        decreases ns.contracts@[contract_no as int].variables@.len() - vi,
    {
        own.push(map_var(ns, None, contract_no, vi));
        vi = vi + 1;
    }
    proof {
        assert(order@.take(0) =~= Seq::<usize>::empty());
    }
    let mut inherited: Vec<DocVariable> = Vec::new();
    // ghost record of each inherited entry's declaring base and variable
    let ghost mut isrcs: Seq<(usize, int)> = Seq::empty();
    let mut oi: usize = 0;
    while oi < order.len()
        invariant
            contract_no < ns.contracts@.len(),
            forall|p: int| 0 <= p < order@.len() ==> (#[trigger] order@[p]) < ns.contracts@.len(),
            0 <= oi <= order@.len(),
            forall|i: int|
                0 <= i < inherited@.len() ==> (#[trigger] inherited@[i]).base_contract is Some,
            inherited@.len() == inherited_var_count(*ns, order@.take(oi as int), contract_no),
            isrcs.len() == inherited@.len(),
            forall|i: int|
                0 <= i < isrcs.len() ==> order@.contains((#[trigger] isrcs[i]).0) && isrcs[i].0
                    != contract_no && isrcs[i].0 < ns.contracts@.len() && 0 <= isrcs[i].1
                    < ns.contracts@[isrcs[i].0 as int].variables@.len() && doc_var_of(
                    *ns,
                    isrcs[i].0 as int,
                    isrcs[i].1,
                    inherited@[i],
                ) && (inherited@[i].base_contract matches Some(b) && b@ == ns.contracts@[
                    isrcs[i].0 as int
                ].name@),
        decreases order@.len() - oi,
    {
        proof {
            assert(order@.take(oi as int + 1).drop_last() =~= order@.take(oi as int));
            assert(order@.take(oi as int + 1).last() == order@[oi as int]);
        }
        let b = order[oi];
        if b != contract_no {
            let mut bvi: usize = 0;
            while bvi < ns.contracts[b].variables.len()
                invariant
                    contract_no < ns.contracts@.len(),
                    forall|p: int|
                        0 <= p < order@.len() ==> (#[trigger] order@[p]) < ns.contracts@.len(),
                    oi < order@.len(),
                    b == order@[oi as int],
                    b != contract_no,
                    b < ns.contracts@.len(),
                    0 <= bvi <= ns.contracts@[b as int].variables@.len(),
                    forall|i: int|
                        0 <= i < inherited@.len() ==> (
                        #[trigger] inherited@[i]).base_contract is Some,
                    inherited@.len() == inherited_var_count(
                        *ns,
                        order@.take(oi as int),
                        contract_no,
                    ) + bvi,
                    isrcs.len() == inherited@.len(),
                    forall|i: int|
                        0 <= i < isrcs.len() ==> order@.contains((#[trigger] isrcs[i]).0)
                            && isrcs[i].0 != contract_no && isrcs[i].0 < ns.contracts@.len() && 0
                            <= isrcs[i].1 < ns.contracts@[isrcs[i].0 as int].variables@.len()
                            && doc_var_of(*ns, isrcs[i].0 as int, isrcs[i].1, inherited@[i]) && (
                        inherited@[i].base_contract matches Some(bn) && bn@ == ns.contracts@[
                            isrcs[i].0 as int
                        ].name@),
                decreases ns.contracts@[b as int].variables@.len() - bvi,
            {
                let base_name = &ns.contracts[b].name;
                inherited.push(map_var(ns, Some(base_name), b, bvi));
                proof {
                    assert(order@[oi as int] == b);
                    assert(order@.contains(b));
                    isrcs = isrcs.push((b, bvi as int));
                }
                bvi = bvi + 1;
            }
        }
        oi = oi + 1;
    }
    proof {
        assert(order@.take(order@.len() as int) =~= order@);
    }
    let res = (own, inherited);
    proof {
        assert forall|i: int| 0 <= i < res.1@.len() implies inherited_entry_ok(
            *ns,
            order@,
            contract_no,
            #[trigger] res.1@[i],
        ) by {
            let (c0, v0) = isrcs[i];
            assert(order@.contains(c0) && c0 != contract_no && c0 < ns.contracts@.len() && 0
                <= v0 < ns.contracts@[c0 as int].variables@.len() && doc_var_of(
                *ns,
                c0 as int,
                v0,
                res.1@[i],
            ) && (res.1@[i].base_contract matches Some(b) && b@ == ns.contracts@[
                c0 as int
            ].name@));
        }
    }
    res
}

/// A contract's own and inherited variable lists are disjoint: no record
/// appears in both, because own entries carry no base-contract name and
/// inherited entries always carry one.
pub proof fn lemma_own_inherited_disjoint(own: Seq<DocVariable>, inherited: Seq<DocVariable>)
    requires
        forall|i: int| 0 <= i < own.len() ==> (#[trigger] own[i]).base_contract is None,
        forall|i: int| 0 <= i < inherited.len() ==> (#[trigger] inherited[i]).base_contract is Some,
    ensures
        forall|i: int, j: int|
            0 <= i < own.len() && 0 <= j < inherited.len() ==> (#[trigger] own[i]) != (
            #[trigger] inherited[j]),
{
}

/// Gathers the render-ready documentation model of the given namespaces,
/// recording each declaration once however many namespaces include it.
#[verifier::loop_isolation(false)]
pub fn gather_docs(files: &Vec<Namespace>) -> (top: DocTop)
    ensures
        forall|p: int, q: int|
            0 <= p < top.contracts@.len() && 0 <= q < p ==> (#[trigger] top.contracts@[p]).loc
                != (#[trigger] top.contracts@[q]).loc,
        forall|p: int, q: int|
            0 <= p < top.events@.len() && 0 <= q < p ==> (#[trigger] top.events@[p]).loc != (
            #[trigger] top.events@[q]).loc,
        forall|p: int, q: int|
            0 <= p < top.structs@.len() && 0 <= q < p ==> (#[trigger] top.structs@[p]).loc != (
            #[trigger] top.structs@[q]).loc,
        forall|p: int, q: int|
            0 <= p < top.enums@.len() && 0 <= q < p ==> (#[trigger] top.enums@[p]).loc != (
            #[trigger] top.enums@[q]).loc,
        forall|f: int, d: int|
            #![trigger files@[f].events@[d]]
            0 <= f < files@.len() && 0 <= d < files@[f].events@.len() ==> exists|p: int|
                0 <= p < top.events@.len() && (#[trigger] top.events@[p]).loc
                    == files@[f].events@[d].loc,
        forall|f: int, d: int|
            #![trigger files@[f].structs@[d]]
            0 <= f < files@.len() && 0 <= d < files@[f].structs@.len() ==> exists|p: int|
                0 <= p < top.structs@.len() && (#[trigger] top.structs@[p]).loc
                    == files@[f].structs@[d].loc,
        forall|f: int, d: int|
            #![trigger files@[f].enums@[d]]
            0 <= f < files@.len() && 0 <= d < files@[f].enums@.len() ==> exists|p: int|
                0 <= p < top.enums@.len() && (#[trigger] top.enums@[p]).loc
                    == files@[f].enums@[d].loc,
        forall|f: int, d: int|
            #![trigger files@[f].contracts@[d]]
            0 <= f < files@.len() && 0 <= d < files@[f].contracts@.len() && crate::bases::bases_in_range(
                files@[f].contracts@,
            ) ==> exists|p: int|
                0 <= p < top.contracts@.len() && (#[trigger] top.contracts@[p]).loc
                    == files@[f].contracts@[d].loc,
{
    let mut contracts: Vec<DocContract> = Vec::new();
    let mut contract_locs: Vec<Loc> = Vec::new();
    let mut events: Vec<DocEvent> = Vec::new();
    let mut event_locs: Vec<Loc> = Vec::new();
    let mut structs: Vec<DocStruct> = Vec::new();
    let mut struct_locs: Vec<Loc> = Vec::new();
    let mut enums: Vec<DocEnum> = Vec::new();
    let mut enum_locs: Vec<Loc> = Vec::new();
    let mut fi: usize = 0;
    while fi < files.len()
        invariant
            event_locs@.len() == events@.len(),
            forall|p: int| 0 <= p < events@.len() ==> (#[trigger] events@[p]).loc == event_locs@[p],
            forall|p: int, q: int|
                0 <= p < events@.len() && 0 <= q < p ==> (#[trigger] events@[p]).loc != (
                #[trigger] events@[q]).loc,
            struct_locs@.len() == structs@.len(),
            forall|p: int|
                0 <= p < structs@.len() ==> (#[trigger] structs@[p]).loc == struct_locs@[p],
            forall|p: int, q: int|
                0 <= p < structs@.len() && 0 <= q < p ==> (#[trigger] structs@[p]).loc != (
                #[trigger] structs@[q]).loc,
            enum_locs@.len() == enums@.len(),
            forall|p: int| 0 <= p < enums@.len() ==> (#[trigger] enums@[p]).loc == enum_locs@[p],
            forall|p: int, q: int|
                0 <= p < enums@.len() && 0 <= q < p ==> (#[trigger] enums@[p]).loc != (
                #[trigger] enums@[q]).loc,
            contract_locs@.len() == contracts@.len(),
            forall|p: int|
                0 <= p < contracts@.len() ==> (#[trigger] contracts@[p]).loc == contract_locs@[p],
            forall|p: int, q: int|
                0 <= p < contracts@.len() && 0 <= q < p ==> (#[trigger] contracts@[p]).loc != (
                #[trigger] contracts@[q]).loc,
            0 <= fi <= files@.len(),
            forall|f: int, d: int|
                #![trigger files@[f].events@[d]]
                0 <= f < fi && 0 <= d < files@[f].events@.len() ==> event_locs@.contains(
                    files@[f].events@[d].loc,
                ),
            forall|f: int, d: int|
                #![trigger files@[f].structs@[d]]
                0 <= f < fi && 0 <= d < files@[f].structs@.len() ==> struct_locs@.contains(
                    files@[f].structs@[d].loc,
                ),
            forall|f: int, d: int|
                #![trigger files@[f].enums@[d]]
                0 <= f < fi && 0 <= d < files@[f].enums@.len() ==> enum_locs@.contains(
                    files@[f].enums@[d].loc,
                ),
            forall|f: int, d: int|
                #![trigger files@[f].contracts@[d]]
                0 <= f < fi && 0 <= d < files@[f].contracts@.len()
                    && crate::bases::bases_in_range(files@[f].contracts@)
                    ==> contract_locs@.contains(files@[f].contracts@[d].loc),
        decreases files@.len() - fi,
    {
        let file = &files[fi];
        let mut ei: usize = 0;
        while ei < file.events.len()
            invariant
                0 <= ei <= file.events@.len(),
                event_locs@.len() == events@.len(),
                forall|p: int|
                    0 <= p < events@.len() ==> (#[trigger] events@[p]).loc == event_locs@[p],
                forall|p: int, q: int|
                    0 <= p < events@.len() && 0 <= q < p ==> (#[trigger] events@[p]).loc != (
                    #[trigger] events@[q]).loc,
                forall|f: int, d: int|
                    #![trigger files@[f].events@[d]]
                    0 <= f < files@.len() && 0 <= d < files@[f].events@.len() && (f < fi || (f
                        == fi && d < ei)) ==> event_locs@.contains(files@[f].events@[d].loc),
            decreases file.events@.len() - ei,
        {
            let d = &file.events[ei];
            if !crate::sema::loc_seen(&event_locs, d.loc) {
                let mut field: Vec<DocField> = Vec::new();
                let mut fj: usize = 0;
                while fj < d.fields.len()
                    invariant
                        fi < files@.len(),
                        ei < file.events@.len(),
                        file == files@[fi as int],
                        d == file.events@[ei as int],
                    decreases d.fields@.len() - fj,
                {
                    let f = &d.fields[fj];
                    field.push(
                        DocField {
                            name: f.name.clone(),
                            ty: f.ty.to_string(file),
                            indexed: f.indexed,
                            doc: get_tag_no("param", fj, &d.tags),
                        },
                    );
                    fj = fj + 1;
                }
                event_locs.push(d.loc);
                events.push(
                    DocEvent {
                        loc: d.loc,
                        name: d.name.clone(),
                        contract: match &d.contract {
                            Some(c) => Some(c.clone()),
                            None => None,
                        },
                        anonymous: d.anonymous,
                        field,
                        title: get_tag("title", &d.tags),
                        notice: get_tag("notice", &d.tags),
                        author: get_tag("author", &d.tags),
                        dev: get_tag("dev", &d.tags),
                    },
                );
            }
            ei = ei + 1;
        }
        let mut si: usize = 0;
        while si < file.structs.len()
            invariant
                0 <= si <= file.structs@.len(),
                struct_locs@.len() == structs@.len(),
                forall|p: int|
                    0 <= p < structs@.len() ==> (#[trigger] structs@[p]).loc == struct_locs@[p],
                forall|p: int, q: int|
                    0 <= p < structs@.len() && 0 <= q < p ==> (#[trigger] structs@[p]).loc != (
                    #[trigger] structs@[q]).loc,
                forall|f: int, d: int|
                    #![trigger files@[f].structs@[d]]
                    0 <= f < files@.len() && 0 <= d < files@[f].structs@.len() && (f < fi || (f
                        == fi && d < si)) ==> struct_locs@.contains(files@[f].structs@[d].loc),
            decreases file.structs@.len() - si,
        {
            let d = &file.structs[si];
            if !crate::sema::loc_seen(&struct_locs, d.loc) {
                let mut field: Vec<DocField> = Vec::new();
                let mut fj: usize = 0;
                while fj < d.fields.len()
                    invariant
                        fi < files@.len(),
                        si < file.structs@.len(),
                        file == files@[fi as int],
                        d == file.structs@[si as int],
                    decreases d.fields@.len() - fj,
                {
                    let f = &d.fields[fj];
                    field.push(
                        DocField {
                            name: f.name.clone(),
                            ty: f.ty.to_string(file),
                            indexed: false,
                            doc: get_tag_no("param", fj, &d.tags),
                        },
                    );
                    fj = fj + 1;
                }
                struct_locs.push(d.loc);
                structs.push(
                    DocStruct {
                        loc: d.loc,
                        name: d.name.clone(),
                        contract: match &d.contract {
                            Some(c) => Some(c.clone()),
                            None => None,
                        },
                        field,
                        title: get_tag("title", &d.tags),
                        notice: get_tag("notice", &d.tags),
                        author: get_tag("author", &d.tags),
                        dev: get_tag("dev", &d.tags),
                    },
                );
            }
            si = si + 1;
        }
        let mut ni: usize = 0;
        while ni < file.enums.len()
            invariant
                0 <= ni <= file.enums@.len(),
                enum_locs@.len() == enums@.len(),
                forall|p: int|
                    0 <= p < enums@.len() ==> (#[trigger] enums@[p]).loc == enum_locs@[p],
                forall|p: int, q: int|
                    0 <= p < enums@.len() && 0 <= q < p ==> (#[trigger] enums@[p]).loc != (
                    #[trigger] enums@[q]).loc,
                forall|f: int, d: int|
                    #![trigger files@[f].enums@[d]]
                    0 <= f < files@.len() && 0 <= d < files@[f].enums@.len() && (f < fi || (f
                        == fi && d < ni)) ==> enum_locs@.contains(files@[f].enums@[d].loc),
            decreases file.enums@.len() - ni,
        {
            let d = &file.enums[ni];
            if !crate::sema::loc_seen(&enum_locs, d.loc) {
                let field = if crate::sema::check_enum_positions(&d.values) {
                    enum_field_positions(&d.values)
                } else {
                    Vec::new()
                };
                enum_locs.push(d.loc);
                enums.push(
                    DocEnum {
                        loc: d.loc,
                        name: d.name.clone(),
                        contract: match &d.contract {
                            Some(c) => Some(c.clone()),
                            None => None,
                        },
                        field,
                        title: get_tag("title", &d.tags),
                        notice: get_tag("notice", &d.tags),
                        author: get_tag("author", &d.tags),
                        dev: get_tag("dev", &d.tags),
                    },
                );
            }
            ni = ni + 1;
        }
        // contracts need a well-formed base table for the linearizer; a
        // file that fails the check keeps its contracts out of the document
        let mut ok = true;
        let mut ci: usize = 0;
        while ci < file.contracts.len()
            invariant
                fi < files@.len(),
                file == files@[fi as int],
                0 <= ci <= file.contracts@.len(),
                ok ==> forall|i: int, j: int|
                    0 <= i < ci && 0 <= j < file.contracts@[i].bases@.len() ==> (
                    #[trigger] file.contracts@[i].bases@[j]) < file.contracts@.len(),
                !ok ==> !crate::bases::bases_in_range(file.contracts@),
            decreases file.contracts@.len() - ci,
        {
            let bs = &file.contracts[ci].bases;
            let mut bj: usize = 0;
            while bj < bs.len()
                invariant
                    fi < files@.len(),
                    ci < file.contracts@.len(),
                    file == files@[fi as int],
                    bs@ == file.contracts@[ci as int].bases@,
                    0 <= bj <= bs@.len(),
                    ok ==> forall|i: int, j: int|
                        0 <= i < ci && 0 <= j < file.contracts@[i].bases@.len() ==> (
                        #[trigger] file.contracts@[i].bases@[j]) < file.contracts@.len(),
                    ok ==> forall|j: int|
                        0 <= j < bj ==> (#[trigger] bs@[j]) < file.contracts@.len(),
                    !ok ==> !crate::bases::bases_in_range(file.contracts@),
                decreases bs@.len() - bj,
            {
                if bs[bj] >= file.contracts.len() {
                    proof {
                        assert(file.contracts@[ci as int].bases@[bj as int]
                            >= file.contracts@.len());
                    }
                    ok = false;
                }
                bj = bj + 1;
            }
            ci = ci + 1;
        }
        if ok {
            proof {
                assert(crate::bases::bases_in_range(file.contracts@));
            }
            let mut c2: usize = 0;
            while c2 < file.contracts.len()
                invariant
                    fi < files@.len(),
                    file == files@[fi as int],
                    crate::bases::bases_in_range(file.contracts@),
                    0 <= c2 <= file.contracts@.len(),
                    contract_locs@.len() == contracts@.len(),
                    forall|p: int|
                        0 <= p < contracts@.len() ==> (#[trigger] contracts@[p]).loc
                            == contract_locs@[p],
                    forall|p: int, q: int|
                        0 <= p < contracts@.len() && 0 <= q < p ==> (
                        #[trigger] contracts@[p]).loc != (#[trigger] contracts@[q]).loc,
                    forall|f: int, d: int|
                        #![trigger files@[f].contracts@[d]]
                        0 <= f < files@.len() && 0 <= d < files@[f].contracts@.len() && (f < fi
                            || (f == fi && d < c2)) && crate::bases::bases_in_range(
                            files@[f].contracts@,
                        ) ==> contract_locs@.contains(files@[f].contracts@[d].loc),
                decreases file.contracts@.len() - c2,
            {
                let d = &file.contracts[c2];
                if !crate::sema::loc_seen(&contract_locs, d.loc) {
                    let order = visit_bases(c2, file);
                    let (variables, base_variables) = contract_variables(file, c2, &order);
                    let kind = match d.kind {
                        crate::ast::ContractKind::Contract => "contract".to_owned(),
                        crate::ast::ContractKind::Library => "library".to_owned(),
                        crate::ast::ContractKind::Interface => "interface".to_owned(),
                    };
                    contract_locs.push(d.loc);
                    contracts.push(
                        DocContract {
                            loc: d.loc,
                            name: d.name.clone(),
                            ty: kind,
                            variables,
                            base_variables,
                            title: get_tag("title", &d.tags),
                            notice: get_tag("notice", &d.tags),
                            author: get_tag("author", &d.tags),
                            dev: get_tag("dev", &d.tags),
                        },
                    );
                }
                c2 = c2 + 1;
            }
        }
        fi = fi + 1;
    }
    proof {
        assert forall|f: int, d: int|
            0 <= f < files@.len() && 0 <= d < (#[trigger] files@[f].events@[d], files@[f].events@).1.len() implies exists|p: int|
            0 <= p < events@.len() && (#[trigger] events@[p]).loc == files@[f].events@[d].loc by {
            let l = files@[f].events@[d].loc;
            assert(event_locs@.contains(l));
            let q = choose|q: int| 0 <= q < event_locs@.len() && event_locs@[q] == l;
            assert(events@[q].loc == l);
        }
        assert forall|f: int, d: int|
            0 <= f < files@.len() && 0 <= d < (#[trigger] files@[f].structs@[d], files@[f].structs@).1.len() implies exists|p: int|
            0 <= p < structs@.len() && (#[trigger] structs@[p]).loc == files@[f].structs@[d].loc by {
            let l = files@[f].structs@[d].loc;
            assert(struct_locs@.contains(l));
            let q = choose|q: int| 0 <= q < struct_locs@.len() && struct_locs@[q] == l;
            assert(structs@[q].loc == l);
        }
        assert forall|f: int, d: int|
            0 <= f < files@.len() && 0 <= d < (#[trigger] files@[f].enums@[d], files@[f].enums@).1.len() implies exists|p: int|
            0 <= p < enums@.len() && (#[trigger] enums@[p]).loc == files@[f].enums@[d].loc by {
            let l = files@[f].enums@[d].loc;
            assert(enum_locs@.contains(l));
            let q = choose|q: int| 0 <= q < enum_locs@.len() && enum_locs@[q] == l;
            assert(enums@[q].loc == l);
        }
        assert forall|f: int, d: int|
            0 <= f < files@.len() && 0 <= d < (#[trigger] files@[f].contracts@[d], files@[f].contracts@).1.len()
                && crate::bases::bases_in_range(files@[f].contracts@) implies exists|p: int|
            0 <= p < contracts@.len() && (#[trigger] contracts@[p]).loc == files@[
                f
            ].contracts@[d].loc by {
            let l = files@[f].contracts@[d].loc;
            assert(contract_locs@.contains(l));
            let q = choose|q: int| 0 <= q < contract_locs@.len() && contract_locs@[q] == l;
            assert(contracts@[q].loc == l);
        }
    }
    DocTop { contracts, events, structs, enums }
}

} // verus!
