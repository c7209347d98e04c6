//! Inheritance linearization: the ordered, deduplicated list of a contract
//! and all its ancestors, produced by a visited-set-guarded traversal that
//! terminates even on circular base declarations.

use crate::namespace::{Contract, Namespace};
use vstd::prelude::*;

verus! {

broadcast use vstd::seq_lib::group_seq_properties;

/// Every declared base index stays inside the contract table.
pub open spec fn bases_in_range(contracts: Seq<Contract>) -> bool {
    forall|i: int, j: int|
        0 <= i < contracts.len() && 0 <= j < contracts[i].bases@.len()
            ==> (#[trigger] contracts[i].bases@[j]) < contracts.len()
}

/// A set of contract indices closed under taking declared bases.
pub open spec fn spec_closed(contracts: Seq<Contract>, s: Set<int>) -> bool {
    forall|i: int, j: int|
        s.contains(i) && 0 <= i < contracts.len() && 0 <= j < contracts[i].bases@.len()
            ==> s.contains(#[trigger] contracts[i].bases@[j] as int)
}

/// All values of a vector lie in the set.
pub open spec fn all_in(v: Seq<usize>, s: Set<int>) -> bool {
    forall|p: int| 0 <= p < v.len() ==> s.contains(#[trigger] v[p] as int)
}

/// `target` belongs to every bases-closed set containing the seeds: the
/// exact meaning of "reachable through the inheritance relation".
pub open spec fn spec_reaches(contracts: Seq<Contract>, seeds: Seq<usize>, target: int) -> bool {
    forall|s: Set<int>|
        #[trigger] spec_closed(contracts, s) && all_in(seeds, s) ==> s.contains(target)
}

/// A duplicate-free sequence of indices below `n` has at most `n` elements.
pub proof fn lemma_distinct_bounded(s: Seq<usize>, n: nat)
    requires
        s.no_duplicates(),
        forall|i: int| 0 <= i < s.len() ==> (#[trigger] s[i]) < n,
    ensures
        s.len() <= n,
    decreases n,
{
    if s.len() > 0 {
        assert(s[0] < n);
        if exists|i: int| 0 <= i < s.len() && s[i] == n - 1 {
            let i = choose|i: int| 0 <= i < s.len() && s[i] == n - 1;
            let s2 = s.take(i).add(s.skip(i + 1));
            assert forall|p: int| 0 <= p < s2.len() implies (#[trigger] s2[p]) < (n
                - 1) as nat by {
                if p < i {
                    assert(s2[p] == s[p]);
                    assert(s[p] != s[i]);
                } else {
                    assert(s2[p] == s[p + 1]);
                    assert(s[p + 1] != s[i]);
                }
            }
            assert(s2.no_duplicates()) by {
                assert forall|p: int, q: int|
                    0 <= p < s2.len() && 0 <= q < s2.len() && p != q implies s2[p]
                    != s2[q] by {
                    let p1: int = if p < i { p } else { p + 1 };
                    let q1: int = if q < i { q } else { q + 1 };
                    assert(s2[p] == s[p1] && s2[q] == s[q1]);
                }
            }
            lemma_distinct_bounded(s2, (n - 1) as nat);
        } else {
            assert(forall|i: int| 0 <= i < s.len() ==> (#[trigger] s[i]) < (n - 1) as nat);
            lemma_distinct_bounded(s, (n - 1) as nat);
        }
    }
}

/// Linear scan for membership.
pub fn vec_contains(v: &Vec<usize>, x: usize) -> (r: bool)
    ensures
        r == v@.contains(x),
{
    let mut i: usize = 0;
    while i < v.len()
        invariant
            0 <= i <= v@.len(),
            forall|p: int| 0 <= p < i ==> v@[p] != x,
        decreases v@.len() - i,
    {
        if v[i] == x {
            return true;
        }
        i = i + 1;
    }
    false
}

/// The deduplicated set of contracts reachable from the seed indices,
/// discovered depth first; the first entry is the last seed. The visited
/// list guards the traversal, so circular declarations terminate.
///
/// The result is exactly the least bases-closed set containing the seeds:
/// it contains the seeds, is closed, has no duplicates, and every element
/// belongs to every closed set containing the seeds.
pub fn closure_of(contracts: &Vec<Contract>, seeds: &Vec<usize>) -> (r: Vec<usize>)
    requires
        bases_in_range(contracts@),
        forall|p: int| 0 <= p < seeds@.len() ==> (#[trigger] seeds@[p]) < contracts@.len(),
    ensures
        r@.no_duplicates(),
        forall|p: int| 0 <= p < r@.len() ==> (#[trigger] r@[p]) < contracts@.len(),
        forall|p: int| 0 <= p < seeds@.len() ==> r@.contains(#[trigger] seeds@[p]),
        forall|p: int, j: int|
            0 <= p < r@.len() && 0 <= j < contracts@[r@[p] as int].bases@.len() ==> r@.contains(
                #[trigger] contracts@[r@[p] as int].bases@[j],
            ),
        forall|p: int|
            0 <= p < r@.len() ==> spec_reaches(contracts@, seeds@, #[trigger] r@[p] as int),
        seeds@.len() > 0 ==> r@.len() > 0 && r@[0] == seeds@[seeds@.len() - 1],
{
    let n = contracts.len();
    let mut r: Vec<usize> = Vec::new();
    let mut stack: Vec<usize> = Vec::new();
    let mut si: usize = 0;
    while si < seeds.len()
        invariant
            0 <= si <= seeds@.len(),
            stack@ == seeds@.take(si as int),
        decreases seeds@.len() - si,
    {
        stack.push(seeds[si]);
        si = si + 1;
    }
    proof {
        assert(stack@ =~= seeds@);
    }
    while stack.len() > 0
        invariant
            contracts@.len() == n,
            bases_in_range(contracts@),
            r@.no_duplicates(),
            r@.len() <= n,
            forall|p: int| 0 <= p < r@.len() ==> (#[trigger] r@[p]) < n,
            forall|p: int| 0 <= p < stack@.len() ==> (#[trigger] stack@[p]) < n,
            forall|p: int|
                0 <= p < seeds@.len() ==> r@.contains(#[trigger] seeds@[p]) || stack@.contains(
                    seeds@[p],
                ),
            forall|p: int, j: int|
                0 <= p < r@.len() && 0 <= j < contracts@[r@[p] as int].bases@.len()
                    ==> r@.contains(#[trigger] contracts@[r@[p] as int].bases@[j])
                    || stack@.contains(contracts@[r@[p] as int].bases@[j]),
            forall|s: Set<int>|
                #[trigger] spec_closed(contracts@, s) && all_in(seeds@, s) ==> all_in(r@, s)
                    && all_in(stack@, s),
            seeds@.len() > 0 ==> (r@.len() > 0 && r@[0] == seeds@[seeds@.len() - 1]) || (r@.len()
                == 0 && stack@.len() > 0 && stack@[stack@.len() - 1] == seeds@[seeds@.len() - 1]),
        decreases n - r@.len(), stack@.len(),
    {
        let ghost stack0 = stack@;
        let x = stack.pop().unwrap();
        proof {
            assert(stack0[stack0.len() - 1] == x);
            assert forall|b: usize| stack0.contains(b) implies stack@.contains(b) || b
                == x by {
                let q = choose|q: int| 0 <= q < stack0.len() && stack0[q] == b;
                if q < stack0.len() - 1 {
                    assert(stack@[q] == b);
                }
            }
        }
        if !vec_contains(&r, x) {
            r.push(x);
            proof {
                lemma_distinct_bounded(r@, n as nat);
            }
            let bs = &contracts[x].bases;
            let mut bi: usize = bs.len();
            while bi > 0
                invariant
                    contracts@.len() == n,
                    bases_in_range(contracts@),
                    x < n,
                    bs@ == contracts@[x as int].bases@,
                    0 <= bi <= bs@.len(),
                    r@.no_duplicates(),
                    r@.len() <= n,
                    r@.len() > 0 && r@[r@.len() - 1] == x,
                    forall|p: int| 0 <= p < r@.len() ==> (#[trigger] r@[p]) < n,
                    forall|p: int| 0 <= p < stack@.len() ==> (#[trigger] stack@[p]) < n,
                    forall|p: int|
                        0 <= p < seeds@.len() ==> r@.contains(#[trigger] seeds@[p])
                            || stack@.contains(seeds@[p]),
                    forall|p: int, j: int|
                        0 <= p < r@.len() && 0 <= j < contracts@[r@[p] as int].bases@.len() && !(
                        r@[p] == x && j < bi) ==> r@.contains(
                            #[trigger] contracts@[r@[p] as int].bases@[j],
                        ) || stack@.contains(contracts@[r@[p] as int].bases@[j]),
                    forall|s: Set<int>|
                        #[trigger] spec_closed(contracts@, s) && all_in(seeds@, s) ==> all_in(
                            r@,
                            s,
                        ) && all_in(stack@, s),
                    seeds@.len() > 0 ==> r@[0] == seeds@[seeds@.len() - 1],
                decreases bi,
            {
                bi = bi - 1;
                let b = bs[bi];
                proof {
                    let ghost st0 = stack@;
                    assert forall|s: Set<int>|
                        #[trigger] spec_closed(contracts@, s) && all_in(seeds@, s) implies all_in(
                        st0.push(b),
                        s,
                    ) by {
                        assert(s.contains(x as int));
                        assert(s.contains(contracts@[x as int].bases@[bi as int] as int));
                        assert(forall|p: int|
                            0 <= p < st0.push(b).len() ==> s.contains(
                                #[trigger] st0.push(b)[p] as int,
                            ));
                    }
                }
                stack.push(b);
            }
        }
    }
    proof {
        assert forall|p: int| 0 <= p < seeds@.len() implies r@.contains(
            #[trigger] seeds@[p],
        ) by {
            assert(!stack@.contains(seeds@[p]));
        }
    }
    r
}

/// The linearized inheritance list over a contract table: the contract
/// itself first, then every ancestor, depth first, each exactly once.
pub fn visit_bases_of(contracts: &Vec<Contract>, contract_no: usize) -> (r: Vec<usize>)
    requires
        contract_no < contracts@.len(),
        bases_in_range(contracts@),
    ensures
        r@.len() > 0,
        r@[0] == contract_no,
        r@.no_duplicates(),
        forall|p: int| 0 <= p < r@.len() ==> (#[trigger] r@[p]) < contracts@.len(),
        forall|p: int, j: int|
            0 <= p < r@.len() && 0 <= j < contracts@[r@[p] as int].bases@.len() ==> r@.contains(
                #[trigger] contracts@[r@[p] as int].bases@[j],
            ),
        forall|p: int|
            0 <= p < r@.len() ==> spec_reaches(
                contracts@,
                seq![contract_no],
                #[trigger] r@[p] as int,
            ),
{
    let mut seeds: Vec<usize> = Vec::new();
    seeds.push(contract_no);
    proof {
        assert(seeds@ =~= seq![contract_no]);
    }
    closure_of(contracts, &seeds)
}

/// The linearized inheritance list of one contract of a namespace.
pub fn visit_bases(contract_no: usize, ns: &Namespace) -> (r: Vec<usize>)
    requires
        contract_no < ns.contracts@.len(),
        bases_in_range(ns.contracts@),
    ensures
        r@.len() > 0,
        r@[0] == contract_no,
        r@.no_duplicates(),
        forall|p: int| 0 <= p < r@.len() ==> (#[trigger] r@[p]) < ns.contracts@.len(),
        forall|p: int, j: int|
            0 <= p < r@.len() && 0 <= j < ns.contracts@[r@[p] as int].bases@.len()
                ==> r@.contains(#[trigger] ns.contracts@[r@[p] as int].bases@[j]),
        forall|p: int|
            0 <= p < r@.len() ==> spec_reaches(
                ns.contracts@,
                seq![contract_no],
                #[trigger] r@[p] as int,
            ),
{
    visit_bases_of(&ns.contracts, contract_no)
}

/// Whether the contract inherits, directly or transitively, from itself.
/// True exactly when the contract lies in every bases-closed set containing
/// its own declared bases: a circular base declaration.
pub fn has_base_cycle(contracts: &Vec<Contract>, contract_no: usize) -> (r: bool)
    requires
        contract_no < contracts@.len(),
        bases_in_range(contracts@),
    ensures
        r == spec_reaches(
            contracts@,
            contracts@[contract_no as int].bases@,
            contract_no as int,
        ),
{
    let cl = closure_of(contracts, &contracts[contract_no].bases);
    let hit = vec_contains(&cl, contract_no);
    proof {
        if hit {
            let p = choose|p: int| 0 <= p < cl@.len() && cl@[p] == contract_no;
            assert(spec_reaches(contracts@, contracts@[contract_no as int].bases@, cl@[p] as int));
        } else {
            // the computed closure itself is a closed set containing the
            // bases but not the contract, so the contract is not reached
            let w = Set::new(|y: int| exists|p: int| 0 <= p < cl@.len() && cl@[p] as int == y);
            assert(spec_closed(contracts@, w)) by {
                assert forall|i: int, j: int|
                    w.contains(i) && 0 <= i < contracts@.len() && 0 <= j
                        < contracts@[i].bases@.len() implies w.contains(
                    #[trigger] contracts@[i].bases@[j] as int,
                ) by {
                    let p = choose|p: int| 0 <= p < cl@.len() && cl@[p] as int == i;
                    assert(cl@.contains(contracts@[cl@[p] as int].bases@[j]));
                    let q = choose|q: int|
                        0 <= q < cl@.len() && cl@[q] == contracts@[cl@[p] as int].bases@[j];
                    assert(w.contains(cl@[q] as int));
                }
            }
            assert(all_in(contracts@[contract_no as int].bases@, w)) by {
                assert forall|p: int|
                    0 <= p < contracts@[contract_no as int].bases@.len() implies w.contains(
                    #[trigger] contracts@[contract_no as int].bases@[p] as int,
                ) by {
                    assert(cl@.contains(contracts@[contract_no as int].bases@[p]));
                    let q = choose|q: int|
                        0 <= q < cl@.len() && cl@[q] == contracts@[contract_no as int].bases@[p];
                    assert(w.contains(cl@[q] as int));
                }
            }
            assert(!w.contains(contract_no as int)) by {
                if w.contains(contract_no as int) {
                    let p = choose|p: int|
                        0 <= p < cl@.len() && cl@[p] as int == contract_no as int;
                    assert(cl@.contains(cl@[p]));
                }
            }
        }
    }
    hit
}

} // verus!
