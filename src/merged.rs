//! Classification of branches whose whole history is contained in another
//! branch.
use vstd::prelude::*;
use crate::names::{has_name, name_set, nonempty, contains_name, has_other_name, lemma_has_name_push};

verus! {

/// A branch offered for deletion, with the branches that contain its history.
#[derive(Clone, Debug)]
pub struct BranchToDeleteInfo {
    pub name: String,
    pub contained_in: Vec<String>,
}

impl BranchToDeleteInfo {
    pub open spec fn view(&self) -> (Seq<char>, Set<Seq<char>>) {
        (self.name@, name_set(self.contained_in@))
    }
}

/// What a list of deletion entries says, entry by entry.
pub open spec fn plan_view(r: Seq<BranchToDeleteInfo>) -> Seq<(Seq<char>, Set<Seq<char>>)> {
    r.map_values(|e: BranchToDeleteInfo| e.view())
}

/// The branches other than `branch` that the repository reported as
/// containing it.
pub open spec fn containers(branch: Seq<char>, containing: Seq<String>) -> Set<Seq<char>> {
    name_set(containing).remove(branch)
}

/// Branch `i` is unprotected and some other branch contains it.
pub open spec fn is_candidate(
    branches: Seq<String>,
    containing: Seq<Vec<String>>,
    protected: Set<Seq<char>>,
    i: int,
) -> bool {
    !protected.contains(branches[i]@) && nonempty(containers(branches[i]@, containing[i]@))
}

/// The names of all candidates.
pub open spec fn candidates(
    branches: Seq<String>,
    containing: Seq<Vec<String>>,
    protected: Set<Seq<char>>,
) -> Set<Seq<char>> {
    Set::new(
        |s: Seq<char>|
            exists|i: int|
                0 <= i < branches.len() && #[trigger] is_candidate(branches, containing, protected, i)
                    && branches[i]@ == s,
    )
}

/// The containers of branch `i` that are not candidates themselves: the
/// branches that stay and hold its history.
pub open spec fn justification(
    branches: Seq<String>,
    containing: Seq<Vec<String>>,
    protected: Set<Seq<char>>,
    i: int,
) -> Set<Seq<char>> {
    containers(branches[i]@, containing[i]@).difference(candidates(branches, containing, protected))
}

/// Branch `i` is offered for deletion.
pub open spec fn is_offered(
    branches: Seq<String>,
    containing: Seq<Vec<String>>,
    protected: Set<Seq<char>>,
    i: int,
) -> bool {
    is_candidate(branches, containing, protected, i) && nonempty(
        justification(branches, containing, protected, i),
    )
}

/// The deletion plan over the first `n` branches, in their order.
pub open spec fn merged_plan(
    branches: Seq<String>,
    containing: Seq<Vec<String>>,
    protected: Set<Seq<char>>,
    n: nat,
) -> Seq<(Seq<char>, Set<Seq<char>>)>
    decreases n,
{
    if n == 0 {
        Seq::empty()
    } else {
        let prev = merged_plan(branches, containing, protected, (n - 1) as nat);
        let i = n - 1;
        if is_offered(branches, containing, protected, i) {
            prev.push((branches[i]@, justification(branches, containing, protected, i)))
        } else {
            prev
        }
    }
}

/// Whether some candidate, as flagged in `cand`, is named `s`.
fn is_candidate_name(
    branches: &Vec<String>,
    cand: &Vec<bool>,
    s: &String,
    Ghost(containing): Ghost<Seq<Vec<String>>>,
    Ghost(protected): Ghost<Set<Seq<char>>>,
) -> (r: bool)
    requires
        cand.len() == branches.len(),
        containing.len() == branches.len(),
        forall|k: int| 0 <= k < cand.len() ==> cand@[k] == is_candidate(branches@, containing, protected, k),
    ensures
        r == candidates(branches@, containing, protected).contains(s@),
{
    let mut i: usize = 0;
    while i < branches.len()
        invariant
            0 <= i <= branches.len(),
            cand.len() == branches.len(),
            containing.len() == branches.len(),
            forall|k: int| 0 <= k < cand.len() ==> cand@[k] == is_candidate(branches@, containing, protected, k),
            forall|k: int| 0 <= k < i ==> !(is_candidate(branches@, containing, protected, k) && (#[trigger] branches@[k])@ == s@),
        decreases branches.len() - i,
    {
        if cand[i] && branches[i] == *s {
            assert(is_candidate(branches@, containing, protected, i as int));
            return true;
        }
        i += 1;
    }
    false
}

/// The branches to offer for deletion: each unprotected branch that another
/// branch contains, with as justification its containers that are not
/// candidates themselves; a branch whose justification is empty is not
/// offered. `containing[i]` is what the repository reported as containing
/// `branches[i]` (the branch itself may be listed).
pub fn deletable_branches(
    branches: &Vec<String>,
    containing: &Vec<Vec<String>>,
    protected: &Vec<String>,
) -> (r: Vec<BranchToDeleteInfo>)
    requires
        containing.len() == branches.len(),
    ensures
        plan_view(r@) == merged_plan(branches@, containing@, name_set(protected@), branches.len() as nat),
{
    let ghost p = name_set(protected@);
    let mut cand: Vec<bool> = Vec::new();
    let mut i: usize = 0;
    while i < branches.len()
        invariant
            0 <= i <= branches.len(),
            containing.len() == branches.len(),
            cand.len() == i,
            p == name_set(protected@),
            forall|k: int| 0 <= k < i ==> cand@[k] == is_candidate(branches@, containing@, p, k),
        decreases branches.len() - i,
    {
        let c = !contains_name(protected, &branches[i]) && has_other_name(&containing[i], &branches[i]);
        cand.push(c);
        i += 1;
    }

    let mut r: Vec<BranchToDeleteInfo> = Vec::new();
    let mut i: usize = 0;
    while i < branches.len()
        invariant
            0 <= i <= branches.len(),
            containing.len() == branches.len(),
            cand.len() == branches.len(),
            p == name_set(protected@),
            forall|k: int| 0 <= k < cand.len() ==> cand@[k] == is_candidate(branches@, containing@, p, k),
            plan_view(r@) == merged_plan(branches@, containing@, p, i as nat),
        decreases branches.len() - i,
    {
        if cand[i] {
            let ghost just = justification(branches@, containing@, p, i as int);
            let list = &containing[i];
            let mut kept: Vec<String> = Vec::new();
            let mut k: usize = 0;
            while k < list.len()
                invariant
                    0 <= k <= list.len(),
                    i < branches.len(),
                    list == containing@[i as int],
                    cand.len() == branches.len(),
                    containing.len() == branches.len(),
                    forall|k: int| 0 <= k < cand.len() ==> cand@[k] == is_candidate(branches@, containing@, p, k),
                    just == justification(branches@, containing@, p, i as int),
                    forall|s: Seq<char>| has_name(kept@, s) <==> (just.contains(s) && has_name(list@.subrange(0, k as int), s)),
                decreases list.len() - k,
            {
                let x = &list[k];
                let keep = *x != branches[i] && !is_candidate_name(branches, &cand, x, Ghost(containing@), Ghost(p));
                let ghost before = kept@;
                if keep {
                    kept.push(x.clone());
                }
                proof {
                    assert(list@[k as int] == *x);
                    assert(has_name(list@, x@));
                    assert(keep == just.contains(x@));
                    let sub = list@.subrange(0, k as int);
                    let sub1 = list@.subrange(0, k + 1);
                    assert(sub1 == sub.push(list@[k as int]));
                    assert forall|s: Seq<char>| has_name(kept@, s) <==> (just.contains(s) && has_name(sub1, s)) by {
                        lemma_has_name_push(sub, list@[k as int], s);
                        if keep {
                            lemma_has_name_push(before, *x, s);
                        }
                    }
                }
                k += 1;
            }
            proof {
                assert(list@.subrange(0, list.len() as int) == list@);
                assert forall|s: Seq<char>| just.contains(s) implies has_name(list@, s) by {
                }
                assert(name_set(kept@) =~= just);
            }
            if kept.len() > 0 {
                proof {
                    assert(kept@[0]@ == kept@[0]@);
                    assert(has_name(kept@, kept@[0]@));
                    assert(just.contains(kept@[0]@));
                }
                let name = branches[i].clone();
                let ghost before = r@;
                r.push(BranchToDeleteInfo { name, contained_in: kept });
                proof {
                    assert(plan_view(r@) =~= plan_view(before).push((branches@[i as int]@, just)));
                }
            } else {
                assert(!nonempty(just)) by {
                    if nonempty(just) {
                        let s = choose|s: Seq<char>| just.contains(s);
                        assert(has_name(kept@, s));
                        let kk = choose|kk: int| 0 <= kk < kept@.len() && (#[trigger] kept@[kk])@ == s;
                    }
                }
            }
        }
        i += 1;
    }
    r
}

/// The entry that offered branch `i` has in the plan.
pub open spec fn plan_entry(
    branches: Seq<String>,
    containing: Seq<Vec<String>>,
    protected: Set<Seq<char>>,
    i: int,
) -> (Seq<char>, Set<Seq<char>>) {
    (branches[i]@, justification(branches, containing, protected, i))
}

/// `e` is the entry of an offered branch among the first `n`.
pub open spec fn is_entry_among(
    branches: Seq<String>,
    containing: Seq<Vec<String>>,
    protected: Set<Seq<char>>,
    n: int,
    e: (Seq<char>, Set<Seq<char>>),
) -> bool {
    exists|i: int|
        0 <= i < n && is_offered(branches, containing, protected, i) && e == #[trigger] plan_entry(
            branches,
            containing,
            protected,
            i,
        )
}

/// Each entry of the plan over the first `n` branches comes from an offered
/// branch among them, and each offered branch among them has its entry.
pub proof fn lemma_merged_plan_entries(
    branches: Seq<String>,
    containing: Seq<Vec<String>>,
    protected: Set<Seq<char>>,
    n: nat,
)
    requires
        n <= branches.len(),
    ensures
        forall|k: int|
            0 <= k < merged_plan(branches, containing, protected, n).len() ==> is_entry_among(
                branches,
                containing,
                protected,
                n as int,
                #[trigger] merged_plan(branches, containing, protected, n)[k],
            ),
        forall|i: int|
            0 <= i < n && #[trigger] is_offered(branches, containing, protected, i)
                ==> merged_plan(branches, containing, protected, n).contains(
                plan_entry(branches, containing, protected, i),
            ),
    decreases n,
{
    if n > 0 {
        lemma_merged_plan_entries(branches, containing, protected, (n - 1) as nat);
        let prev = merged_plan(branches, containing, protected, (n - 1) as nat);
        let cur = merged_plan(branches, containing, protected, n);
        let last = n - 1;
        if is_offered(branches, containing, protected, last) {
            assert(cur == prev.push(plan_entry(branches, containing, protected, last)));
            assert forall|k: int| 0 <= k < cur.len() implies is_entry_among(
                branches, containing, protected, n as int, #[trigger] cur[k]) by {
                if k < prev.len() {
                    assert(cur[k] == prev[k]);
                    assert(is_entry_among(branches, containing, protected, n - 1, prev[k]));
                } else {
                    assert(cur[k] == plan_entry(branches, containing, protected, last));
                }
            }
            assert forall|i: int| 0 <= i < n && #[trigger] is_offered(branches, containing, protected, i)
                implies cur.contains(plan_entry(branches, containing, protected, i)) by {
                if i < last {
                    let k = choose|k: int| 0 <= k < prev.len() && prev[k] == plan_entry(branches, containing, protected, i);
                    assert(cur[k] == prev[k]);
                } else {
                    assert(cur[prev.len() as int] == plan_entry(branches, containing, protected, i));
                }
            }
        } else {
            assert(cur == prev);
            assert forall|k: int| 0 <= k < cur.len() implies is_entry_among(
                branches, containing, protected, n as int, #[trigger] cur[k]) by {
                assert(is_entry_among(branches, containing, protected, n - 1, prev[k]));
            }
        }
    }
}

/// A branch contained in another branch that is not itself a deletion
/// candidate is offered for deletion, and that other branch is among its
/// justification, whether or not the other branch is protected.
pub proof fn law_contained_branch_is_offered(
    branches: Seq<String>,
    containing: Seq<Vec<String>>,
    protected: Set<Seq<char>>,
    i: int,
    container: Seq<char>,
)
    requires
        0 <= i < branches.len(),
        containing.len() == branches.len(),
        !protected.contains(branches[i]@),
        containers(branches[i]@, containing[i]@).contains(container),
        !candidates(branches, containing, protected).contains(container),
    ensures
        exists|k: int|
            0 <= k < merged_plan(branches, containing, protected, branches.len() as nat).len()
                && (#[trigger] merged_plan(branches, containing, protected, branches.len() as nat)[k]).0 == branches[i]@
                && merged_plan(branches, containing, protected, branches.len() as nat)[k].1.contains(container),
{
    let plan = merged_plan(branches, containing, protected, branches.len() as nat);
    assert(is_candidate(branches, containing, protected, i));
    assert(justification(branches, containing, protected, i).contains(container));
    assert(is_offered(branches, containing, protected, i));
    lemma_merged_plan_entries(branches, containing, protected, branches.len() as nat);
    let entry = plan_entry(branches, containing, protected, i);
    assert(plan.contains(entry));
    let k = choose|k: int| 0 <= k < plan.len() && plan[k] == entry;
    assert(plan[k].0 == branches[i]@);
}

/// No protected branch is offered for deletion.
pub proof fn law_merged_plan_skips_protected(
    branches: Seq<String>,
    containing: Seq<Vec<String>>,
    protected: Set<Seq<char>>,
)
    requires
        containing.len() == branches.len(),
    ensures
        forall|k: int|
            0 <= k < merged_plan(branches, containing, protected, branches.len() as nat).len()
                ==> !protected.contains(
                (#[trigger] merged_plan(branches, containing, protected, branches.len() as nat)[k]).0,
            ),
{
    lemma_merged_plan_entries(branches, containing, protected, branches.len() as nat);
}

/// No branch offered for deletion stands as a container of another offered
/// branch: the containers given are never candidates themselves.
pub proof fn law_containers_exclude_candidates(
    branches: Seq<String>,
    containing: Seq<Vec<String>>,
    protected: Set<Seq<char>>,
)
    requires
        containing.len() == branches.len(),
    ensures
        forall|k: int, m: int|
            0 <= k < merged_plan(branches, containing, protected, branches.len() as nat).len()
                && 0 <= m < merged_plan(branches, containing, protected, branches.len() as nat).len()
                ==> !(#[trigger] merged_plan(branches, containing, protected, branches.len() as nat)[k]).1.contains(
                (#[trigger] merged_plan(branches, containing, protected, branches.len() as nat)[m]).0,
            ),
{
    let plan = merged_plan(branches, containing, protected, branches.len() as nat);
    lemma_merged_plan_entries(branches, containing, protected, branches.len() as nat);
    assert forall|k: int, m: int| 0 <= k < plan.len() && 0 <= m < plan.len()
        implies !(#[trigger] plan[k]).1.contains((#[trigger] plan[m]).0) by {
        assert(is_entry_among(branches, containing, protected, branches.len() as int, plan[k]));
        assert(is_entry_among(branches, containing, protected, branches.len() as int, plan[m]));
        let i = choose|i: int| 0 <= i < branches.len() && is_offered(branches, containing, protected, i)
            && plan[k] == #[trigger] plan_entry(branches, containing, protected, i);
        let j = choose|j: int| 0 <= j < branches.len() && is_offered(branches, containing, protected, j)
            && plan[m] == #[trigger] plan_entry(branches, containing, protected, j);
        assert(is_candidate(branches, containing, protected, j));
        assert(candidates(branches, containing, protected).contains(branches[j]@));
    }
}

} // verus!
