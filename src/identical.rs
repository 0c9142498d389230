//! Classification of branches that share their tip commit.
use vstd::prelude::*;
use crate::names::{has_name, contains_name, copy_names, lemma_has_name_push};

verus! {

/// The branches whose tip is `tip`.
#[derive(Clone, Debug)]
pub struct IdenticalGroup {
    pub tip: String,
    pub branches: Vec<String>,
}

/// What may be deleted from a group of branches that share their tip.
#[derive(Debug)]
pub enum IdenticalGroupPlan {
    /// Nothing: the group holds a protected branch, of which the others are
    /// aliases.
    Keep,
    /// Any of these: another branch holds the shared commit.
    DeleteAny(Vec<String>),
    /// All of these but at least one: no other branch holds the shared commit.
    KeepOne(Vec<String>),
}

/// The names of `v`, in order.
pub open spec fn names_of(v: Seq<String>) -> Seq<Seq<char>> {
    v.map_values(|s: String| s@)
}

/// The names among the first `n` (branch, tip) pairs whose tip is `tip`, in
/// order.
pub open spec fn members(pairs: Seq<(String, String)>, tip: Seq<char>, n: nat) -> Seq<Seq<char>>
    decreases n,
{
    if n == 0 {
        Seq::empty()
    } else {
        let prev = members(pairs, tip, (n - 1) as nat);
        if pairs[n - 1].1@ == tip {
            prev.push(pairs[n - 1].0@)
        } else {
            prev
        }
    }
}

/// Some pair among the first `n` has the tip `tip`.
pub open spec fn has_tip(pairs: Seq<(String, String)>, tip: Seq<char>, n: int) -> bool {
    exists|i: int| 0 <= i < n && (#[trigger] pairs[i]).1@ == tip
}

/// `groups` gathers the pairs by tip: one group per tip, each with all the
/// branches of that tip in their order.
pub open spec fn groups_by_tip(pairs: Seq<(String, String)>, groups: Seq<IdenticalGroup>) -> bool {
    &&& forall|g: int, h: int|
        0 <= g < h < groups.len() ==> (#[trigger] groups[g]).tip@ != (#[trigger] groups[h]).tip@
    &&& forall|g: int|
        0 <= g < groups.len() ==> names_of((#[trigger] groups[g]).branches@) == members(
            pairs,
            groups[g].tip@,
            pairs.len(),
        )
    &&& forall|g: int| 0 <= g < groups.len() ==> has_tip(pairs, (#[trigger] groups[g]).tip@, pairs.len() as int)
    &&& forall|i: int| 0 <= i < pairs.len() ==> has_group(groups, (#[trigger] pairs[i]).1@)
}

/// Some group has the tip `tip`.
pub open spec fn has_group(groups: Seq<IdenticalGroup>, tip: Seq<char>) -> bool {
    exists|g: int| 0 <= g < groups.len() && (#[trigger] groups[g]).tip@ == tip
}

/// Some branch of the group is protected.
pub open spec fn holds_protected(group: Seq<String>, protected: Set<Seq<char>>) -> bool {
    exists|k: int| 0 <= k < group.len() && protected.contains((#[trigger] group[k])@)
}

/// Some branch outside the group holds the shared commit, as `containing`
/// (the branches that the repository reported as containing it) shows.
pub open spec fn reachable_elsewhere(group: Seq<String>, containing: Seq<String>) -> bool {
    exists|k: int| 0 <= k < containing.len() && !has_name(group, (#[trigger] containing[k])@)
}

/// Which of the group may be deleted.
pub open spec fn group_plan_is(
    plan: IdenticalGroupPlan,
    group: Seq<String>,
    containing: Seq<String>,
    protected: Set<Seq<char>>,
) -> bool {
    if holds_protected(group, protected) {
        plan is Keep
    } else if reachable_elsewhere(group, containing) {
        plan is DeleteAny && plan->DeleteAny_0@ == group
    } else {
        plan is KeepOne && plan->KeepOne_0@ == group
    }
}

proof fn lemma_names_of_push(v: Seq<String>, x: String)
    ensures
        names_of(v.push(x)) == names_of(v).push(x@),
{
    assert(names_of(v.push(x)) =~= names_of(v).push(x@));
}

/// The names that the pairs hold under `tip`.
fn branches_with_tip(pairs: &Vec<(String, String)>, tip: &String) -> (r: Vec<String>)
    ensures
        names_of(r@) == members(pairs@, tip@, pairs.len() as nat),
{
    let mut r: Vec<String> = Vec::new();
    let mut i: usize = 0;
    while i < pairs.len()
        invariant
            0 <= i <= pairs.len(),
            names_of(r@) == members(pairs@, tip@, i as nat),
        decreases pairs.len() - i,
    {
        if pairs[i].1 == *tip {
            proof {
                lemma_names_of_push(r@, pairs@[i as int].0);
            }
            r.push(pairs[i].0.clone());
        }
        i += 1;
    }
    r
}

/// Gathers (branch, tip) pairs by tip, one group per distinct tip, in the
/// order in which the tips first appear.
pub fn group_by_tip(pairs: &Vec<(String, String)>) -> (r: Vec<IdenticalGroup>)
    ensures
        groups_by_tip(pairs@, r@),
{
    let mut tips: Vec<String> = Vec::new();
    let mut i: usize = 0;
    while i < pairs.len()
        invariant
            0 <= i <= pairs.len(),
            forall|g: int, h: int| 0 <= g < h < tips.len() ==> (#[trigger] tips@[g])@ != (#[trigger] tips@[h])@,
            forall|g: int| 0 <= g < tips.len() ==> has_tip(pairs@, (#[trigger] tips@[g])@, i as int),
            forall|k: int| 0 <= k < i ==> has_name(tips@, (#[trigger] pairs@[k]).1@),
        decreases pairs.len() - i,
    {
        let tip = &pairs[i].1;
        if !contains_name(&tips, tip) {
            let ghost before = tips@;
            tips.push(tip.clone());
            proof {
                assert forall|s: Seq<char>| has_name(before, s) implies has_name(tips@, s) by {
                    lemma_has_name_push(before, *tip, s);
                }
                assert(tips@[before.len() as int] == *tip);
            }
        }
        proof {
            assert(has_name(tips@, pairs@[i as int].1@));
            assert forall|g: int| 0 <= g < tips.len() implies has_tip(pairs@, (#[trigger] tips@[g])@, i + 1) by {
                if !has_tip(pairs@, tips@[g]@, i as int) {
                    assert(tips@[g]@ == pairs@[i as int].1@);
                }
            }
        }
        i += 1;
    }

    let mut r: Vec<IdenticalGroup> = Vec::new();
    let mut g: usize = 0;
    while g < tips.len()
        invariant
            0 <= g <= tips.len(),
            r.len() == g,
            forall|a: int, b: int| 0 <= a < b < tips.len() ==> (#[trigger] tips@[a])@ != (#[trigger] tips@[b])@,
            forall|a: int| 0 <= a < tips.len() ==> has_tip(pairs@, (#[trigger] tips@[a])@, pairs.len() as int),
            forall|k: int| 0 <= k < pairs.len() ==> has_name(tips@, (#[trigger] pairs@[k]).1@),
            forall|a: int| 0 <= a < g ==> (#[trigger] r@[a]).tip == tips@[a],
            forall|a: int|
                0 <= a < g ==> names_of((#[trigger] r@[a]).branches@) == members(pairs@, r@[a].tip@, pairs.len() as nat),
        decreases tips.len() - g,
    {
        let branches = branches_with_tip(pairs, &tips[g]);
        r.push(IdenticalGroup { tip: tips[g].clone(), branches });
        g += 1;
    }
    proof {
        assert forall|k: int| 0 <= k < pairs.len() implies has_group(r@, (#[trigger] pairs@[k]).1@) by {
            assert(has_name(tips@, pairs@[k].1@));
            let a = choose|a: int| 0 <= a < tips.len() && (#[trigger] tips@[a])@ == pairs@[k].1@;
            assert(r@[a].tip == tips@[a]);
        }
        assert forall|a: int, b: int| 0 <= a < b < r.len() implies (#[trigger] r@[a]).tip@ != (#[trigger] r@[b]).tip@ by {
            assert(r@[a].tip == tips@[a]);
            assert(r@[b].tip == tips@[b]);
        }
        assert forall|a: int| 0 <= a < r.len() implies has_tip(pairs@, (#[trigger] r@[a]).tip@, pairs.len() as int) by {
            assert(r@[a].tip == tips@[a]);
        }
    }
    r
}

/// Whether some branch of `group` is in `protected`.
fn group_holds_protected(group: &Vec<String>, protected: &Vec<String>) -> (r: bool)
    ensures
        r == holds_protected(group@, crate::names::name_set(protected@)),
{
    let mut k: usize = 0;
    while k < group.len()
        invariant
            0 <= k <= group.len(),
            forall|j: int| 0 <= j < k ==> !has_name(protected@, (#[trigger] group@[j])@),
        decreases group.len() - k,
    {
        if contains_name(protected, &group[k]) {
            return true;
        }
        k += 1;
    }
    false
}

/// Whether `containing` names a branch outside `group`.
fn group_reachable_elsewhere(group: &Vec<String>, containing: &Vec<String>) -> (r: bool)
    ensures
        r == reachable_elsewhere(group@, containing@),
{
    let mut k: usize = 0;
    while k < containing.len()
        invariant
            0 <= k <= containing.len(),
            forall|j: int| 0 <= j < k ==> has_name(group@, (#[trigger] containing@[j])@),
        decreases containing.len() - k,
    {
        if !contains_name(group, &containing[k]) {
            return true;
        }
        k += 1;
    }
    false
}

/// Which branches of a group that shares a tip may be deleted. `containing`
/// is what the repository reported as containing the shared tip.
pub fn identical_group_plan(
    group: &Vec<String>,
    containing: &Vec<String>,
    protected: &Vec<String>,
) -> (r: IdenticalGroupPlan)
    ensures
        group_plan_is(r, group@, containing@, crate::names::name_set(protected@)),
{
    if group_holds_protected(group, protected) {
        IdenticalGroupPlan::Keep
    } else if group_reachable_elsewhere(group, containing) {
        IdenticalGroupPlan::DeleteAny(copy_names(group))
    } else {
        IdenticalGroupPlan::KeepOne(copy_names(group))
    }
}

/// Whether a selection out of a keep-one group leaves at least one of the
/// offered branches unselected.
pub fn keep_one_selection_is_valid(offered: &Vec<String>, selected: &Vec<String>) -> (r: bool)
    ensures
        r == exists|k: int| 0 <= k < offered.len() && !has_name(selected@, (#[trigger] offered@[k])@),
{
    let mut k: usize = 0;
    while k < offered.len()
        invariant
            0 <= k <= offered.len(),
            forall|j: int| 0 <= j < k ==> has_name(selected@, (#[trigger] offered@[j])@),
        decreases offered.len() - k,
    {
        if !contains_name(selected, &offered[k]) {
            return true;
        }
        k += 1;
    }
    false
}

/// No protected branch is ever offered out of a group that shares a tip.
pub proof fn law_identical_plan_skips_protected(
    plan: IdenticalGroupPlan,
    group: Seq<String>,
    containing: Seq<String>,
    protected: Set<Seq<char>>,
)
    requires
        group_plan_is(plan, group, containing, protected),
    ensures
        plan matches IdenticalGroupPlan::DeleteAny(v) ==> forall|k: int|
            0 <= k < v@.len() ==> !protected.contains((#[trigger] v@[k])@),
        plan matches IdenticalGroupPlan::KeepOne(v) ==> forall|k: int|
            0 <= k < v@.len() ==> !protected.contains((#[trigger] v@[k])@),
{
}

/// Of a group that shares a tip and holds a protected branch, nothing is
/// offered for deletion.
pub proof fn law_group_with_protected_branch_is_kept(
    plan: IdenticalGroupPlan,
    group: Seq<String>,
    containing: Seq<String>,
    protected: Set<Seq<char>>,
)
    requires
        group_plan_is(plan, group, containing, protected),
        exists|k: int| 0 <= k < group.len() && protected.contains((#[trigger] group[k])@),
    ensures
        plan is Keep,
{
}

} // verus!
