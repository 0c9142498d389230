//! The choices of a run that asks nobody: everything offered is taken, and
//! of a group that must keep one branch the smallest name stays.
use vstd::prelude::*;
use vstd::multiset::Multiset;
use vstd::string::StrSliceExecFns;
use crate::merged::{BranchToDeleteInfo, plan_view};
use crate::names::{copy_names, has_name};

verus! {

/// Lexicographic order on names, character by character; a proper prefix
/// comes first.
pub open spec fn name_lt(a: Seq<char>, b: Seq<char>) -> bool
    decreases a.len(),
{
    if b.len() == 0 {
        false
    } else if a.len() == 0 {
        true
    } else if a[0] != b[0] {
        (a[0] as u32) < (b[0] as u32)
    } else {
        name_lt(a.drop_first(), b.drop_first())
    }
}

pub proof fn lemma_name_lt_transitive(a: Seq<char>, b: Seq<char>, c: Seq<char>)
    requires
        name_lt(a, b),
        name_lt(b, c),
    ensures
        name_lt(a, c),
    decreases a.len(),
{
    if a.len() > 0 && a[0] == b[0] && b[0] == c[0] {
        lemma_name_lt_transitive(a.drop_first(), b.drop_first(), c.drop_first());
    }
}

pub proof fn lemma_name_lt_irreflexive(a: Seq<char>)
    ensures
        !name_lt(a, a),
    decreases a.len(),
{
    if a.len() > 0 {
        lemma_name_lt_irreflexive(a.drop_first());
    }
}

/// `m` is the first position of a smallest name of `v`.
pub open spec fn is_first_least(v: Seq<String>, m: int) -> bool {
    &&& 0 <= m < v.len()
    &&& forall|j: int| 0 <= j < v.len() ==> !name_lt((#[trigger] v[j])@, v[m]@)
    &&& forall|j: int| 0 <= j < m ==> (#[trigger] v[j])@ != v[m]@
}

/// Whether `a` comes before `b`.
pub fn name_less(a: &String, b: &String) -> (r: bool)
    ensures
        r == name_lt(a@, b@),
{
    let sa = a.as_str();
    let sb = b.as_str();
    let la = sa.unicode_len();
    let lb = sb.unicode_len();
    let mut i: usize = 0;
    assert(a@.skip(0) =~= a@);
    assert(b@.skip(0) =~= b@);
    while i < la && i < lb
        invariant
            la == a@.len(),
            lb == b@.len(),
            sa@ == a@,
            sb@ == b@,
            0 <= i <= la,
            i <= lb,
            name_lt(a@, b@) == name_lt(a@.skip(i as int), b@.skip(i as int)),
        decreases la - i,
    {
        let ca = sa.get_char(i);
        let cb = sb.get_char(i);
        proof {
            assert(a@.skip(i as int)[0] == ca);
            assert(b@.skip(i as int)[0] == cb);
        }
        if ca != cb {
            return (ca as u32) < (cb as u32);
        }
        proof {
            assert(a@.skip(i as int).drop_first() =~= a@.skip(i + 1));
            assert(b@.skip(i as int).drop_first() =~= b@.skip(i + 1));
        }
        i += 1;
    }
    i < lb
}

/// The names of `v` come in name order.
pub open spec fn is_sorted_by_name(v: Seq<String>) -> bool {
    forall|i: int, j: int| 0 <= i < j < v.len() ==> !name_lt((#[trigger] v[j])@, (#[trigger] v[i])@)
}

/// The first position of a smallest name of `v`.
fn least_index(v: &Vec<String>) -> (m: usize)
    requires
        v.len() > 0,
    ensures
        is_first_least(v@, m as int),
{
    let mut m: usize = 0;
    let mut i: usize = 1;
    proof {
        lemma_name_lt_irreflexive(v@[0]@);
    }
    while i < v.len()
        invariant
            0 <= m < i <= v.len(),
            forall|j: int| 0 <= j < i ==> !name_lt((#[trigger] v@[j])@, v@[m as int]@),
            forall|j: int| 0 <= j < m ==> (#[trigger] v@[j])@ != v@[m as int]@,
        decreases v.len() - i,
    {
        if name_less(&v[i], &v[m]) {
            proof {
                assert forall|j: int| 0 <= j < i implies !name_lt((#[trigger] v@[j])@, v@[i as int]@) by {
                    if name_lt(v@[j]@, v@[i as int]@) {
                        lemma_name_lt_transitive(v@[j]@, v@[i as int]@, v@[m as int]@);
                    }
                }
                lemma_name_lt_irreflexive(v@[i as int]@);
                assert forall|j: int| 0 <= j < i implies (#[trigger] v@[j])@ != v@[i as int]@ by {
                    if v@[j]@ == v@[i as int]@ {
                        assert(!name_lt(v@[j]@, v@[m as int]@));
                    }
                }
            }
            m = i;
        }
        i += 1;
    }
    m
}

/// The names of `v` in name order.
fn sort_names(v: Vec<String>) -> (r: Vec<String>)
    ensures
        is_sorted_by_name(r@),
        r@.to_multiset() == v@.to_multiset(),
{
    broadcast use vstd::seq_lib::group_to_multiset_ensures;
    let ghost all = v@;
    let mut work = v;
    let mut r: Vec<String> = Vec::new();
    assert(r@.to_multiset() =~= Multiset::empty());
    assert(r@.to_multiset().add(work@.to_multiset()) =~= all.to_multiset());
    while work.len() > 0
        invariant
            r@.to_multiset().add(work@.to_multiset()) == all.to_multiset(),
            is_sorted_by_name(r@),
            forall|i: int, j: int| 0 <= i < r.len() && 0 <= j < work.len() ==> !name_lt((#[trigger] work@[j])@, (#[trigger] r@[i])@),
        decreases work.len(),
    {
        let m = least_index(&work);
        let ghost w = work@;
        let ghost before = r@;
        let x = work.remove(m);
        r.push(x);
        proof {
            assert(w.contains(x)) by {
                assert(w[m as int] == x);
            }
            assert(r@ == before.push(x));
            assert(work@ == w.remove(m as int));
            vstd::seq_lib::to_multiset_build(before, x);
            vstd::seq_lib::to_multiset_remove(w, m as int);
            assert(r@.to_multiset() == before.to_multiset().insert(x));
            assert(work@.to_multiset() == w.to_multiset().remove(x));
            vstd::seq_lib::to_multiset_contains(w, x);
            assert(w.to_multiset().count(x) > 0);
            broadcast use vstd::multiset::group_multiset_axioms;
            assert(r@.to_multiset().add(work@.to_multiset()) =~= before.to_multiset().add(w.to_multiset()));
            assert forall|i: int, j: int| 0 <= i < j < r.len() implies !name_lt((#[trigger] r@[j])@, (#[trigger] r@[i])@) by {
                if j == r.len() - 1 {
                    assert(r@[i] == before[i]);
                    assert(!name_lt(w[m as int]@, before[i]@));
                } else {
                    assert(r@[i] == before[i]);
                    assert(r@[j] == before[j]);
                }
            }
            assert forall|i: int, j: int| 0 <= i < r.len() && 0 <= j < work.len() implies !name_lt((#[trigger] work@[j])@, (#[trigger] r@[i])@) by {
                let jj = if j < m { j } else { j + 1 };
                assert(work@[j] == w[jj]);
                if i == r.len() - 1 {
                    assert(r@[i] == w[m as int]);
                } else {
                    assert(r@[i] == before[i]);
                }
            }
        }
    }
    assert(work@.to_multiset() =~= Multiset::empty());
    assert(r@.to_multiset() =~= all.to_multiset());
    r
}

/// The branches of `v` but the one at `m`, in order.
fn all_but(v: &Vec<String>, m: usize) -> (r: Vec<String>)
    requires
        m < v.len(),
    ensures
        r@ == v@.remove(m as int),
{
    let mut r: Vec<String> = Vec::new();
    let mut k: usize = 0;
    while k < v.len()
        invariant
            m < v.len(),
            0 <= k <= v.len(),
            r@ == (if k <= m {
                v@.subrange(0, k as int)
            } else {
                v@.subrange(0, m as int) + v@.subrange(m + 1, k as int)
            }),
        decreases v.len() - k,
    {
        if k != m {
            r.push(v[k].clone());
        }
        proof {
            if k < m {
                assert(v@.subrange(0, k + 1) =~= v@.subrange(0, k as int).push(v@[k as int]));
            } else if k == m {
                assert(v@.subrange(0, m as int) + v@.subrange(m + 1, k + 1) =~= v@.subrange(0, m as int));
            } else {
                assert(v@.subrange(0, m as int) + v@.subrange(m + 1, k + 1) =~= (v@.subrange(0, m as int)
                    + v@.subrange(m + 1, k as int)).push(v@[k as int]));
            }
        }
        k += 1;
    }
    assert(r@ =~= v@.remove(m as int));
    r
}

/// The run that asks nobody.
pub struct BatchAppUi;

impl BatchAppUi {
    /// Every branch offered is taken.
    pub fn select_branches_to_delete(&self, branch_infos: &Vec<BranchToDeleteInfo>) -> (r: Vec<
        BranchToDeleteInfo,
    >)
        ensures
            plan_view(r@) == plan_view(branch_infos@),
    {
        let mut r: Vec<BranchToDeleteInfo> = Vec::new();
        let mut k: usize = 0;
        while k < branch_infos.len()
            invariant
                0 <= k <= branch_infos.len(),
                plan_view(r@) == plan_view(branch_infos@.subrange(0, k as int)),
            decreases branch_infos.len() - k,
        {
            let info = &branch_infos[k];
            let copy = BranchToDeleteInfo {
                name: info.name.clone(),
                contained_in: copy_names(&info.contained_in),
            };
            let ghost before = r@;
            r.push(copy);
            proof {
                assert(branch_infos@.subrange(0, k + 1) =~= branch_infos@.subrange(0, k as int).push(
                    branch_infos@[k as int],
                ));
                assert(plan_view(r@) =~= plan_view(before).push(copy.view()));
                assert(plan_view(branch_infos@.subrange(0, k + 1)) =~= plan_view(
                    branch_infos@.subrange(0, k as int),
                ).push(branch_infos@[k as int].view()));
            }
            k += 1;
        }
        assert(branch_infos@.subrange(0, branch_infos.len() as int) =~= branch_infos@);
        r
    }

    /// Every branch of the group is taken.
    pub fn select_identical_branches_to_delete(&self, branches: &Vec<String>) -> (r: Vec<String>)
        ensures
            r@ == branches@,
    {
        copy_names(branches)
    }

    /// Every branch of the group is taken but one with the smallest name,
    /// which stays; the branches taken come in name order.
    pub fn select_identical_branches_to_delete_keep_one(&self, branches: &Vec<String>) -> (r: Vec<
        String,
    >)
        requires
            branches.len() > 0,
        ensures
            is_sorted_by_name(r@),
            exists|m: int| is_first_least(branches@, m) && r@.to_multiset() == branches@.remove(m).to_multiset(),
    {
        let m = least_index(branches);
        let rest = all_but(branches, m);
        sort_names(rest)
    }
}

/// Of branches with distinct names, what the keep-one choice takes leaves at
/// least one branch of the group out.
pub proof fn law_batch_keep_one_leaves_a_branch(branches: Seq<String>, selected: Seq<String>)
    requires
        forall|i: int, j: int| 0 <= i < j < branches.len() ==> (#[trigger] branches[i])@ != (#[trigger] branches[j])@,
        exists|m: int| is_first_least(branches, m) && selected.to_multiset() == branches.remove(m).to_multiset(),
    ensures
        exists|k: int| 0 <= k < branches.len() && !has_name(selected, (#[trigger] branches[k])@),
{
    broadcast use vstd::seq_lib::group_to_multiset_ensures;
    let m = choose|m: int| is_first_least(branches, m) && selected.to_multiset() == branches.remove(m).to_multiset();
    if has_name(selected, branches[m]@) {
        let j = choose|j: int| 0 <= j < selected.len() && (#[trigger] selected[j])@ == branches[m]@;
        assert(selected.contains(selected[j]));
        assert(selected.to_multiset().count(selected[j]) > 0);
        assert(branches.remove(m).contains(selected[j]));
        let i = choose|i: int| 0 <= i < branches.remove(m).len() && branches.remove(m)[i] == selected[j];
        if i < m {
            assert(branches.remove(m)[i] == branches[i]);
        } else {
            assert(branches.remove(m)[i] == branches[i + 1]);
        }
    }
}

} // verus!
