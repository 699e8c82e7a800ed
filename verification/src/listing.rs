//! The plans directory as the files it lists: the plans it holds, newest
//! first, and the plans of given dates, such as the days of a week.
use crate::plan::{
    is_plan_file, is_plan_file_name, newest_first_by, plan_path, plan_views, sort_newest_first,
    DayPlan, DayPlanView, Priority,
};
use crate::text::texts;
use vstd::prelude::*;

verus! {

/// A file of the plans directory: its name, and the plan it holds when it was
/// read and reads as one.
pub struct PlanFile {
    pub name: String,
    pub plan: Option<DayPlan>,
}

/// The plan a file holds, as plain values.
pub open spec fn file_plan(file: PlanFile) -> Option<DayPlanView> {
    match file.plan {
        Some(p) => Some(p@),
        None => None,
    }
}

/// The plans of a listing: those held by its plan files
/// (`is_plan_file_name`), in the order listed.
pub open spec fn listed_plans(files: Seq<PlanFile>) -> Seq<DayPlanView>
    decreases files.len(),
{
    if files.len() == 0 {
        Seq::empty()
    } else {
        let rest = listed_plans(files.drop_last());
        let f = files.last();
        match file_plan(f) {
            Some(p) => if is_plan_file_name(f.name@) {
                rest.push(p)
            } else {
                rest
            },
            None => rest,
        }
    }
}

/// The plan held by the file called `name`, when the listing has such a file
/// (the last one listed) and it holds a plan.
pub open spec fn plan_named(files: Seq<PlanFile>, name: Seq<char>) -> Option<DayPlanView>
    decreases files.len(),
{
    if files.len() == 0 {
        None
    } else if files.last().name@ == name {
        file_plan(files.last())
    } else {
        plan_named(files.drop_last(), name)
    }
}

/// The plans of `dates`, in order: for each date, the plan held by its plan
/// file (the date followed by `.json`), when there is one.
pub open spec fn dated_plans(files: Seq<PlanFile>, dates: Seq<Seq<char>>) -> Seq<DayPlanView>
    decreases dates.len(),
{
    if dates.len() == 0 {
        Seq::empty()
    } else {
        let rest = dated_plans(files, dates.drop_last());
        match plan_named(files, dates.last() + ".json"@) {
            Some(p) => rest.push(p),
            None => rest,
        }
    }
}

/// No two files of the listing have the same name, as in a directory.
pub open spec fn distinct_names(files: Seq<PlanFile>) -> bool {
    forall|i: int, j: int| 0 <= i < j < files.len() ==> files[i].name@ != files[j].name@
}

/// No text occurs twice.
pub open spec fn distinct_texts(ts: Seq<Seq<char>>) -> bool {
    forall|i: int, j: int| 0 <= i < j < ts.len() ==> ts[i] != ts[j]
}

/// A copy of a plan.
fn copy_plan(plan: &DayPlan) -> (copy: DayPlan)
    ensures
        copy@ == plan@,
{
    let mut priorities: Vec<Priority> = Vec::new();
    let n = plan.priorities.len();
    let mut i: usize = 0;
    while i < n
        invariant
            n == plan.priorities@.len(),
            i <= n,
            priorities@.len() == i,
            forall|k: int| 0 <= k < i ==> #[trigger] priorities@[k]@ == plan.priorities@[k]@,
        decreases n - i,
    {
        let p = &plan.priorities[i];
        priorities.push(Priority { text: p.text.clone(), done: p.done, category: p.category.clone() });
        i = i + 1;
    }
    let copy = DayPlan {
        date: plan.date.clone(),
        intention: plan.intention.clone(),
        priorities,
        notes: plan.notes.clone(),
        created_at: plan.created_at.clone(),
        reviewed_at: match &plan.reviewed_at {
            Some(r) => Some(r.clone()),
            None => None,
        },
        review_notes: match &plan.review_notes {
            Some(r) => Some(r.clone()),
            None => None,
        },
    };
    assert(copy@.priorities =~= plan@.priorities);
    copy
}

/// The plans of a listing, newest date first; plans of one date keep the
/// order in which they were listed.
pub fn listed_plans_newest_first(files: Vec<PlanFile>) -> (plans: Vec<DayPlan>)
    ensures
        plan_views(plans@).to_multiset() == listed_plans(files@).to_multiset(),
        exists|kept: Seq<DayPlan>, perm: Seq<int>|
            plan_views(kept) == listed_plans(files@) && newest_first_by(plans@, kept, perm),
{
    let ghost all = files@;
    let n = files.len();
    let mut rest = files;
    let mut plans: Vec<DayPlan> = Vec::new();
    let mut i: usize = 0;
    while i < n
        invariant
            n == all.len(),
            i <= n,
            rest@ == all.subrange(i as int, n as int),
            plan_views(plans@) == listed_plans(all.take(i as int)),
        decreases n - i,
    {
        let file = rest.remove(0);
        assert(file == all[i as int]);
        assert(all.take(i + 1).drop_last() =~= all.take(i as int));
        assert(all.take(i + 1).last() == all[i as int]);
        assert(rest@ =~= all.subrange(i + 1, n as int));
        let is_plan = is_plan_file(file.name.as_str());
        match file.plan {
            Some(p) => {
                if is_plan {
                    let ghost before = plan_views(plans@);
                    plans.push(p);
                    assert(plan_views(plans@) =~= before.push(p@));
                }
            },
            None => {},
        }
        i = i + 1;
    }
    assert(all.take(n as int) =~= all);
    sort_newest_first(&mut plans);
    plans
}

/// The plan held by the file called `name`, when the listing has one.
fn find_plan(files: &Vec<PlanFile>, name: &String) -> (plan: Option<DayPlan>)
    ensures
        match plan {
            Some(p) => plan_named(files@, name@) == Some(p@),
            None => plan_named(files@, name@) is None,
        },
{
    let mut j: usize = files.len();
    assert(files@.take(j as int) =~= files@);
    while j > 0
        invariant
            j <= files@.len(),
            plan_named(files@, name@) == plan_named(files@.take(j as int), name@),
        decreases j,
    {
        assert(files@.take(j as int).drop_last() =~= files@.take(j - 1));
        assert(files@.take(j as int).last() == files@[j - 1]);
        let file = &files[j - 1];
        if file.name == *name {
            return match &file.plan {
                Some(p) => Some(copy_plan(p)),
                None => None,
            };
        }
        j = j - 1;
    }
    None
}

/// The plans of `dates`, in order: for each date, the plan held by its plan
/// file in the listing, when there is one.
pub fn dated_plans_of(files: &Vec<PlanFile>, dates: &Vec<String>) -> (plans: Vec<DayPlan>)
    ensures
        plan_views(plans@) == dated_plans(files@, texts(dates@)),
{
    let ghost ds = texts(dates@);
    let mut plans: Vec<DayPlan> = Vec::new();
    let n = dates.len();
    let mut i: usize = 0;
    while i < n
        invariant
            n == dates@.len(),
            ds == texts(dates@),
            i <= n,
            plan_views(plans@) == dated_plans(files@, ds.take(i as int)),
        decreases n - i,
    {
        assert(ds.take(i + 1).drop_last() =~= ds.take(i as int));
        assert(ds.take(i + 1).last() == dates@[i as int]@);
        let name = plan_path(dates[i].as_str());
        match find_plan(files, &name) {
            Some(p) => {
                let ghost before = plan_views(plans@);
                plans.push(p);
                assert(plan_views(plans@) =~= before.push(p@));
            },
            None => {},
        }
        i = i + 1;
    }
    assert(ds.take(n as int) =~= ds);
    plans
}

/// The listing without the file at `i` names the other files as before.
proof fn lemma_plan_named_remove(files: Seq<PlanFile>, i: int, name: Seq<char>)
    requires
        0 <= i < files.len(),
        files[i].name@ != name,
    ensures
        plan_named(files.remove(i), name) == plan_named(files, name),
    decreases files.len(),
{
    if i == files.len() - 1 {
        assert(files.remove(i) =~= files.drop_last());
    } else {
        assert(files.remove(i).last() == files.last());
        assert(files.remove(i).drop_last() =~= files.drop_last().remove(i));
        if files.last().name@ != name {
            lemma_plan_named_remove(files.drop_last(), i, name);
        }
    }
}

/// Where the plan named `name` comes from: a file of that name.
proof fn lemma_plan_named_index(files: Seq<PlanFile>, name: Seq<char>) -> (i: int)
    requires
        plan_named(files, name) is Some,
    ensures
        0 <= i < files.len(),
        files[i].name@ == name,
        file_plan(files[i]) == plan_named(files, name),
    decreases files.len(),
{
    if files.last().name@ == name {
        files.len() - 1
    } else {
        let i = lemma_plan_named_index(files.drop_last(), name);
        assert(files.drop_last()[i] == files[i]);
        i
    }
}

/// Dropping a file that no date names leaves the dates' plans as they were.
proof fn lemma_dated_remove(files: Seq<PlanFile>, i: int, dates: Seq<Seq<char>>)
    requires
        0 <= i < files.len(),
        forall|k: int| 0 <= k < dates.len() ==> #[trigger] dates[k] + ".json"@ != files[i].name@,
    ensures
        dated_plans(files.remove(i), dates) == dated_plans(files, dates),
    decreases dates.len(),
{
    if dates.len() > 0 {
        let rest = dates.drop_last();
        assert forall|k: int| 0 <= k < rest.len() implies #[trigger] rest[k] + ".json"@
            != files[i].name@ by {
            assert(rest[k] == dates[k]);
        }
        lemma_dated_remove(files, i, rest);
        assert(dates[dates.len() - 1] == dates.last());
        lemma_plan_named_remove(files, i, dates.last() + ".json"@);
    }
}

/// The plans of a listing are those of the listing without a plan file that
/// holds one, with that plan added.
proof fn lemma_listed_remove(files: Seq<PlanFile>, i: int)
    requires
        0 <= i < files.len(),
        is_plan_file_name(files[i].name@),
        file_plan(files[i]) is Some,
    ensures
        listed_plans(files).to_multiset() == listed_plans(files.remove(i)).to_multiset().insert(
            file_plan(files[i])->0,
        ),
    decreases files.len(),
{
    broadcast use vstd::multiset::group_multiset_axioms;

    let p = file_plan(files[i])->0;
    if i == files.len() - 1 {
        assert(files.remove(i) =~= files.drop_last());
        vstd::seq_lib::to_multiset_build(listed_plans(files.drop_last()), p);
    } else {
        let smaller = files.remove(i);
        assert(smaller.last() == files.last());
        assert(smaller.drop_last() =~= files.drop_last().remove(i));
        assert(files.drop_last()[i] == files[i]);
        lemma_listed_remove(files.drop_last(), i);
        let f = files.last();
        if file_plan(f) is Some && is_plan_file_name(f.name@) {
            let q = file_plan(f)->0;
            vstd::seq_lib::to_multiset_build(listed_plans(files.drop_last()), q);
            vstd::seq_lib::to_multiset_build(listed_plans(smaller.drop_last()), q);
            assert(listed_plans(smaller.drop_last()).to_multiset().insert(p).insert(q)
                =~= listed_plans(smaller.drop_last()).to_multiset().insert(q).insert(p));
        }
    }
}

/// Texts that differ still differ with the same ending.
proof fn lemma_suffix_keeps_apart(a: Seq<char>, b: Seq<char>, end: Seq<char>)
    requires
        a != b,
    ensures
        a + end != b + end,
{
    if a + end == b + end {
        assert((a + end).len() == (b + end).len());
        assert(a.len() == b.len());
        assert((a + end).subrange(0, a.len() as int) =~= a);
        assert((b + end).subrange(0, b.len() as int) =~= b);
    }
}

/// The plans read for distinct dates are among the plans of the listing: each
/// is the plan of a plan file of the listing, and no plan file is read for
/// two dates, when no two files of the listing have the same name and no
/// date is empty.
pub proof fn lemma_dated_plans_among_listed(files: Seq<PlanFile>, dates: Seq<Seq<char>>)
    requires
        distinct_names(files),
        distinct_texts(dates),
        forall|k: int| 0 <= k < dates.len() ==> #[trigger] dates[k].len() > 0,
    ensures
        dated_plans(files, dates).to_multiset().subset_of(listed_plans(files).to_multiset()),
    decreases dates.len(),
{
    broadcast use vstd::multiset::group_multiset_axioms;

    if dates.len() == 0 {
        let none = dated_plans(files, dates);
        assert forall|v: DayPlanView| none.to_multiset().count(v) == 0 by {
            vstd::seq_lib::to_multiset_contains(none, v);
        }
    } else {
        let rest = dates.drop_last();
        let d = dates.last();
        let name = d + ".json"@;
        assert(dates[dates.len() - 1] == d);
        assert forall|k: int| 0 <= k < rest.len() implies #[trigger] rest[k].len() > 0 by {
            assert(rest[k] == dates[k]);
        }
        assert(distinct_texts(rest)) by {
            assert forall|k: int, l: int| 0 <= k < l < rest.len() implies rest[k] != rest[l] by {
                assert(rest[k] == dates[k] && rest[l] == dates[l]);
            }
        }
        match plan_named(files, name) {
            None => {
                lemma_dated_plans_among_listed(files, rest);
            },
            Some(p) => {
                let i = lemma_plan_named_index(files, name);
                let smaller = files.remove(i);
                assert(distinct_names(smaller)) by {
                    assert forall|a: int, b: int| 0 <= a < b < smaller.len() implies smaller[a].name@
                        != smaller[b].name@ by {
                        let fa = if a < i {
                            a
                        } else {
                            a + 1
                        };
                        let fb = if b < i {
                            b
                        } else {
                            b + 1
                        };
                        assert(smaller[a] == files[fa] && smaller[b] == files[fb]);
                    }
                }
                assert forall|k: int| 0 <= k < rest.len() implies #[trigger] rest[k] + ".json"@
                    != files[i].name@ by {
                    assert(rest[k] == dates[k]);
                    lemma_suffix_keeps_apart(rest[k], d, ".json"@);
                }
                lemma_dated_remove(files, i, rest);
                lemma_dated_plans_among_listed(smaller, rest);
                crate::plan::lemma_plan_file_of_date(d);
                lemma_listed_remove(files, i);
                vstd::seq_lib::to_multiset_build(dated_plans(files, rest), p);
            },
        }
    }
}

} // verus!
