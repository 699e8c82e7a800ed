//! Day plans: the tasks of one day, their review, and the rules by which
//! plans are created, changed, listed and carried over.
use crate::calendar::{
    epoch_eve, iso_date, iso_date_of, is_calendar_day, local_timestamp, local_today, today_date,
    week_start, week_start_of, weekday_from_monday,
};
use crate::text::{
    lemma_trim_idempotent, is_blank, is_blank_text, lemma_text_less_total, lemma_text_less_transitive, text_before, text_less,
    texts, trim, trim_text,
};
use vstd::prelude::*;

verus! {

/// One task of a day plan.
#[derive(Debug, Clone, PartialEq)]
pub struct Priority {
    pub text: String,
    pub done: bool,
    pub category: String,
}

/// A task as plain values.
pub struct PriorityView {
    pub text: Seq<char>,
    pub done: bool,
    pub category: Seq<char>,
}

impl View for Priority {
    type V = PriorityView;

    open spec fn view(&self) -> PriorityView {
        PriorityView { text: self.text@, done: self.done, category: self.category@ }
    }
}

/// The plan of one day.
#[derive(Debug, Clone)]
pub struct DayPlan {
    pub date: String,
    pub intention: String,
    pub priorities: Vec<Priority>,
    pub notes: String,
    pub created_at: String,
    pub reviewed_at: Option<String>,
    pub review_notes: Option<String>,
}

/// A day plan as plain values.
pub struct DayPlanView {
    pub date: Seq<char>,
    pub intention: Seq<char>,
    pub priorities: Seq<PriorityView>,
    pub notes: Seq<char>,
    pub created_at: Seq<char>,
    pub reviewed_at: Option<Seq<char>>,
    pub review_notes: Option<Seq<char>>,
}

/// The view of an optional text.
pub open spec fn opt_text(o: Option<String>) -> Option<Seq<char>> {
    match o {
        Some(s) => Some(s@),
        None => None,
    }
}

/// The views of a sequence of tasks.
pub open spec fn priority_views(ps: Seq<Priority>) -> Seq<PriorityView> {
    ps.map_values(|p: Priority| p@)
}

impl View for DayPlan {
    type V = DayPlanView;

    open spec fn view(&self) -> DayPlanView {
        DayPlanView {
            date: self.date@,
            intention: self.intention@,
            priorities: priority_views(self.priorities@),
            notes: self.notes@,
            created_at: self.created_at@,
            reviewed_at: opt_text(self.reviewed_at),
            review_notes: opt_text(self.review_notes),
        }
    }
}

/// The views of a sequence of plans.
pub open spec fn plan_views(plans: Seq<DayPlan>) -> Seq<DayPlanView> {
    plans.map_values(|p: DayPlan| p@)
}

/// The category a task gets when none is given.
pub open spec fn personal() -> Seq<char> {
    "personal"@
}

/// The category a task gets when none is given: `"personal"`.
pub fn default_category() -> (category: String)
    ensures
        category@ == personal(),
{
    String::from_str("personal")
}

/// The name of the file that holds the plan of `date`, inside the plans
/// directory: the date followed by `.json`.
pub fn plan_path(date: &str) -> (name: String)
    ensures
        name@ == date@ + ".json"@,
{
    let name = String::from_str(date);
    name.concat(".json")
}

/// Whether `name` is among `names`.
pub fn contains_text(names: &Vec<String>, name: &str) -> (found: bool)
    ensures
        found == texts(names@).contains(name@),
{
    let target = String::from_str(name);
    let n = names.len();
    let mut i: usize = 0;
    while i < n
        invariant
            n == names@.len(),
            target@ == name@,
            i <= n,
            forall|k: int| 0 <= k < i ==> names@[k]@ != name@,
        decreases n - i,
    {
        if names[i] == target {
            assert(texts(names@)[i as int] == name@);
            return true;
        }
        i = i + 1;
    }
    assert(!texts(names@).contains(name@)) by {
        if texts(names@).contains(name@) {
            let k = choose|k: int| 0 <= k < texts(names@).len() && texts(names@)[k] == name@;
            assert(names@[k]@ == name@);
        }
    }
    false
}

/// Whether the plan file of `date` is among `plan_files`, the names of the
/// files in the plans directory.
pub fn plan_exists_for(date: &str, plan_files: &Vec<String>) -> (exists: bool)
    ensures
        exists == texts(plan_files@).contains(date@ + ".json"@),
{
    let name = plan_path(date);
    contains_text(plan_files, name.as_str())
}

/// Whether today's plan file is among `plan_files`, the names of the files
/// in the plans directory. Today is read from the local clock; `None` only
/// when the clock cannot be read (see `local_today`).
pub fn today_plan_exists(plan_files: &Vec<String>) -> (exists: Option<bool>)
    ensures
        exists matches Some(e) ==> exists|day: int|
            #[trigger] is_calendar_day(day) && epoch_eve() <= day && e == texts(plan_files@).contains(
                iso_date(day) + ".json"@,
            ),
{
    match today_date() {
        Some(today) => Some(plan_exists_for(today.as_str(), plan_files)),
        None => None,
    }
}

/// Whether a plan has been reviewed.
pub open spec fn is_reviewed(plan: DayPlanView) -> bool {
    plan.reviewed_at is Some
}

/// Whether today's plan, read from its file, has been reviewed: `false` when
/// there is no readable plan.
pub fn today_reviewed(today_plan: &Option<DayPlan>) -> (reviewed: bool)
    ensures
        reviewed == (today_plan matches Some(p) && is_reviewed(p@)),
{
    match today_plan {
        Some(p) => p.reviewed_at.is_some(),
        None => false,
    }
}

/// `plan` with the task at `index` marked done when it was open and open
/// when it was done; unchanged when there is no task at `index`.
pub open spec fn toggled(plan: DayPlanView, index: int) -> DayPlanView {
    if 0 <= index < plan.priorities.len() {
        let p = plan.priorities[index];
        DayPlanView {
            priorities: plan.priorities.update(index, PriorityView { done: !p.done, ..p }),
            ..plan
        }
    } else {
        plan
    }
}

/// Flips the done state of the task at `index`; a plan without such a task is
/// left as it is.
pub fn toggle_priority(plan: &mut DayPlan, index: usize)
    ensures
        final(plan)@ == toggled(old(plan)@, index as int),
{
    if index < plan.priorities.len() {
        let mut p = plan.priorities.remove(index);
        p.done = !p.done;
        plan.priorities.insert(index, p);
        proof {
            assert(priority_views(final(plan).priorities@) =~= priority_views(
                old(plan).priorities@,
            ).update(index as int, PriorityView { done: !old(plan).priorities@[index as int].done, ..old(plan).priorities@[index as int]@ }));
        }
    }
}

/// `plan` once reviewed at `at` with the notes `notes`: notes that are blank
/// are dropped, others are kept trimmed.
pub open spec fn reviewed(plan: DayPlanView, notes: Seq<char>, at: Seq<char>) -> DayPlanView {
    DayPlanView {
        reviewed_at: Some(at),
        review_notes: if is_blank_text(notes) {
            None
        } else {
            Some(trim_text(notes))
        },
        ..plan
    }
}

/// Marks `plan` as reviewed at `reviewed_at`, with the review notes trimmed,
/// or without notes when they are blank.
pub fn record_review(plan: &mut DayPlan, review_notes: &str, reviewed_at: String)
    ensures
        final(plan)@ == reviewed(old(plan)@, review_notes@, reviewed_at@),
{
    let notes = trim(review_notes);
    plan.reviewed_at = Some(reviewed_at);
    if notes.as_str().is_empty() {
        plan.review_notes = None;
    } else {
        plan.review_notes = Some(notes);
    }
}

/// Marks `plan` as reviewed now (the local time, as RFC 3339 text), with the
/// review notes as `record_review` keeps them.
/// Returns `false`, leaving the plan as it is, only when the clock cannot be
/// read (see `local_timestamp`).
pub fn review_now(plan: &mut DayPlan, review_notes: &str) -> (done: bool)
    ensures
        done ==> exists|at: Seq<char>| final(plan)@ == reviewed(old(plan)@, review_notes@, at),
        !done ==> final(plan)@ == old(plan)@,
{
    match local_timestamp() {
        Some(at) => {
            record_review(plan, review_notes, at);
            true
        },
        None => false,
    }
}

/// The message with which a plan without a task is refused.
pub open spec fn no_task_message() -> Seq<char> {
    "Add at least one task for today."@
}

/// The tasks a submitted plan keeps: those whose text is not blank, with the
/// text trimmed, not done, in the category they were given.
pub open spec fn submitted_tasks(ps: Seq<PriorityView>) -> Seq<PriorityView>
    decreases ps.len(),
{
    if ps.len() == 0 {
        Seq::empty()
    } else {
        let rest = submitted_tasks(ps.drop_last());
        let p = ps.last();
        if is_blank_text(p.text) {
            rest
        } else {
            rest.push(PriorityView { text: trim_text(p.text), done: false, category: p.category })
        }
    }
}

/// The plan made of a submitted morning form.
pub open spec fn submitted_plan(
    intention: Seq<char>,
    tasks: Seq<PriorityView>,
    notes: Seq<char>,
    date: Seq<char>,
    created_at: Seq<char>,
) -> DayPlanView {
    DayPlanView {
        date,
        intention: trim_text(intention),
        priorities: submitted_tasks(tasks),
        notes: trim_text(notes),
        created_at,
        reviewed_at: None,
        review_notes: None,
    }
}

/// Makes the plan of `date` from the morning form: blank tasks are dropped,
/// the others trimmed and not done; intention and notes are trimmed. A form
/// with no task left is refused.
pub fn prepare_plan(
    intention: &str,
    priorities: Vec<Priority>,
    notes: &str,
    date: String,
    created_at: String,
) -> (plan: Result<DayPlan, String>)
    ensures
        match plan {
            Ok(p) => submitted_tasks(priority_views(priorities@)).len() > 0 && p@ == submitted_plan(
                intention@,
                priority_views(priorities@),
                notes@,
                date@,
                created_at@,
            ),
            Err(e) => submitted_tasks(priority_views(priorities@)).len() == 0 && e@
                == no_task_message(),
        },
{
    let ghost pv = priority_views(priorities@);
    let mut kept: Vec<Priority> = Vec::new();
    let n = priorities.len();
    let mut i: usize = 0;
    while i < n
        invariant
            n == priorities@.len(),
            pv == priority_views(priorities@),
            i <= n,
            priority_views(kept@) == submitted_tasks(pv.take(i as int)),
        decreases n - i,
    {
        let p = &priorities[i];
        assert(pv.take(i + 1).drop_last() =~= pv.take(i as int));
        assert(pv.take(i + 1).last() == p@);
        if !is_blank(p.text.as_str()) {
            let task = Priority { text: trim(p.text.as_str()), done: false, category: p.category.clone() };
            kept.push(task);
            assert(priority_views(kept@) =~= submitted_tasks(pv.take(i + 1)));
        }
        i = i + 1;
    }
    assert(pv.take(n as int) =~= pv);
    if kept.len() == 0 {
        return Err(String::from_str("Add at least one task for today."));
    }
    Ok(
        DayPlan {
            date,
            intention: trim(intention),
            priorities: kept,
            notes: trim(notes),
            created_at,
            reviewed_at: None,
            review_notes: None,
        },
    )
}

/// Whether the morning form keeps a task: one whose text is not blank.
pub fn has_submitted_task(priorities: &Vec<Priority>) -> (found: bool)
    ensures
        found == (submitted_tasks(priority_views(priorities@)).len() > 0),
{
    let ghost pv = priority_views(priorities@);
    let n = priorities.len();
    let mut found = false;
    let mut i: usize = 0;
    while i < n
        invariant
            n == priorities@.len(),
            pv == priority_views(priorities@),
            i <= n,
            found == (submitted_tasks(pv.take(i as int)).len() > 0),
        decreases n - i,
    {
        assert(pv.take(i + 1).drop_last() =~= pv.take(i as int));
        assert(pv.take(i + 1).last() == priorities@[i as int]@);
        if !is_blank(priorities[i].text.as_str()) {
            found = true;
        }
        i = i + 1;
    }
    assert(pv.take(n as int) =~= pv);
    found
}

/// Makes today's plan from the morning form, dated with the local date and
/// stamped with the local time; refused, as `prepare_plan` says, when no task
/// is left, before the clock is read. `None` only when the form keeps a task
/// and the clock cannot be read (see `local_today`).
pub fn new_day_plan(intention: &str, priorities: Vec<Priority>, notes: &str) -> (plan: Option<
    Result<DayPlan, String>,
>)
    ensures
        match plan {
            Some(Ok(p)) => submitted_tasks(priority_views(priorities@)).len() > 0 && exists|
                day: int,
                at: Seq<char>,
            |
                #![trigger submitted_plan(intention@, priority_views(priorities@), notes@, iso_date(day), at)]
                is_calendar_day(day) && epoch_eve() <= day && p@ == submitted_plan(
                    intention@,
                    priority_views(priorities@),
                    notes@,
                    iso_date(day),
                    at,
                ),
            Some(Err(e)) => submitted_tasks(priority_views(priorities@)).len() == 0 && e@
                == no_task_message(),
            None => submitted_tasks(priority_views(priorities@)).len() > 0,
        },
        submitted_tasks(priority_views(priorities@)).len() == 0 ==> (plan matches Some(Err(e))
            && e@ == no_task_message()),
{
    if !has_submitted_task(&priorities) {
        return Some(Err(String::from_str("Add at least one task for today.")));
    }
    let today = match local_today() {
        Some(d) => d,
        None => return None,
    };
    let date = iso_date_of(today);
    let created_at = match local_timestamp() {
        Some(t) => t,
        None => return None,
    };
    Some(prepare_plan(intention, priorities, notes, date, created_at))
}

/// The tasks of `ps` that are not done, in order.
pub open spec fn open_tasks(ps: Seq<PriorityView>) -> Seq<PriorityView>
    decreases ps.len(),
{
    if ps.len() == 0 {
        Seq::empty()
    } else if ps.last().done {
        open_tasks(ps.drop_last())
    } else {
        open_tasks(ps.drop_last()).push(ps.last())
    }
}

/// The tasks a plan left open, offered for the next day: none when there is
/// no plan.
pub fn unfinished_priorities(plan: &Option<DayPlan>) -> (open: Vec<Priority>)
    ensures
        priority_views(open@) == match plan {
            Some(p) => open_tasks(p@.priorities),
            None => Seq::empty(),
        },
{
    let mut open: Vec<Priority> = Vec::new();
    match plan {
        None => {
            assert(priority_views(open@) =~= Seq::empty());
        },
        Some(p) => {
            let ghost pv = p@.priorities;
            let n = p.priorities.len();
            let mut i: usize = 0;
            while i < n
                invariant
                    n == p.priorities@.len(),
                    pv == priority_views(p.priorities@),
                    i <= n,
                    priority_views(open@) == open_tasks(pv.take(i as int)),
                decreases n - i,
            {
                let t = &p.priorities[i];
                assert(pv.take(i + 1).drop_last() =~= pv.take(i as int));
                assert(pv.take(i + 1).last() == t@);
                if !t.done {
                    open.push(Priority { text: t.text.clone(), done: false, category: t.category.clone() });
                    assert(priority_views(open@) =~= open_tasks(pv.take(i + 1)));
                }
                i = i + 1;
            }
            assert(pv.take(n as int) =~= pv);
        },
    }
    open
}

/// The `%Y-%m-%d` date of the day before `today`, whose plan's open tasks
/// are offered for `today`; `None` exactly when `today` is chrono's first day.
pub fn yesterday_of(today: i32) -> (date: Option<String>)
    requires
        is_calendar_day(today as int),
    ensures
        date is None <==> !is_calendar_day(today - 1),
        date matches Some(d) ==> d@ == iso_date(today - 1),
{
    if today > -95_746_129 {
        Some(iso_date_of(today - 1))
    } else {
        None
    }
}

/// The `%Y-%m-%d` date of the day before today (local clock). It is given
/// whenever the clock can be read, as today is not before 1970.
pub fn yesterday_date() -> (date: Option<String>)
    ensures
        date matches Some(d) ==> exists|today: int|
            #[trigger] is_calendar_day(today) && epoch_eve() <= today && d@ == iso_date(today - 1),
{
    match local_today() {
        Some(today) => yesterday_of(today),
        None => None,
    }
}

/// Whether a file of the plans directory holds a plan: its name has the
/// extension `json` (`Path::extension`), which needs something before the dot.
pub open spec fn is_plan_file_name(name: Seq<char>) -> bool {
    name.len() > 5 && name.subrange(name.len() - 5, name.len() as int) == ".json"@
}

/// Whether the file `name` of the plans directory is read as a plan.
pub fn is_plan_file(name: &str) -> (plan_file: bool)
    ensures
        plan_file == is_plan_file_name(name@),
{
    let n = name.unicode_len();
    if n <= 5 {
        return false;
    }
    let tail = String::from_str(name.substring_char(n - 5, n));
    let json = String::from_str(".json");
    tail == json
}

/// `perm` lists each index below `n` once.
pub open spec fn is_permutation(perm: Seq<int>, n: nat) -> bool {
    &&& perm.len() == n
    &&& forall|k: int| 0 <= k < n ==> 0 <= #[trigger] perm[k] < n
    &&& forall|k: int, l: int| 0 <= k < l < n ==> perm[k] != perm[l]
}

/// `sorted` holds the plans of `plans` rearranged by `perm` (the plan at
/// position `k` came from position `perm[k]`), newest date first, plans of the
/// same date in the order they had.
pub open spec fn newest_first_by(sorted: Seq<DayPlan>, plans: Seq<DayPlan>, perm: Seq<int>) -> bool {
    &&& sorted.len() == plans.len()
    &&& is_permutation(perm, plans.len())
    &&& forall|k: int| 0 <= k < sorted.len() ==> #[trigger] sorted[k] == plans[perm[k]]
    &&& forall|k: int, l: int|
        0 <= k < l < sorted.len() ==> text_less(#[trigger] sorted[l].date@, #[trigger] sorted[k].date@)
            || (sorted[k].date@ == sorted[l].date@ && perm[k] < perm[l])
}

/// Taking out an element and putting it back elsewhere keeps what a sequence
/// holds.
proof fn lemma_move_keeps_multiset<A>(s: Seq<A>, i: int, j: int)
    requires
        0 <= i < s.len(),
        0 <= j < s.len(),
    ensures
        s.remove(i).insert(j, s[i]).to_multiset() == s.to_multiset(),
{
    broadcast use vstd::multiset::group_multiset_axioms;

    vstd::seq_lib::to_multiset_remove(s, i);
    vstd::seq_lib::to_multiset_insert(s.remove(i), j, s[i]);
    vstd::seq_lib::to_multiset_contains(s, s[i]);
    assert(s.contains(s[i]));
    assert(s.to_multiset().remove(s[i]).insert(s[i]) =~= s.to_multiset());
}

/// Orders plans by date, newest first; plans of the same date keep their
/// order (a stable sort on the date, descending).
pub fn sort_newest_first(plans: &mut Vec<DayPlan>)
    ensures
        exists|perm: Seq<int>| newest_first_by(final(plans)@, old(plans)@, perm),
        plan_views(final(plans)@).to_multiset() == plan_views(old(plans)@).to_multiset(),
{
    let ghost orig = plans@;
    let n = plans.len();
    let ghost mut perm: Seq<int> = Seq::new(n as nat, |k: int| k);
    let mut i: usize = 0;
    while i < n
        invariant
            n == orig.len(),
            plans@.len() == n,
            i <= n,
            is_permutation(perm, n as nat),
            plan_views(plans@).to_multiset() == plan_views(orig).to_multiset(),
            forall|k: int| 0 <= k < n ==> #[trigger] plans@[k] == orig[perm[k]],
            forall|k: int| i <= k < n ==> #[trigger] perm[k] == k,
            forall|k: int| 0 <= k < i ==> #[trigger] perm[k] < i,
            forall|k: int, l: int|
                0 <= k < l < i ==> text_less(#[trigger] plans@[l].date@, #[trigger] plans@[k].date@)
                    || (plans@[k].date@ == plans@[l].date@ && perm[k] < perm[l]),
        decreases n - i,
    {
        let ghost before = plans@;
        let x = plans.remove(i);
        let mut j: usize = 0;
        loop
            invariant
                plans@ == before.remove(i as int),
                before.len() == n,
                x == before[i as int],
                i < n,
                j <= i,
                forall|m: int| 0 <= m < j ==> !text_less(#[trigger] plans@[m].date@, x.date@),
            ensures
                j <= i,
                forall|m: int| 0 <= m < j ==> !text_less(#[trigger] plans@[m].date@, x.date@),
                j < i ==> text_less(plans@[j as int].date@, x.date@),
            decreases i - j,
        {
            if j == i {
                break;
            }
            if text_before(plans[j].date.as_str(), x.date.as_str()) {
                break;
            }
            j = j + 1;
        }
        plans.insert(j, x);
        let ghost old_perm = perm;
        proof {
            assert(plan_views(plans@) =~= plan_views(before).remove(i as int).insert(
                j as int,
                plan_views(before)[i as int],
            ));
            lemma_move_keeps_multiset(plan_views(before), i as int, j as int);
            perm = old_perm.subrange(0, j as int).push(i as int) + old_perm.subrange(
                j as int,
                i as int,
            ) + old_perm.subrange(i + 1, n as int);
            assert(perm.len() == n);
            assert forall|k: int| 0 <= k < n implies #[trigger] plans@[k] == orig[perm[k]] by {
                if k < j {
                    assert(plans@[k] == before[k]);
                    assert(perm[k] == old_perm[k]);
                } else if k == j {
                    assert(perm[k] == i);
                } else if k <= i {
                    assert(plans@[k] == before[k - 1]);
                    assert(perm[k] == old_perm[k - 1]);
                } else {
                    assert(plans@[k] == before[k]);
                    assert(perm[k] == old_perm[k]);
                }
            }
            assert forall|k: int| 0 <= k < n implies 0 <= #[trigger] perm[k] < n by {
                if k < j {
                    assert(perm[k] == old_perm[k]);
                } else if k == j {
                } else if k <= i {
                    assert(perm[k] == old_perm[k - 1]);
                } else {
                    assert(perm[k] == old_perm[k]);
                }
            }
            assert forall|k: int| 0 <= k <= i implies #[trigger] perm[k] <= i by {
                if k < j {
                    assert(perm[k] == old_perm[k]);
                } else if k > j {
                    assert(perm[k] == old_perm[k - 1]);
                }
            }
            assert forall|k: int| i + 1 <= k < n implies #[trigger] perm[k] == k by {
                assert(perm[k] == old_perm[k]);
            }
            assert forall|k: int, l: int| 0 <= k < l < n implies perm[k] != perm[l] by {
                let ok = if k < j {
                    k
                } else if k == j {
                    i as int
                } else if k <= i {
                    k - 1
                } else {
                    k
                };
                let ol = if l < j {
                    l
                } else if l == j {
                    i as int
                } else if l <= i {
                    l - 1
                } else {
                    l
                };
                assert(perm[k] == old_perm[ok]);
                assert(perm[l] == old_perm[ol]);
                assert(ok != ol);
                if ok < ol {
                    assert(old_perm[ok] != old_perm[ol]);
                } else {
                    assert(old_perm[ol] != old_perm[ok]);
                }
            }
            assert forall|k: int, l: int|
                0 <= k < l < i + 1 implies text_less(
                #[trigger] plans@[l].date@,
                #[trigger] plans@[k].date@,
            ) || (plans@[k].date@ == plans@[l].date@ && perm[k] < perm[l]) by {
                if l < j {
                    assert(plans@[k] == before[k] && plans@[l] == before[l]);
                    assert(perm[k] == old_perm[k] && perm[l] == old_perm[l]);
                } else if l == j {
                    assert(plans@[k] == before[k]);
                    assert(perm[k] == old_perm[k]);
                    assert(!text_less(before.remove(i as int)[k].date@, x.date@));
                    lemma_text_less_total(before[k].date@, x.date@);
                } else if k > j {
                    assert(plans@[k] == before[k - 1] && plans@[l] == before[l - 1]);
                    assert(perm[k] == old_perm[k - 1] && perm[l] == old_perm[l - 1]);
                } else if k == j {
                    let m = l - 1;
                    assert(plans@[l] == before[m]);
                    assert(before.remove(i as int)[j as int] == before[j as int]);
                    assert(text_less(before[j as int].date@, x.date@));
                    if m > j {
                        assert(text_less(before[m].date@, before[j as int].date@) || before[m].date@
                            == before[j as int].date@);
                        if text_less(before[m].date@, before[j as int].date@) {
                            lemma_text_less_transitive(
                                before[m].date@,
                                before[j as int].date@,
                                x.date@,
                            );
                        }
                    }
                } else {
                    assert(plans@[k] == before[k]);
                    assert(plans@[l] == before[l - 1]);
                    assert(perm[k] == old_perm[k] && perm[l] == old_perm[l - 1]);
                }
            }
        }
        i = i + 1;
    }
    assert(newest_first_by(plans@, orig, perm));
}

/// The `%Y-%m-%d` dates whose plans make up the week of `today`: from that
/// week's Monday through `today`, in order; the plan file of each is a plan
/// file (`is_plan_file_name`). `None` exactly when the walk through the week
/// leaves chrono's range: the Monday is before its first day, or `today` is
/// its last (the walk steps one day past `today`).
pub fn week_dates(today: i32) -> (dates: Option<Vec<String>>)
    requires
        is_calendar_day(today as int),
    ensures
        dates is None <==> !is_calendar_day(week_start(today as int)) || !is_calendar_day(
            today + 1,
        ),
        dates matches Some(d) ==> {
            &&& d@.len() == today - week_start(today as int) + 1
            &&& forall|k: int|
                0 <= k < d@.len() ==> #[trigger] d@[k]@ == iso_date(week_start(today as int) + k)
            &&& forall|k: int| 0 <= k < d@.len() ==> is_plan_file_name(#[trigger] d@[k]@ + ".json"@)
        },
{
    let w = weekday_from_monday(today);
    if today - (w as i32) < -95_746_129 || today >= 95_745_399 {
        return None;
    }
    let monday = week_start_of(today);
    let mut dates: Vec<String> = Vec::new();
    let mut day = monday;
    while day <= today
        invariant
            monday == week_start(today as int),
            is_calendar_day(today as int),
            is_calendar_day(monday as int),
            monday <= day <= today + 1,
            dates@.len() == day - monday,
            forall|k: int| 0 <= k < dates@.len() ==> #[trigger] dates@[k]@ == iso_date(monday + k),
            forall|k: int| 0 <= k < dates@.len() ==> is_plan_file_name(#[trigger] dates@[k]@ + ".json"@),
        decreases today + 1 - day,
    {
        let date = iso_date_of(day);
        proof {
            lemma_plan_file_of_date(date@);
        }
        dates.push(date);
        day = day + 1;
    }
    Some(dates)
}

/// The plan file of any date that is not empty is a plan file.
pub proof fn lemma_plan_file_of_date(date: Seq<char>)
    requires
        date.len() > 0,
    ensures
        is_plan_file_name(date + ".json"@),
{
    reveal_strlit(".json");
    let name = date + ".json"@;
    assert(name.subrange(name.len() - 5, name.len() as int) =~= ".json"@);
}

/// The dates of this week's plans (local clock), Monday through today. They
/// are given whenever the clock can be read and today is not chrono's last
/// day (the Monday of a week after 1969 is in range).
pub fn current_week_dates() -> (dates: Option<Vec<String>>)
    ensures
        dates matches Some(d) ==> exists|today: int|
            #![trigger week_start(today)]
            is_calendar_day(today) && epoch_eve() <= today && d@.len() == today - week_start(today)
                + 1 && forall|k: int|
                0 <= k < d@.len() ==> #[trigger] d@[k]@ == iso_date(week_start(today) + k),
{
    match local_today() {
        Some(today) => week_dates(today),
        None => None,
    }
}

/// Toggling the same task twice gives back the plan.
pub proof fn lemma_toggle_twice(plan: DayPlanView, index: int)
    ensures
        toggled(toggled(plan, index), index) == plan,
{
    if 0 <= index < plan.priorities.len() {
        let once = toggled(plan, index);
        assert(toggled(once, index).priorities =~= plan.priorities);
    }
}

/// Toggling a task changes nothing but that task's done state.
pub proof fn lemma_toggle_keeps_the_rest(plan: DayPlanView, index: int, other: int)
    requires
        0 <= other < plan.priorities.len(),
    ensures
        toggled(plan, index).priorities.len() == plan.priorities.len(),
        toggled(plan, index).priorities[other].text == plan.priorities[other].text,
        toggled(plan, index).priorities[other].category == plan.priorities[other].category,
        other != index ==> toggled(plan, index).priorities[other] == plan.priorities[other],
        other == index ==> toggled(plan, index).priorities[other].done != plan.priorities[other].done,
{
}

/// A reviewed plan counts as reviewed, and its notes are kept trimmed and
/// never blank.
pub proof fn lemma_review_marks_reviewed(plan: DayPlanView, notes: Seq<char>, at: Seq<char>)
    ensures
        is_reviewed(reviewed(plan, notes, at)),
        reviewed(plan, notes, at).review_notes matches Some(n) ==> n == trim_text(n)
            && !is_blank_text(n),
        reviewed(plan, notes, at).priorities == plan.priorities,
{
    lemma_trim_idempotent(notes);
}

/// Every task a submitted plan keeps is open and has a text that is trimmed
/// and not blank.
pub proof fn lemma_submitted_tasks_clean(tasks: Seq<PriorityView>)
    ensures
        forall|k: int|
            0 <= k < submitted_tasks(tasks).len() ==> {
                let t = #[trigger] submitted_tasks(tasks)[k];
                &&& !t.done
                &&& t.text == trim_text(t.text)
                &&& !is_blank_text(t.text)
            },
        submitted_tasks(tasks).len() <= tasks.len(),
    decreases tasks.len(),
{
    if tasks.len() > 0 {
        lemma_submitted_tasks_clean(tasks.drop_last());
        lemma_trim_idempotent(tasks.last().text);
    }
}

/// The tasks offered for the next day are all open.
pub proof fn lemma_open_tasks_are_open(tasks: Seq<PriorityView>)
    ensures
        forall|k: int| 0 <= k < open_tasks(tasks).len() ==> !(#[trigger] open_tasks(tasks)[k]).done,
        open_tasks(tasks).len() <= tasks.len(),
    decreases tasks.len(),
{
    if tasks.len() > 0 {
        lemma_open_tasks_are_open(tasks.drop_last());
    }
}

/// The tasks offered for the next day are exactly the tasks the plan left
/// open, each one, in order: as many as there are open tasks.
pub proof fn lemma_every_open_task_is_offered(tasks: Seq<PriorityView>)
    ensures
        open_tasks(tasks) == tasks.filter(|t: PriorityView| !t.done),
        open_tasks(tasks).len() == tasks.filter(|t: PriorityView| !t.done).len(),
        forall|k: int| 0 <= k < tasks.len() && !tasks[k].done ==> open_tasks(tasks).contains(
            #[trigger] tasks[k],
        ),
    decreases tasks.len(),
{
    reveal(Seq::filter);
    let pred = |t: PriorityView| !t.done;
    if tasks.len() > 0 {
        lemma_every_open_task_is_offered(tasks.drop_last());
        assert(tasks.filter(pred) == open_tasks(tasks));
    }
    assert forall|k: int| 0 <= k < tasks.len() && !tasks[k].done implies open_tasks(tasks).contains(
        #[trigger] tasks[k],
    ) by {
        broadcast use vstd::seq_lib::group_filter_ensures;
        assert(pred(tasks[k]));
    }
}

} // verus!
