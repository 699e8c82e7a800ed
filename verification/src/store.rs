//! How plans are stored: the JSON form of tasks and day plans, and every
//! shape of stored task and plan that is read back.
use crate::json::{
    element, field, field_repeated, get_element, get_field, lemma_key_count_distinct,
    lemma_member_absent, lemma_member_at, member_value, repeats_field, JsonValue,
};
use crate::plan::{default_category, personal, priority_views, DayPlan, DayPlanView, Priority, PriorityView};
use vstd::prelude::*;

verus! {

/// A task from its parts as a stored task object gives them: the text is
/// required and must be a string; `done` defaults to `false` and must be a
/// boolean; the category defaults to `personal` and must be a string.
pub open spec fn task_from_parts(
    text: Option<JsonValue>,
    done: Option<JsonValue>,
    category: Option<JsonValue>,
) -> Option<PriorityView> {
    match (text, done, category) {
        (Some(JsonValue::Text(t)), None, None) => Some(
            PriorityView { text: t@, done: false, category: personal() },
        ),
        (Some(JsonValue::Text(t)), Some(JsonValue::Bool(b)), None) => Some(
            PriorityView { text: t@, done: b, category: personal() },
        ),
        (Some(JsonValue::Text(t)), None, Some(JsonValue::Text(c))) => Some(
            PriorityView { text: t@, done: false, category: c@ },
        ),
        (Some(JsonValue::Text(t)), Some(JsonValue::Bool(b)), Some(JsonValue::Text(c))) => Some(
            PriorityView { text: t@, done: b, category: c@ },
        ),
        _ => None,
    }
}

/// The task a stored JSON value stands for. Two shapes are read: a bare
/// string (a task with just a text: not done, `personal`), or an object with
/// `text`, and optionally `done` and `category`, none of them given twice
/// (other members are ignored).
pub open spec fn priority_from_json(value: JsonValue) -> Option<PriorityView> {
    match value {
        JsonValue::Text(t) => Some(PriorityView { text: t@, done: false, category: personal() }),
        JsonValue::Object(_) => if repeats_field(value, "text"@) || repeats_field(value, "done"@)
            || repeats_field(value, "category"@) {
            None
        } else {
            task_from_parts(
                get_field(value, "text"@),
                get_field(value, "done"@),
                get_field(value, "category"@),
            )
        },
        _ => None,
    }
}

fn task_from(
    text: Option<&JsonValue>,
    done: Option<&JsonValue>,
    category: Option<&JsonValue>,
) -> (task: Option<Priority>)
    ensures
        match task {
            Some(p) => task_from_parts(
                match text { Some(v) => Some(*v), None => None },
                match done { Some(v) => Some(*v), None => None },
                match category { Some(v) => Some(*v), None => None },
            ) == Some(p@),
            None => task_from_parts(
                match text { Some(v) => Some(*v), None => None },
                match done { Some(v) => Some(*v), None => None },
                match category { Some(v) => Some(*v), None => None },
            ) is None,
        },
{
    let t = match text {
        Some(JsonValue::Text(t)) => t.clone(),
        _ => return None,
    };
    let d = match done {
        None => false,
        Some(JsonValue::Bool(b)) => *b,
        _ => return None,
    };
    let c = match category {
        None => default_category(),
        Some(JsonValue::Text(c)) => c.clone(),
        _ => return None,
    };
    Some(Priority { text: t, done: d, category: c })
}

impl Priority {
    /// Reads a task from a stored JSON value, in either shape
    /// `priority_from_json` describes; `None` for anything else.
    pub fn from_json(value: &JsonValue) -> (task: Option<Priority>)
        ensures
            match task {
                Some(p) => priority_from_json(*value) == Some(p@),
                None => priority_from_json(*value) is None,
            },
    {
        match value {
            JsonValue::Text(t) => Some(
                Priority { text: t.clone(), done: false, category: default_category() },
            ),
            JsonValue::Object(_) => {
                if field_repeated(value, "text") || field_repeated(value, "done") || field_repeated(
                    value,
                    "category",
                ) {
                    return None;
                }
                task_from(field(value, "text"), field(value, "done"), field(value, "category"))
            },
            _ => None,
        }
    }
}

/// The member names of an object, in order; nothing for any other value.
pub open spec fn member_names(value: JsonValue) -> Option<Seq<Seq<char>>> {
    match value {
        JsonValue::Object(members) => Some(members@.map_values(|m: (String, JsonValue)| m.0@)),
        _ => None,
    }
}

/// The members a stored task has, in order.
pub open spec fn task_keys() -> Seq<Seq<char>> {
    seq!["text"@, "done"@, "category"@]
}

impl Priority {
    /// The stored form of the task: an object with its text, done state and
    /// category, which reads back as the same task.
    pub fn to_json(&self) -> (value: JsonValue)
        ensures
            priority_from_json(value) == Some(self@),
            member_names(value) == Some(task_keys()),
    {
        let mut members: Vec<(String, JsonValue)> = Vec::new();
        members.push((String::from_str("text"), JsonValue::Text(self.text.clone())));
        members.push((String::from_str("done"), JsonValue::Bool(self.done)));
        members.push((String::from_str("category"), JsonValue::Text(self.category.clone())));
        proof {
            reveal_strlit("text");
            reveal_strlit("done");
            reveal_strlit("category");
            assert("text"@[0] == 't' && "done"@[0] == 'd');
            assert(members@[0].0@ != "done"@);
            assert(members@[0].0@ != "category"@);
            assert(members@[1].0@ != "category"@);
            let m = members@;
            assert(m.drop_first()[0] == m[1]);
            assert(m.drop_first().drop_first()[0] == m[2]);
            assert(member_value(m, "text"@) == Some(m[0].1));
            assert(member_value(m.drop_first(), "done"@) == Some(m[1].1));
            assert(member_value(m, "done"@) == Some(m[1].1));
            assert(member_value(m.drop_first().drop_first(), "category"@) == Some(m[2].1));
            assert(member_value(m.drop_first(), "category"@) == Some(m[2].1));
            assert(member_value(m, "category"@) == Some(m[2].1));
            assert forall|a: int, b: int| 0 <= a < b < m.len() implies m[a].0@ != m[b].0@ by {
                assert(m[1].0@ != "category"@);
            }
            lemma_key_count_distinct(m, "text"@);
            lemma_key_count_distinct(m, "done"@);
            lemma_key_count_distinct(m, "category"@);
            assert(members@.map_values(|m: (String, JsonValue)| m.0@) =~= task_keys());
        }
        JsonValue::Object(members)
    }
}

/// A reference to a value, as the value.
pub open spec fn deref_json(v: Option<&JsonValue>) -> Option<JsonValue> {
    match v {
        Some(x) => Some(*x),
        None => None,
    }
}

/// The text of a string value.
pub open spec fn text_value(v: Option<JsonValue>) -> Option<Seq<char>> {
    match v {
        Some(JsonValue::Text(s)) => Some(s@),
        _ => None,
    }
}

/// An optional text: absent or `null` is none, a string is that text; any
/// other value is not an optional text (the outer `None`).
pub open spec fn optional_text_value(v: Option<JsonValue>) -> Option<Option<Seq<char>>> {
    match v {
        None => Some(None),
        Some(JsonValue::Null) => Some(None),
        Some(JsonValue::Text(s)) => Some(Some(s@)),
        _ => None,
    }
}

/// The tasks an array's elements stand for, when each stands for one.
pub open spec fn tasks_value(items: Seq<JsonValue>) -> Option<Seq<PriorityView>>
    decreases items.len(),
{
    if items.len() == 0 {
        Some(Seq::empty())
    } else {
        match (tasks_value(items.drop_last()), priority_from_json(items.last())) {
            (Some(ts), Some(t)) => Some(ts.push(t)),
            _ => None,
        }
    }
}

/// The tasks of a plan: an array of stored tasks.
pub open spec fn task_list_value(v: Option<JsonValue>) -> Option<Seq<PriorityView>> {
    match v {
        Some(JsonValue::Array(items)) => tasks_value(items@),
        _ => None,
    }
}

/// A plan from its stored parts: date, intention, notes and creation time are
/// required texts, the tasks a required list, the review time and notes
/// optional texts.
pub open spec fn plan_from_parts(
    date: Option<JsonValue>,
    intention: Option<JsonValue>,
    priorities: Option<JsonValue>,
    notes: Option<JsonValue>,
    created_at: Option<JsonValue>,
    reviewed_at: Option<JsonValue>,
    review_notes: Option<JsonValue>,
) -> Option<DayPlanView> {
    match (
        text_value(date),
        text_value(intention),
        task_list_value(priorities),
        text_value(notes),
        text_value(created_at),
        optional_text_value(reviewed_at),
        optional_text_value(review_notes),
    ) {
        (Some(d), Some(i), Some(ps), Some(n), Some(c), Some(r), Some(rn)) => Some(
            DayPlanView {
                date: d,
                intention: i,
                priorities: ps,
                notes: n,
                created_at: c,
                reviewed_at: r,
                review_notes: rn,
            },
        ),
        _ => None,
    }
}

/// Whether an object gives one of a plan's fields twice.
pub open spec fn repeats_plan_field(value: JsonValue) -> bool {
    ||| repeats_field(value, "date"@)
    ||| repeats_field(value, "intention"@)
    ||| repeats_field(value, "priorities"@)
    ||| repeats_field(value, "notes"@)
    ||| repeats_field(value, "created_at"@)
    ||| repeats_field(value, "reviewed_at"@)
    ||| repeats_field(value, "review_notes"@)
}

/// The plan a stored JSON value stands for: an object with the plan's
/// fields by name, none given twice (other members are ignored), or an array
/// of five to seven elements with the fields in order.
pub open spec fn day_plan_from_json(value: JsonValue) -> Option<DayPlanView> {
    match value {
        JsonValue::Object(_) => if repeats_plan_field(value) {
            None
        } else {
            plan_from_parts(
            get_field(value, "date"@),
            get_field(value, "intention"@),
            get_field(value, "priorities"@),
            get_field(value, "notes"@),
            get_field(value, "created_at"@),
            get_field(value, "reviewed_at"@),
            get_field(value, "review_notes"@),
        )
        },
        JsonValue::Array(items) => if 5 <= items@.len() <= 7 {
            plan_from_parts(
                get_element(value, 0),
                get_element(value, 1),
                get_element(value, 2),
                get_element(value, 3),
                get_element(value, 4),
                get_element(value, 5),
                get_element(value, 6),
            )
        } else {
            None
        },
        _ => None,
    }
}

fn text_of(v: Option<&JsonValue>) -> (t: Option<String>)
    ensures
        match t {
            Some(s) => text_value(deref_json(v)) == Some(s@),
            None => text_value(deref_json(v)) is None,
        },
{
    match v {
        Some(JsonValue::Text(s)) => Some(s.clone()),
        _ => None,
    }
}

fn optional_text_of(v: Option<&JsonValue>) -> (t: Option<Option<String>>)
    ensures
        match t {
            Some(Some(s)) => optional_text_value(deref_json(v)) == Some(Some(s@)),
            Some(None) => optional_text_value(deref_json(v)) == Some(None::<Seq<char>>),
            None => optional_text_value(deref_json(v)) is None,
        },
{
    match v {
        None => Some(None),
        Some(JsonValue::Null) => Some(None),
        Some(JsonValue::Text(s)) => Some(Some(s.clone())),
        _ => None,
    }
}

fn tasks_of(v: Option<&JsonValue>) -> (tasks: Option<Vec<Priority>>)
    ensures
        match tasks {
            Some(ts) => task_list_value(deref_json(v)) == Some(priority_views(ts@)),
            None => task_list_value(deref_json(v)) is None,
        },
{
    let items = match v {
        Some(JsonValue::Array(items)) => items,
        _ => return None,
    };
    let mut tasks: Vec<Priority> = Vec::new();
    let n = items.len();
    let mut i: usize = 0;
    while i < n
        invariant
            n == items@.len(),
            i <= n,
            task_list_value(deref_json(v)) == tasks_value(items@),
            tasks_value(items@.take(i as int)) == Some(priority_views(tasks@)),
        decreases n - i,
    {
        assert(items@.take(i + 1).drop_last() =~= items@.take(i as int));
        assert(items@.take(i + 1).last() == items@[i as int]);
        match Priority::from_json(&items[i]) {
            Some(t) => {
                let ghost before = priority_views(tasks@);
                tasks.push(t);
                assert(priority_views(tasks@) =~= before.push(t@));
            },
            None => {
                assert(tasks_value(items@.take(i + 1)) is None);
                proof {
                    lemma_tasks_value_prefix(items@, i + 1, n as int);
                }
                assert(items@.take(n as int) =~= items@);
                return None;
            },
        }
        i = i + 1;
    }
    assert(items@.take(n as int) =~= items@);
    Some(tasks)
}

/// A list with an element that is not a task is not a task list, however it
/// goes on.
pub proof fn lemma_tasks_value_prefix(items: Seq<JsonValue>, i: int, j: int)
    requires
        0 <= i <= j <= items.len(),
        tasks_value(items.take(i)) is None,
    ensures
        tasks_value(items.take(j)) is None,
    decreases j - i,
{
    if i < j {
        assert(items.take(i + 1).drop_last() =~= items.take(i));
        lemma_tasks_value_prefix(items, i + 1, j);
    }
}

fn plan_of(
    date: Option<&JsonValue>,
    intention: Option<&JsonValue>,
    priorities: Option<&JsonValue>,
    notes: Option<&JsonValue>,
    created_at: Option<&JsonValue>,
    reviewed_at: Option<&JsonValue>,
    review_notes: Option<&JsonValue>,
) -> (plan: Option<DayPlan>)
    ensures
        match plan {
            Some(p) => plan_from_parts(
                deref_json(date),
                deref_json(intention),
                deref_json(priorities),
                deref_json(notes),
                deref_json(created_at),
                deref_json(reviewed_at),
                deref_json(review_notes),
            ) == Some(p@),
            None => plan_from_parts(
                deref_json(date),
                deref_json(intention),
                deref_json(priorities),
                deref_json(notes),
                deref_json(created_at),
                deref_json(reviewed_at),
                deref_json(review_notes),
            ) is None,
        },
{
    let d = match text_of(date) {
        Some(x) => x,
        None => return None,
    };
    let i = match text_of(intention) {
        Some(x) => x,
        None => return None,
    };
    let ps = match tasks_of(priorities) {
        Some(x) => x,
        None => return None,
    };
    let n = match text_of(notes) {
        Some(x) => x,
        None => return None,
    };
    let c = match text_of(created_at) {
        Some(x) => x,
        None => return None,
    };
    let r = match optional_text_of(reviewed_at) {
        Some(x) => x,
        None => return None,
    };
    let rn = match optional_text_of(review_notes) {
        Some(x) => x,
        None => return None,
    };
    Some(
        DayPlan {
            date: d,
            intention: i,
            priorities: ps,
            notes: n,
            created_at: c,
            reviewed_at: r,
            review_notes: rn,
        },
    )
}

impl DayPlan {
    /// Reads a plan from its stored JSON value, in either shape
    /// `day_plan_from_json` describes; `None` when it is no plan.
    pub fn from_json(value: &JsonValue) -> (plan: Option<DayPlan>)
        ensures
            match plan {
                Some(p) => day_plan_from_json(*value) == Some(p@),
                None => day_plan_from_json(*value) is None,
            },
    {
        match value {
            JsonValue::Object(_) => {
                if field_repeated(value, "date") || field_repeated(value, "intention")
                    || field_repeated(value, "priorities") || field_repeated(value, "notes")
                    || field_repeated(value, "created_at") || field_repeated(value, "reviewed_at")
                    || field_repeated(value, "review_notes") {
                    return None;
                }
                plan_of(
                field(value, "date"),
                field(value, "intention"),
                field(value, "priorities"),
                field(value, "notes"),
                field(value, "created_at"),
                field(value, "reviewed_at"),
                field(value, "review_notes"),
            )
            },
            JsonValue::Array(items) => {
                if items.len() < 5 || items.len() > 7 {
                    return None;
                }
                plan_of(
                    element(value, 0),
                    element(value, 1),
                    element(value, 2),
                    element(value, 3),
                    element(value, 4),
                    element(value, 5),
                    element(value, 6),
                )
            },
            _ => None,
        }
    }
}

/// The members a stored plan has, in order: the review time and the review
/// notes only when there are some.
pub open spec fn plan_keys(plan: DayPlanView) -> Seq<Seq<char>> {
    seq!["date"@, "intention"@, "priorities"@, "notes"@, "created_at"@] + (if plan.reviewed_at is Some {
        seq!["reviewed_at"@]
    } else {
        Seq::empty()
    }) + (if plan.review_notes is Some {
        seq!["review_notes"@]
    } else {
        Seq::empty()
    })
}

/// Whether each element of a stored task list is a task object.
pub open spec fn tasks_are_objects(value: Option<JsonValue>) -> bool {
    match value {
        Some(JsonValue::Array(items)) => forall|i: int|
            0 <= i < items@.len() ==> member_names(#[trigger] items@[i]) == Some(task_keys()),
        _ => false,
    }
}

impl DayPlan {
    /// The stored form of the plan: an object with the plan's fields (the
    /// review time and notes only when there are some), its tasks as task
    /// objects. It reads back as the same plan.
    pub fn to_json(&self) -> (value: JsonValue)
        ensures
            day_plan_from_json(value) == Some(self@),
            member_names(value) == Some(plan_keys(self@)),
            tasks_are_objects(get_field(value, "priorities"@)),
    {
        let ghost pv = priority_views(self.priorities@);
        let mut items: Vec<JsonValue> = Vec::new();
        let n = self.priorities.len();
        let mut i: usize = 0;
        while i < n
            invariant
                n == self.priorities@.len(),
                pv == priority_views(self.priorities@),
                i <= n,
                items@.len() == i,
                tasks_value(items@) == Some(pv.take(i as int)),
                forall|j: int| 0 <= j < i ==> member_names(#[trigger] items@[j]) == Some(task_keys()),
            decreases n - i,
        {
            let t = self.priorities[i].to_json();
            let ghost before = items@;
            items.push(t);
            assert(items@.drop_last() =~= before);
            assert(pv.take(i + 1) =~= pv.take(i as int).push(pv[i as int]));
            i = i + 1;
        }
        assert(pv.take(n as int) =~= pv);
        let mut members: Vec<(String, JsonValue)> = Vec::new();
        members.push((String::from_str("date"), JsonValue::Text(self.date.clone())));
        members.push((String::from_str("intention"), JsonValue::Text(self.intention.clone())));
        members.push((String::from_str("priorities"), JsonValue::Array(items)));
        members.push((String::from_str("notes"), JsonValue::Text(self.notes.clone())));
        members.push((String::from_str("created_at"), JsonValue::Text(self.created_at.clone())));
        match &self.reviewed_at {
            Some(r) => members.push((String::from_str("reviewed_at"), JsonValue::Text(r.clone()))),
            None => {},
        }
        match &self.review_notes {
            Some(r) => members.push((String::from_str("review_notes"), JsonValue::Text(r.clone()))),
            None => {},
        }
        proof {
            reveal_strlit("date");
            reveal_strlit("intention");
            reveal_strlit("priorities");
            reveal_strlit("notes");
            reveal_strlit("created_at");
            reveal_strlit("reviewed_at");
            reveal_strlit("review_notes");
            assert("priorities"@[0] != "created_at"@[0]);
            let m = members@;
            let v = JsonValue::Object(members);
            let keys = plan_keys(self@);
            assert(m.map_values(|x: (String, JsonValue)| x.0@) =~= keys);
            assert forall|a: int, b: int| 0 <= a < b < m.len() implies m[a].0@ != m[b].0@ by {
                assert(m[a].0@ == keys[a] && m[b].0@ == keys[b]);
            }
            assert(m[0].0@ == "date"@ && m[1].0@ == "intention"@ && m[2].0@ == "priorities"@);
            assert(m[3].0@ == "notes"@ && m[4].0@ == "created_at"@);
            lemma_key_count_distinct(m, "date"@);
            lemma_key_count_distinct(m, "intention"@);
            lemma_key_count_distinct(m, "priorities"@);
            lemma_key_count_distinct(m, "notes"@);
            lemma_key_count_distinct(m, "created_at"@);
            lemma_key_count_distinct(m, "reviewed_at"@);
            lemma_key_count_distinct(m, "review_notes"@);
            lemma_member_at(m, 0, "date"@);
            lemma_member_at(m, 1, "intention"@);
            lemma_member_at(m, 2, "priorities"@);
            lemma_member_at(m, 3, "notes"@);
            lemma_member_at(m, 4, "created_at"@);
            assert forall|j: int| 0 <= j < m.len() implies #[trigger] m[j].0@ == keys[j] by {
                assert(m.map_values(|x: (String, JsonValue)| x.0@)[j] == m[j].0@);
            }
            if self.reviewed_at is Some {
                lemma_member_at(m, 5, "reviewed_at"@);
            } else {
                assert forall|j: int| 0 <= j < m.len() implies #[trigger] m[j].0@ != "reviewed_at"@ by {
                    assert(m[j].0@ == keys[j]);
                }
                lemma_member_absent(m, "reviewed_at"@);
            }
            if self.review_notes is Some {
                let k = m.len() - 1;
                assert(m[k].0@ == "review_notes"@);
                assert forall|j: int| 0 <= j < k implies #[trigger] m[j].0@ != "review_notes"@ by {
                    assert(m[j].0@ == keys[j]);
                }
                lemma_member_at(m, k, "review_notes"@);
            } else {
                assert forall|j: int| 0 <= j < m.len() implies #[trigger] m[j].0@ != "review_notes"@ by {
                    assert(m[j].0@ == keys[j]);
                }
                lemma_member_absent(m, "review_notes"@);
            }
        }
        JsonValue::Object(members)
    }
}

} // verus!
