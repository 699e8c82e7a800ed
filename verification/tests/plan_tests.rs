use daily_planner::json::JsonValue;
use daily_planner::listing::{dated_plans_of, listed_plans_newest_first, PlanFile};
use daily_planner::plan::{
    default_category, has_submitted_task, is_plan_file, new_day_plan, plan_exists_for, plan_path, prepare_plan, record_review,
    review_now, sort_newest_first, today_plan_exists, today_reviewed, toggle_priority, unfinished_priorities,
    week_dates, yesterday_of, DayPlan, Priority,
};

fn library_json(v: &serde_json::Value) -> JsonValue {
    match v {
        serde_json::Value::Null => JsonValue::Null,
        serde_json::Value::Bool(b) => JsonValue::Bool(*b),
        serde_json::Value::Number(n) => JsonValue::Number(n.to_string()),
        serde_json::Value::String(s) => JsonValue::Text(s.clone()),
        serde_json::Value::Array(items) => JsonValue::Array(items.iter().map(library_json).collect()),
        serde_json::Value::Object(members) => JsonValue::Object(
            members.iter().map(|(k, v)| (k.clone(), library_json(v))).collect(),
        ),
    }
}

fn serde_json_value(v: &JsonValue) -> serde_json::Value {
    match v {
        JsonValue::Null => serde_json::Value::Null,
        JsonValue::Bool(b) => serde_json::Value::Bool(*b),
        JsonValue::Number(n) => serde_json::Value::Number(n.parse().unwrap()),
        JsonValue::Text(s) => serde_json::Value::String(s.clone()),
        JsonValue::Array(items) => serde_json::Value::Array(items.iter().map(serde_json_value).collect()),
        JsonValue::Object(members) => {
            let mut map = serde_json::Map::new();
            for (k, v) in members {
                map.insert(k.clone(), serde_json_value(v));
            }
            serde_json::Value::Object(map)
        }
    }
}

fn parse_priority(text: &str) -> Option<Priority> {
    let v: serde_json::Value = serde_json::from_str(text).ok()?;
    Priority::from_json(&library_json(&v))
}

fn parse_plan(text: &str) -> Option<DayPlan> {
    let v: serde_json::Value = serde_json::from_str(text).ok()?;
    DayPlan::from_json(&library_json(&v))
}

fn plan_text(plan: &DayPlan) -> String {
    serde_json::to_string_pretty(&serde_json_value(&plan.to_json())).unwrap()
}

fn task(text: &str, done: bool, category: &str) -> Priority {
    Priority { text: text.to_string(), done, category: category.to_string() }
}

fn plan_for_date(date: &str, intention: &str) -> DayPlan {
    DayPlan {
        date: date.to_string(),
        intention: intention.to_string(),
        priorities: vec![task("First", false, "personal")],
        notes: String::new(),
        created_at: "2026-05-16T08:00:00+01:00".to_string(),
        reviewed_at: None,
        review_notes: None,
    }
}

fn today_iso() -> String {
    chrono::Local::now().format("%Y-%m-%d").to_string()
}

#[test]
fn save_today_plan_writes_plan_for_current_date() {
    let plan = DayPlan {
        date: today_iso(),
        intention: "Focus on the important work".to_string(),
        priorities: vec![
            task("Plan the day", false, "personal"),
            task("Ship the fix", false, "work"),
        ],
        notes: "Keep it simple".to_string(),
        created_at: "2026-05-16T08:30:00+01:00".to_string(),
        reviewed_at: None,
        review_notes: None,
    };
    let mut plan_files: Vec<String> = Vec::new();
    assert!(!today_plan_exists(&plan_files).unwrap());
    plan_files.push(plan_path(&plan.date));
    let written = plan_text(&plan);
    assert!(today_plan_exists(&plan_files).unwrap());
    let saved = parse_plan(&written).expect("saved plan should be valid JSON");
    assert_eq!(saved.date, plan.date);
    assert_eq!(saved.intention, plan.intention);
    assert_eq!(saved.priorities, plan.priorities);
    assert_eq!(saved.notes, plan.notes);
    assert_eq!(saved.created_at, plan.created_at);
    assert!(saved.reviewed_at.is_none());
}

#[test]
fn priority_deserializes_legacy_strings_and_new_objects() {
    let legacy = parse_priority(r#""Plan the day""#).expect("legacy priority should parse");
    let current = parse_priority(r#"{"text":"Ship","done":true}"#).expect("current priority should parse");
    assert_eq!(
        legacy,
        Priority { text: "Plan the day".to_string(), done: false, category: "personal".to_string() }
    );
    assert_eq!(
        current,
        Priority { text: "Ship".to_string(), done: true, category: "personal".to_string() }
    );
}

#[test]
fn get_today_plan_reads_saved_plan() {
    let today = today_iso();
    let plan = plan_for_date(&today, "Read today's plan");
    let saved = parse_plan(&plan_text(&plan)).expect("today's plan should be returned");
    assert_eq!(saved.date, today);
    assert_eq!(saved.intention, "Read today's plan");
}

#[test]
fn get_all_plans_returns_valid_json_plans_sorted_by_newest_date() {
    let files = vec![
        ("older.json".to_string(), plan_text(&plan_for_date("2026-05-14", "Older plan"))),
        ("newer.json".to_string(), plan_text(&plan_for_date("2026-05-16", "Newer plan"))),
        ("middle.json".to_string(), plan_text(&plan_for_date("2026-05-15", "Middle plan"))),
        ("invalid.json".to_string(), "{not json".to_string()),
        ("readme.txt".to_string(), "not a plan".to_string()),
    ];
    let listing: Vec<PlanFile> = files
        .iter()
        .map(|(name, content)| PlanFile {
            name: name.clone(),
            plan: if is_plan_file(name) { parse_plan(content) } else { None },
        })
        .collect();
    let plans = listed_plans_newest_first(listing);
    let dates: Vec<&str> = plans.iter().map(|plan| plan.date.as_str()).collect();
    let intentions: Vec<&str> = plans.iter().map(|plan| plan.intention.as_str()).collect();
    assert_eq!(dates, vec!["2026-05-16", "2026-05-15", "2026-05-14"]);
    assert_eq!(intentions, vec!["Newer plan", "Middle plan", "Older plan"]);
}

#[test]
fn save_review_marks_today_reviewed_and_trims_notes() {
    let mut plan = plan_for_date(&today_iso(), "Review today's plan");
    assert!(!today_reviewed(&Some(plan.clone())));
    assert!(review_now(&mut plan, "  Finished the essentials  "));
    assert!(today_reviewed(&Some(plan.clone())));
    assert!(plan.reviewed_at.is_some());
    assert_eq!(plan.review_notes, Some("Finished the essentials".to_string()));
}

#[test]
fn toggle_priority_flips_done_state() {
    let mut plan = DayPlan {
        date: today_iso(),
        intention: "Test".to_string(),
        priorities: vec![task("First", false, "personal")],
        notes: String::new(),
        created_at: "2026-05-16T08:00:00+01:00".to_string(),
        reviewed_at: None,
        review_notes: None,
    };
    toggle_priority(&mut plan, 0);
    assert!(plan.priorities[0].done);
    toggle_priority(&mut plan, 0);
    assert!(!plan.priorities[0].done);
}

#[test]
fn toggle_out_of_range_keeps_plan() {
    let mut plan = plan_for_date("2026-05-16", "Test");
    toggle_priority(&mut plan, 3);
    assert_eq!(plan.priorities, vec![task("First", false, "personal")]);
}

#[test]
fn review_with_blank_notes_keeps_none() {
    let mut plan = plan_for_date("2026-05-16", "Test");
    record_review(&mut plan, " \t\n ", "2026-05-16T18:00:00+01:00".to_string());
    assert_eq!(plan.reviewed_at, Some("2026-05-16T18:00:00+01:00".to_string()));
    assert_eq!(plan.review_notes, None);
    assert!(!today_reviewed(&None));
}

#[test]
fn submitted_plan_keeps_trimmed_tasks() {
    let plan = prepare_plan(
        "  Ship it  ",
        vec![task("  Write tests ", true, "work"), task("   ", false, "personal"), task("Walk", false, "personal")],
        " notes ",
        "2026-05-16".to_string(),
        "2026-05-16T08:00:00+01:00".to_string(),
    )
    .expect("plan with tasks is accepted");
    assert_eq!(plan.intention, "Ship it");
    assert_eq!(plan.notes, "notes");
    assert_eq!(plan.priorities, vec![task("Write tests", false, "work"), task("Walk", false, "personal")]);
    assert_eq!(plan.date, "2026-05-16");
    assert!(plan.reviewed_at.is_none() && plan.review_notes.is_none());
}

#[test]
fn submitted_plan_without_tasks_is_refused() {
    let refused = prepare_plan(
        "Intention",
        vec![task(" ", false, "personal"), task("\u{3000}", false, "work")],
        "",
        "2026-05-16".to_string(),
        "t".to_string(),
    );
    assert_eq!(refused.err(), Some("Add at least one task for today.".to_string()));
}

#[test]
fn unfinished_tasks_are_carried_over() {
    let mut plan = plan_for_date("2026-05-15", "Yesterday");
    plan.priorities = vec![task("a", true, "work"), task("b", false, "personal"), task("c", false, "work")];
    assert_eq!(unfinished_priorities(&Some(plan)), vec![task("b", false, "personal"), task("c", false, "work")]);
    assert!(unfinished_priorities(&None).is_empty());
}

#[test]
fn plan_files_are_named_by_date() {
    assert_eq!(plan_path("2026-05-16"), "2026-05-16.json");
    let files = vec!["2026-05-16.json".to_string(), "notes.txt".to_string()];
    assert!(plan_exists_for("2026-05-16", &files));
    assert!(!plan_exists_for("2026-05-15", &files));
    assert!(is_plan_file("a.json"));
    assert!(!is_plan_file(".json"));
    assert!(!is_plan_file("a.json.bak"));
    assert!(is_plan_file("..json"));
    assert_eq!(default_category(), "personal");
}

#[test]
fn sort_keeps_order_of_equal_dates() {
    let mut plans = vec![
        plan_for_date("2026-05-14", "first"),
        plan_for_date("2026-05-16", "second"),
        plan_for_date("2026-05-14", "third"),
        plan_for_date("2026-05-16", "fourth"),
    ];
    sort_newest_first(&mut plans);
    let intentions: Vec<&str> = plans.iter().map(|p| p.intention.as_str()).collect();
    assert_eq!(intentions, vec!["second", "fourth", "first", "third"]);
}

#[test]
fn stored_plan_reads_back_with_review() {
    let mut plan = plan_for_date("2026-05-16", "Round trip");
    plan.reviewed_at = Some("2026-05-16T18:00:00+01:00".to_string());
    plan.review_notes = Some("ok".to_string());
    plan.priorities.push(task("Second", true, "community"));
    let back = parse_plan(&plan_text(&plan)).expect("plan reads back");
    assert_eq!(back.priorities, plan.priorities);
    assert_eq!(back.reviewed_at, plan.reviewed_at);
    assert_eq!(back.review_notes, plan.review_notes);
    let text = plan_text(&plan_for_date("2026-05-16", "x"));
    assert!(!text.contains("reviewed_at"));
}

#[test]
fn plans_read_from_other_shapes() {
    let from_array = parse_plan(r#"["2026-05-16", "i", ["Walk", {"text":"Run","done":true,"category":"work"}], "n", "c", null]"#)
        .expect("array form reads");
    assert_eq!(from_array.priorities, vec![task("Walk", false, "personal"), task("Run", true, "work")]);
    assert_eq!(from_array.reviewed_at, None);
    assert!(parse_plan(r#"["2026-05-16", "i", [["Ship"]], "n", "c"]"#).is_none());
    assert!(parse_priority(r#"["Ship"]"#).is_none());
    assert!(parse_priority(r#"["Run", true, "work"]"#).is_none());
    assert!(parse_plan(r#"{"date":"d","intention":"i","priorities":[],"notes":"n"}"#).is_none());
    assert!(parse_plan(r#"{"date":"d","intention":"i","priorities":[{"done":true}],"notes":"n","created_at":"c"}"#).is_none());
    assert!(parse_priority(r#"{"text":"x","done":null}"#).is_none());
    assert!(parse_priority(r#"["a","b","c","d"]"#).is_none());
    assert!(parse_priority("3").is_none());
}

#[test]
fn week_dates_run_from_monday() {
    let saturday = 739_752;
    let dates = week_dates(saturday).expect("a week in range");
    assert_eq!(
        dates,
        vec!["2026-05-11", "2026-05-12", "2026-05-13", "2026-05-14", "2026-05-15", "2026-05-16"]
    );
    assert_eq!(week_dates(739_747), Some(vec!["2026-05-11".to_string()]));
    assert_eq!(week_dates(95_745_399), None);
    assert_eq!(week_dates(-95_746_129), None);
    assert_eq!(yesterday_of(739_752), Some("2026-05-15".to_string()));
    assert_eq!(yesterday_of(-95_746_129), None);
}

#[test]
fn repeated_fields_are_refused() {
    let task_twice = JsonValue::Object(vec![
        ("text".to_string(), JsonValue::Text("a".to_string())),
        ("text".to_string(), JsonValue::Text("b".to_string())),
    ]);
    assert!(Priority::from_json(&task_twice).is_none());
    let other_twice = JsonValue::Object(vec![
        ("text".to_string(), JsonValue::Text("a".to_string())),
        ("note".to_string(), JsonValue::Null),
        ("note".to_string(), JsonValue::Null),
    ]);
    assert_eq!(Priority::from_json(&other_twice), Some(task("a", false, "personal")));
    let mut plan = plan_for_date("2026-05-16", "x").to_json();
    if let JsonValue::Object(members) = &mut plan {
        members.push(("notes".to_string(), JsonValue::Text("again".to_string())));
    }
    assert!(DayPlan::from_json(&plan).is_none());
}

#[test]
fn blank_form_is_refused_before_the_clock() {
    let blank = vec![task("  ", false, "work"), task("", false, "personal")];
    assert!(!has_submitted_task(&blank));
    match new_day_plan("Focus", blank, "notes") {
        Some(Err(e)) => assert_eq!(e, "Add at least one task for today."),
        _ => panic!("a form without a task is refused"),
    }
    let one = vec![task("  ", false, "work"), task(" Ship ", true, "work")];
    assert!(has_submitted_task(&one));
    let plan = new_day_plan(" Focus ", one, "").unwrap().unwrap();
    assert_eq!(plan.date, today_iso());
    assert_eq!(plan.intention, "Focus");
    assert_eq!(plan.priorities, vec![task("Ship", false, "work")]);
    assert!(plan.created_at.len() >= 25);
}

#[test]
fn current_time_is_hours_and_minutes() {
    let t = daily_planner::calendar::current_time().unwrap();
    assert_eq!(t.len(), 5);
    assert_eq!(&t[2..3], ":");
    assert!(t[..2].parse::<u32>().unwrap() < 24);
    assert!(t[3..].parse::<u32>().unwrap() < 60);
}

fn listing_of(files: &[(&str, Option<DayPlan>)]) -> Vec<PlanFile> {
    files.iter().map(|(name, plan)| PlanFile { name: name.to_string(), plan: plan.clone() }).collect()
}

#[test]
fn week_plans_are_among_all_plans() {
    let files = [
        ("2026-05-12.json", Some(plan_for_date("2026-05-12", "Tuesday"))),
        ("2026-05-11.json", Some(plan_for_date("2026-05-11", "Monday"))),
        ("2026-05-13.json", None),
        ("2026-05-14.txt", Some(plan_for_date("2026-05-14", "Not a plan file"))),
        ("2026-04-01.json", Some(plan_for_date("2026-04-01", "Earlier"))),
    ];
    let dates: Vec<String> =
        ["2026-05-11", "2026-05-12", "2026-05-13", "2026-05-14"].iter().map(|d| d.to_string()).collect();
    let week = dated_plans_of(&listing_of(&files), &dates);
    let week_intentions: Vec<&str> = week.iter().map(|p| p.intention.as_str()).collect();
    assert_eq!(week_intentions, vec!["Monday", "Tuesday"]);
    let all = listed_plans_newest_first(listing_of(&files));
    let all_intentions: Vec<&str> = all.iter().map(|p| p.intention.as_str()).collect();
    assert_eq!(all_intentions, vec!["Tuesday", "Monday", "Earlier"]);
    for p in &week {
        assert!(all.iter().any(|q| q.date == p.date && q.intention == p.intention));
    }
}

#[test]
fn plans_of_one_date_keep_their_listed_order() {
    let files = [
        ("a.json", Some(plan_for_date("2026-05-15", "first"))),
        ("b.json", Some(plan_for_date("2026-05-16", "newest"))),
        ("c.json", Some(plan_for_date("2026-05-15", "second"))),
    ];
    let all = listed_plans_newest_first(listing_of(&files));
    let intentions: Vec<&str> = all.iter().map(|p| p.intention.as_str()).collect();
    assert_eq!(intentions, vec!["newest", "first", "second"]);
}
