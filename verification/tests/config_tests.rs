use daily_planner::config::{
    apply_settings, default_evening, default_morning, evening_timer_unit, morning_timer_unit,
    patch_oncalendar, review_api_key, ReviewKeyError, schedule_update, timers_installed, Config,
};
use daily_planner::mode::{detect_mode, AppMode};
use daily_planner::window::dashboard_geometry;

#[test]
fn defaults_are_five_and_six() {
    let c = Config::default();
    assert_eq!(c.morning_time, "05:00");
    assert_eq!(c.evening_time, "18:00");
    assert_eq!(c.claude_api_key, None);
    assert_eq!(default_morning(), "05:00");
    assert_eq!(default_evening(), "18:00");
}

#[test]
fn settings_trim_the_key() {
    let mut c = Config::default();
    apply_settings(&mut c, "06:30".to_string(), "19:00".to_string(), "  sk-abc  ");
    assert_eq!(c.morning_time, "06:30");
    assert_eq!(c.evening_time, "19:00");
    assert_eq!(c.claude_api_key, Some("sk-abc".to_string()));
    assert_eq!(review_api_key(&c), Ok("sk-abc".to_string()));
    apply_settings(&mut c, "06:30".to_string(), "19:00".to_string(), "   ");
    assert_eq!(c.claude_api_key, None);
    assert_eq!(review_api_key(&c), Err(ReviewKeyError::MissingKey));
    assert_eq!(
        ReviewKeyError::MissingKey.message("Acme"),
        "Add your Acme API key in settings to enable AI review."
    );
    let blank = Config { claude_api_key: Some(" ".to_string()), ..Config::default() };
    assert!(review_api_key(&blank).is_err());
}

#[test]
fn timers_and_schedule() {
    let both = vec![morning_timer_unit().to_string(), "x.service".to_string(), evening_timer_unit().to_string()];
    assert!(timers_installed(&both));
    let one = vec!["daily-planner-evening.timer".to_string()];
    assert!(!timers_installed(&one));
    let update = schedule_update(&one, "07:00", "20:15");
    assert!(update.reload);
    assert_eq!(update.patches.len(), 1);
    assert_eq!(update.patches[0].unit, "daily-planner-evening.timer");
    assert_eq!(update.patches[0].time, "20:15");
    let update = schedule_update(&both, "07:00", "20:15");
    assert_eq!(update.patches[0].unit, "daily-planner.timer");
    assert_eq!(update.patches[0].time, "07:00");
    let none = schedule_update(&Vec::new(), "07:00", "20:15");
    assert!(!none.reload && none.patches.is_empty());
}

#[test]
fn patch_replaces_oncalendar() {
    let unit = "[Unit]\nDescription=Plan\n\n[Timer]\nOnCalendar=*-*-* 05:00:00\nPersistent=true\n";
    let patched = patch_oncalendar(unit, "06:45");
    assert_eq!(
        patched,
        "[Unit]\nDescription=Plan\n\n[Timer]\nOnCalendar=*-*-* 06:45:00\nPersistent=true\n"
    );
    assert_eq!(patch_oncalendar(&patched, "06:45"), patched);
    assert_eq!(patch_oncalendar("", "06:45"), "\n");
    assert_eq!(patch_oncalendar("OnCalendar=x\r\nA", "01:00"), "OnCalendar=*-*-* 01:00:00\nA\n");
}

#[test]
fn mode_from_arguments() {
    let args = |a: &[&str]| a.iter().map(|s| s.to_string()).collect::<Vec<String>>();
    assert_eq!(detect_mode(&args(&["daily-planner"])), AppMode::Morning);
    assert_eq!(detect_mode(&args(&["p", "--dashboard", "--evening"])), AppMode::Evening);
    assert_eq!(detect_mode(&args(&["p", "--mode=dashboard"])), AppMode::Dashboard);
    assert_eq!(detect_mode(&args(&["p", "--sticky"])), AppMode::Sticky);
    assert_eq!(detect_mode(&args(&["p", "--mode=evening"])).name(), "evening");
    assert_eq!(AppMode::Morning.name(), "morning");
}

#[test]
fn dashboard_is_centred() {
    let g = dashboard_geometry(1920, 1080);
    assert_eq!((g.x, g.y, g.width, g.height), (480, 190, 960, 700));
    let small = dashboard_geometry(800, 600);
    assert_eq!((small.x, small.y), (0, 0));
}
