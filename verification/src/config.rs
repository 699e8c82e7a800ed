//! The planner's settings and the systemd timers that open it: default
//! times, the settings form, and rewriting a timer's schedule.
use crate::text::{
    has_char, has_prefix, is_blank, is_blank_text, join, join_text, lemma_lines_no_newline,
    lemma_lines_of_joined, lemma_lines_single, lemma_trim_idempotent, lines, starts_with, strip_cr,
    text_lines, texts, trim, trim_text,
};
use crate::plan::contains_text;
use vstd::prelude::*;

verus! {

/// The planner's settings.
#[derive(Debug, Clone)]
pub struct Config {
    pub morning_time: String,
    pub evening_time: String,
    pub claude_api_key: Option<String>,
}

/// The settings as plain values.
pub struct ConfigView {
    pub morning_time: Seq<char>,
    pub evening_time: Seq<char>,
    pub claude_api_key: Option<Seq<char>>,
}

impl View for Config {
    type V = ConfigView;

    open spec fn view(&self) -> ConfigView {
        ConfigView {
            morning_time: self.morning_time@,
            evening_time: self.evening_time@,
            claude_api_key: match self.claude_api_key {
                Some(k) => Some(k@),
                None => None,
            },
        }
    }
}

/// The time the morning form opens when none is set.
pub open spec fn default_morning_time() -> Seq<char> {
    "05:00"@
}

/// The time the evening review opens when none is set.
pub open spec fn default_evening_time() -> Seq<char> {
    "18:00"@
}

/// The morning time when none is set: `05:00`.
pub fn default_morning() -> (time: String)
    ensures
        time@ == default_morning_time(),
{
    String::from_str("05:00")
}

/// The evening time when none is set: `18:00`.
pub fn default_evening() -> (time: String)
    ensures
        time@ == default_evening_time(),
{
    String::from_str("18:00")
}

impl Default for Config {
    /// The settings before any are saved: the default times and no API key.
    fn default() -> (config: Self)
        ensures
            config@ == (ConfigView {
                morning_time: default_morning_time(),
                evening_time: default_evening_time(),
                claude_api_key: None,
            }),
    {
        Config { morning_time: default_morning(), evening_time: default_evening(), claude_api_key: None }
    }
}

/// The settings once the settings form is saved: both times as given, and
/// the API key trimmed, or none when it is blank.
pub open spec fn with_settings(
    morning_time: Seq<char>,
    evening_time: Seq<char>,
    api_key: Seq<char>,
) -> ConfigView {
    ConfigView {
        morning_time,
        evening_time,
        claude_api_key: if is_blank_text(api_key) {
            None
        } else {
            Some(trim_text(api_key))
        },
    }
}

/// Stores what the settings form gives: the two times, and the API key
/// trimmed (a blank key removes the stored one).
pub fn apply_settings(
    config: &mut Config,
    morning_time: String,
    evening_time: String,
    claude_api_key: &str,
)
    ensures
        final(config)@ == with_settings(morning_time@, evening_time@, claude_api_key@),
{
    config.morning_time = morning_time;
    config.evening_time = evening_time;
    let key = trim(claude_api_key);
    if key.as_str().is_empty() {
        config.claude_api_key = None;
    } else {
        config.claude_api_key = Some(key);
    }
}

/// Why a review cannot be asked for.
#[derive(Debug, Clone, Copy, PartialEq, Eq, Structural)]
pub enum ReviewKeyError {
    /// No API key is stored, or the stored one is blank.
    MissingKey,
}

/// What a review is refused with when no usable API key is stored; `service`
/// names the service the key is for.
pub open spec fn missing_key_message(service: Seq<char>) -> Seq<char> {
    "Add your "@ + service + " API key in settings to enable AI review."@
}

impl ReviewKeyError {
    /// The message shown for the refusal, for a key of `service`.
    pub fn message(&self, service: &str) -> (text: String)
        ensures
            text@ == missing_key_message(service@),
    {
        match self {
            ReviewKeyError::MissingKey => {
                let mut text = String::from_str("Add your ");
                text.append(service);
                text.append(" API key in settings to enable AI review.");
                text
            },
        }
    }
}

/// The API key a review can use: the stored one, unless it is blank.
pub open spec fn usable_key(config: ConfigView) -> Option<Seq<char>> {
    match config.claude_api_key {
        Some(k) => if is_blank_text(k) {
            None
        } else {
            Some(k)
        },
        None => None,
    }
}

/// The API key for a review, as stored; refused when none is stored or the
/// stored one is blank.
pub fn review_api_key(config: &Config) -> (key: Result<String, ReviewKeyError>)
    ensures
        match key {
            Ok(k) => usable_key(config@) == Some(k@),
            Err(e) => usable_key(config@) is None && e == ReviewKeyError::MissingKey,
        },
{
    match &config.claude_api_key {
        Some(k) => if is_blank(k.as_str()) {
            Err(ReviewKeyError::MissingKey)
        } else {
            Ok(k.clone())
        },
        None => Err(ReviewKeyError::MissingKey),
    }
}

/// The unit file of the timer that opens the morning form.
pub open spec fn morning_timer() -> Seq<char> {
    "daily-planner.timer"@
}

/// The unit file of the timer that opens the evening review.
pub open spec fn evening_timer() -> Seq<char> {
    "daily-planner-evening.timer"@
}

/// The unit file of the morning timer, `daily-planner.timer`.
pub fn morning_timer_unit() -> (unit: &'static str)
    ensures
        unit@ == morning_timer(),
{
    "daily-planner.timer"
}

/// The unit file of the evening timer, `daily-planner-evening.timer`.
pub fn evening_timer_unit() -> (unit: &'static str)
    ensures
        unit@ == evening_timer(),
{
    "daily-planner-evening.timer"
}

/// Whether both timers are installed, given the names of the files in the
/// systemd user directory.
pub fn timers_installed(unit_files: &Vec<String>) -> (installed: bool)
    ensures
        installed == (texts(unit_files@).contains(morning_timer()) && texts(unit_files@).contains(
            evening_timer(),
        )),
{
    contains_text(unit_files, morning_timer_unit()) && contains_text(unit_files, evening_timer_unit())
}

/// A timer unit file whose schedule is to be set to `time`.
pub struct TimerPatch {
    pub unit: String,
    pub time: String,
}

/// What saving new times does to the installed timers: the patches to make,
/// in order, and whether systemd must then reload them (after which both
/// timers are restarted).
pub struct ScheduleUpdate {
    pub patches: Vec<TimerPatch>,
    pub reload: bool,
}

/// The patches as (unit, time) pairs.
pub open spec fn patch_views(patches: Seq<TimerPatch>) -> Seq<(Seq<char>, Seq<char>)> {
    patches.map_values(|p: TimerPatch| (p.unit@, p.time@))
}

/// The patches new times call for: each installed timer, morning first, gets
/// its new time.
pub open spec fn schedule_patches(
    unit_files: Seq<Seq<char>>,
    morning_time: Seq<char>,
    evening_time: Seq<char>,
) -> Seq<(Seq<char>, Seq<char>)> {
    (if unit_files.contains(morning_timer()) {
        seq![(morning_timer(), morning_time)]
    } else {
        Seq::empty()
    }) + (if unit_files.contains(evening_timer()) {
        seq![(evening_timer(), evening_time)]
    } else {
        Seq::empty()
    })
}

/// Decides what saving `morning_time` and `evening_time` does to the timers,
/// given the names of the files in the systemd user directory: patch each
/// installed timer, and reload systemd when one was patched.
pub fn schedule_update(unit_files: &Vec<String>, morning_time: &str, evening_time: &str) -> (update:
    ScheduleUpdate)
    ensures
        patch_views(update.patches@) == schedule_patches(
            texts(unit_files@),
            morning_time@,
            evening_time@,
        ),
        update.reload == (update.patches@.len() > 0),
{
    let mut patches: Vec<TimerPatch> = Vec::new();
    if contains_text(unit_files, morning_timer_unit()) {
        patches.push(
            TimerPatch {
                unit: String::from_str(morning_timer_unit()),
                time: String::from_str(morning_time),
            },
        );
    }
    let ghost first = patch_views(patches@);
    if contains_text(unit_files, evening_timer_unit()) {
        patches.push(
            TimerPatch {
                unit: String::from_str(evening_timer_unit()),
                time: String::from_str(evening_time),
            },
        );
        assert(patch_views(patches@) =~= first.push((evening_timer(), evening_time@)));
    }
    assert(patch_views(patches@) =~= schedule_patches(
        texts(unit_files@),
        morning_time@,
        evening_time@,
    ));
    let reload = patches.len() > 0;
    ScheduleUpdate { patches, reload }
}

/// A timer line with its schedule set to `time`: a line that starts with
/// `OnCalendar=` becomes `OnCalendar=*-*-* <time>:00`; others stay.
pub open spec fn patched_line(line: Seq<char>, time: Seq<char>) -> Seq<char> {
    if starts_with(line, "OnCalendar="@) {
        "OnCalendar=*-*-* "@ + time + ":00"@
    } else {
        line
    }
}

/// The lines of a timer unit with their schedule set to `time`.
pub open spec fn patched_lines(lines: Seq<Seq<char>>, time: Seq<char>) -> Seq<Seq<char>> {
    lines.map_values(|l: Seq<char>| patched_line(l, time))
}

/// A timer unit file with its schedule set to `time`: its lines, patched,
/// each followed by a newline.
pub open spec fn patched_timer(content: Seq<char>, time: Seq<char>) -> Seq<char> {
    join_text(patched_lines(text_lines(content), time), "\n"@) + "\n"@
}

/// Sets the daily schedule of a timer unit file to `time` (`HH:MM`): every
/// `OnCalendar=` line is replaced; the other lines are kept.
pub fn patch_oncalendar(content: &str, time: &str) -> (patched: String)
    ensures
        patched@ == patched_timer(content@, time@),
{
    let all = lines(content);
    let ghost src = texts(all@);
    let mut out: Vec<String> = Vec::new();
    let n = all.len();
    let mut i: usize = 0;
    while i < n
        invariant
            n == all@.len(),
            src == texts(all@),
            i <= n,
            texts(out@) == patched_lines(src.take(i as int), time@),
        decreases n - i,
    {
        let line = &all[i];
        let ghost before = texts(out@);
        assert(src[i as int] == line@);
        assert(patched_lines(src.take(i + 1), time@) =~= patched_lines(src.take(i as int), time@).push(
            patched_line(line@, time@),
        ));
        if has_prefix(line.as_str(), "OnCalendar=") {
            let mut l = String::from_str("OnCalendar=*-*-* ");
            l.append(time);
            l.append(":00");
            out.push(l);
        } else {
            out.push(line.clone());
        }
        assert(texts(out@) =~= before.push(patched_line(line@, time@)));
        i = i + 1;
    }
    assert(src.take(n as int) =~= src);
    let mut patched = join(&out, "\n");
    patched.append("\n");
    patched
}

proof fn lemma_patched_line(line: Seq<char>, time: Seq<char>)
    requires
        starts_with(line, "OnCalendar="@) ==> !has_char(time, '\n'),
        !has_char(line, '\n'),
        !starts_with(line, "OnCalendar="@) ==> strip_cr(line) == line,
    ensures
        !has_char(patched_line(line, time), '\n'),
        strip_cr(patched_line(line, time)) == patched_line(line, time),
        patched_line(patched_line(line, time), time) == patched_line(line, time),
{
    reveal_strlit("OnCalendar=");
    reveal_strlit("OnCalendar=*-*-* ");
    reveal_strlit(":00");
    if starts_with(line, "OnCalendar="@) {
        let head = "OnCalendar=*-*-* "@;
        let p = head + time + ":00"@;
        assert(p.subrange(0, 11) =~= "OnCalendar="@);
        assert(starts_with(p, "OnCalendar="@));
        assert(p.last() == '0');
        assert(!has_char(p, '\n')) by {
            if has_char(p, '\n') {
                let k = choose|k: int| 0 <= k < p.len() && p[k] == '\n';
                if k < head.len() {
                    assert(p[k] == head[k]);
                } else if k < head.len() + time.len() {
                    assert(p[k] == time[k - head.len()]);
                } else {
                    assert(p[k] == ":00"@[k - head.len() - time.len()]);
                }
            }
        }
    }
}

/// Setting a timer's schedule twice to the same time gives what setting it
/// once gives, when no line of the unit file but an `OnCalendar=` line ends
/// with a carriage return that its line break does not remove, and the time
/// holds no newline or the file has no `OnCalendar=` line.
pub proof fn lemma_patch_twice(content: Seq<char>, time: Seq<char>)
    requires
        !has_char(time, '\n') || forall|k: int|
            0 <= k < text_lines(content).len() ==> !starts_with(
                #[trigger] text_lines(content)[k],
                "OnCalendar="@,
            ),
        forall|k: int|
            0 <= k < text_lines(content).len() && !starts_with(
                #[trigger] text_lines(content)[k],
                "OnCalendar="@,
            ) ==> strip_cr(text_lines(content)[k]) == text_lines(content)[k],
    ensures
        patched_timer(patched_timer(content, time), time) == patched_timer(content, time),
{
    reveal_strlit("\n");
    reveal_strlit("");
    reveal_strlit("OnCalendar=");
    let all = text_lines(content);
    let p = patched_lines(all, time);
    lemma_lines_no_newline(content, 0, 0);
    assert forall|k: int| 0 <= k < p.len() implies !has_char(#[trigger] p[k], '\n') && strip_cr(p[k])
        == p[k] && patched_line(p[k], time) == p[k] by {
        lemma_patched_line(all[k], time);
    }
    if all.len() > 0 {
        lemma_lines_of_joined(p);
        assert(patched_lines(p, time) =~= p);
    } else {
        assert(patched_timer(content, time) =~= "\n"@);
        assert(""@ + "\n"@ =~= "\n"@);
        assert(!has_char(""@, '\n'));
        lemma_lines_single(""@);
        assert(text_lines("\n"@) =~= seq![""@]);
        assert(patched_lines(seq![""@], time) =~= seq![""@]);
    }
}

/// A key saved with the settings form is the one reviews use: a blank key
/// leaves reviews without one, any other is used trimmed.
pub proof fn lemma_saved_key_is_used(morning_time: Seq<char>, evening_time: Seq<char>, key: Seq<char>)
    ensures
        usable_key(with_settings(morning_time, evening_time, key)) == if is_blank_text(key) {
            None
        } else {
            Some(trim_text(key))
        },
{
    lemma_trim_idempotent(key);
}

/// Saving new times patches every installed timer and only those: the
/// morning timer gets the morning time exactly when its unit file is listed,
/// the evening timer the evening time exactly when its unit file is listed,
/// whatever else is installed, and no other patch is made; the morning
/// timer's patch comes first.
pub proof fn lemma_every_installed_timer_is_patched(
    unit_files: Seq<Seq<char>>,
    morning_time: Seq<char>,
    evening_time: Seq<char>,
)
    ensures
        schedule_patches(unit_files, morning_time, evening_time).contains(
            (morning_timer(), morning_time),
        ) <==> unit_files.contains(morning_timer()),
        schedule_patches(unit_files, morning_time, evening_time).contains(
            (evening_timer(), evening_time),
        ) <==> unit_files.contains(evening_timer()),
        forall|k: int|
            0 <= k < schedule_patches(unit_files, morning_time, evening_time).len() ==> {
                let p = #[trigger] schedule_patches(unit_files, morning_time, evening_time)[k];
                p == (morning_timer(), morning_time) || p == (evening_timer(), evening_time)
            },
        unit_files.contains(morning_timer()) ==> schedule_patches(
            unit_files,
            morning_time,
            evening_time,
        )[0] == (morning_timer(), morning_time),
        schedule_patches(unit_files, morning_time, evening_time).len() == (if unit_files.contains(
            morning_timer(),
        ) {
            1int
        } else {
            0int
        }) + (if unit_files.contains(evening_timer()) {
            1int
        } else {
            0int
        }),
{
    reveal_strlit("daily-planner.timer");
    reveal_strlit("daily-planner-evening.timer");
    let ps = schedule_patches(unit_files, morning_time, evening_time);
    let m = (morning_timer(), morning_time);
    let e = (evening_timer(), evening_time);
    assert(morning_timer() != evening_timer()) by {
        assert(morning_timer().len() != evening_timer().len());
    }
    if unit_files.contains(morning_timer()) {
        assert(ps[0] == m);
    }
    if unit_files.contains(evening_timer()) {
        assert(ps[ps.len() - 1] == e);
    }
    if ps.contains(m) {
        let k = choose|k: int| 0 <= k < ps.len() && ps[k] == m;
        if !unit_files.contains(morning_timer()) {
            assert(ps[k] == e);
        }
    }
    if ps.contains(e) {
        let k = choose|k: int| 0 <= k < ps.len() && ps[k] == e;
        if !unit_files.contains(evening_timer()) {
            assert(ps[k] == m);
        }
    }
}

} // verus!
