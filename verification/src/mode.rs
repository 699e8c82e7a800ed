//! Which screen the planner opens with, from its command-line arguments.
use crate::plan::contains_text;
use crate::text::texts;
use vstd::prelude::*;

verus! {

/// The screen the planner opens with.
#[derive(Debug, Clone, Copy, PartialEq, Eq, Structural)]
pub enum AppMode {
    /// The morning form.
    Morning,
    /// The evening review.
    Evening,
    /// The dashboard.
    Dashboard,
    /// The compact always-on-top list of today's tasks.
    Sticky,
}

/// Whether `arg` is among the arguments.
pub open spec fn has_arg(args: Seq<String>, arg: Seq<char>) -> bool {
    texts(args).contains(arg)
}

/// The screen the arguments ask for: `--evening` (or `--mode=evening`) wins
/// over `--dashboard` (or `--mode=dashboard`), which wins over `--sticky`;
/// without any of them the morning form opens.
pub open spec fn mode_of(args: Seq<String>) -> AppMode {
    if has_arg(args, "--mode=evening"@) || has_arg(args, "--evening"@) {
        AppMode::Evening
    } else if has_arg(args, "--mode=dashboard"@) || has_arg(args, "--dashboard"@) {
        AppMode::Dashboard
    } else if has_arg(args, "--sticky"@) {
        AppMode::Sticky
    } else {
        AppMode::Morning
    }
}

/// The screen the command-line arguments ask for.
pub fn detect_mode(args: &Vec<String>) -> (mode: AppMode)
    ensures
        mode == mode_of(args@),
{
    if contains_text(args, "--mode=evening") || contains_text(args, "--evening") {
        AppMode::Evening
    } else if contains_text(args, "--mode=dashboard") || contains_text(args, "--dashboard") {
        AppMode::Dashboard
    } else if contains_text(args, "--sticky") {
        AppMode::Sticky
    } else {
        AppMode::Morning
    }
}

/// The name the front end knows a screen by.
pub open spec fn mode_name(mode: AppMode) -> Seq<char> {
    match mode {
        AppMode::Morning => "morning"@,
        AppMode::Evening => "evening"@,
        AppMode::Dashboard => "dashboard"@,
        AppMode::Sticky => "sticky"@,
    }
}

impl AppMode {
    /// The name the front end knows this screen by.
    pub fn name(&self) -> (name: &'static str)
        ensures
            name@ == mode_name(*self),
    {
        match self {
            AppMode::Morning => "morning",
            AppMode::Evening => "evening",
            AppMode::Dashboard => "dashboard",
            AppMode::Sticky => "sticky",
        }
    }
}

/// The screen follows the flags given, whatever else the arguments hold:
/// an evening flag opens the evening review; otherwise a dashboard flag opens
/// the dashboard; otherwise `--sticky` opens the sticky list; with none of
/// them the morning form opens.
pub proof fn lemma_mode_follows_flags(args: Seq<String>)
    ensures
        (exists|i: int| 0 <= i < args.len() && (args[i]@ == "--evening"@ || args[i]@ == "--mode=evening"@))
            ==> mode_of(args) == AppMode::Evening,
        (exists|i: int| 0 <= i < args.len() && (args[i]@ == "--dashboard"@ || args[i]@ == "--mode=dashboard"@))
            && (forall|i: int| 0 <= i < args.len() ==> args[i]@ != "--evening"@ && args[i]@ != "--mode=evening"@)
            ==> mode_of(args) == AppMode::Dashboard,
        (exists|i: int| 0 <= i < args.len() && args[i]@ == "--sticky"@)
            && (forall|i: int| 0 <= i < args.len() ==> args[i]@ != "--evening"@ && args[i]@ != "--mode=evening"@
                && args[i]@ != "--dashboard"@ && args[i]@ != "--mode=dashboard"@)
            ==> mode_of(args) == AppMode::Sticky,
        (forall|i: int| 0 <= i < args.len() ==> args[i]@ != "--evening"@ && args[i]@ != "--mode=evening"@
            && args[i]@ != "--dashboard"@ && args[i]@ != "--mode=dashboard"@ && args[i]@ != "--sticky"@)
            ==> mode_of(args) == AppMode::Morning,
{
    let ts = texts(args);
    assert forall|a: Seq<char>| ts.contains(a) <==> exists|i: int| 0 <= i < args.len() && args[i]@ == a by {
        if ts.contains(a) {
            let k = choose|k: int| 0 <= k < ts.len() && ts[k] == a;
            assert(args[k]@ == a);
        }
        if exists|i: int| 0 <= i < args.len() && args[i]@ == a {
            let i = choose|i: int| 0 <= i < args.len() && args[i]@ == a;
            assert(ts[i] == a);
        }
    }
}

} // verus!
