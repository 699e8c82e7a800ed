# daily_planner

The logic of a desktop day planner (morning plan, evening review, weekly
summary, schedule timers), written in Verus with its contracts proved.

- `src/` is the verified library:
  - `text` — whitespace trimming, joining, decimal text, line splitting,
    string order, with the exact behaviour of the standard operations;
  - `calendar` — days as day numbers; chrono formats, parses and reads the
    clock behind a few trusted wrappers;
  - `json` — JSON values as plain data and lookups in them;
  - `plan` — tasks and day plans: toggling, reviews, submitting the morning
    form, carry-over, plan files, sorting, the dates of a week;
  - `store` — the stored JSON form of tasks and plans, and the shapes of
    stored tasks and plans that are read back;
  - `listing` — the plans directory as a list of files: all plans, newest
    first, and the plans of given dates (a week's plans are among them);
  - `config` — settings, API key, the systemd timers and their schedule;
  - `review` — the weekly prompt and the review request and reply;
  - `mode`, `window` — start-up screen and dashboard placement.
- `app/` is the unverified shell: files, the clock, X11, HTTP, the instance
  lock, and the command handlers. The name of the service that writes weekly
  reviews, its model and the sentence that gives the model its role are read
  from `review.json` beside the settings file; the rest of the request, of
  the instructions and of the message shown when no API key is stored is
  fixed by the library.
- `tests/` runs the library on concrete values.
