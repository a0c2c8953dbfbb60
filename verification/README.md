# Ritualist

A scheduler for recurring and one-shot activities in native apps, verified with
[Verus](https://github.com/verus-lang/verus). Say what should run and when (at a fixed interval, at
a random interval, or at a date), poll, and get the ids of the activities to run. Run them, and
acknowledge each: it is completed, rescheduled, or snoozed.

## Layout

- `src/` is the verified library. It waits for nothing and spawns nothing: it is told what happens
  and tells what to do about it.
  - `time`, `utc`, `clock`: spans, points in time, and where the scheduler reads them. `TestClock`
    moves only when told to.
  - `activity_spec`, `activation_target`, `ack`, `activity`: one activity, what it waits for, and
    what ticks, claims, pauses and acknowledgements do to it.
  - `schedule`: all activities by their ids, and the commands that change them.
  - `driver`: when to poll, and how to come to an end.
  - the crate root: `Ritualist`, its builder, its handle, and `RunningRitualist`.
  - `laws`: what holds across several operations.
- `app/` runs the library on Tokio: channels, timers, tasks, serialisation and error traits.
- `tests/` are run against the compiled library.

## What is trusted

Six small functions call outside code, and Verus takes their contracts on faith: three of `chrono`
in `utc`, two of `tokio` in `clock` beside the declaration of its `Instant`, and one of `rand` in
`activity_spec`. Each says what it claims.
