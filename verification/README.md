# iframe

A frame pacer that adds no latency: a finished frame goes out at once, and what is
delayed is the start of the next one, so that it completes just before the display tick
it is meant for. Beside the pacer stand what a frame limiter needs around it (shared
memory between a panel and a game, telemetry, profiles, a command line, a controller,
an overlay) and a frame generator that follows the mouse.

The library in `src/` is verified with Verus: what a function does is stated in its
contract, and what holds across functions in proof functions whose names begin with `law_`.

## Layout

- `src/pacer.rs`, `src/pacer_laws.rs` - the pacing decision, and what holds of it
- `src/steady.rs` - what a game whose frames all cost the same gets from it
- `src/engine.rs`, `src/timing.rs`, `src/vblank.rs` - pacing inside a game, waits, the display grid
- `src/shared_mem.rs`, `src/telemetry.rs`, `src/config.rs` - the region shared with a game
- `src/live.rs`, `src/stats.rs`, `src/watch.rs`, `src/bench.rs`, `src/etw.rs` - figures
- `src/hooks/`, `src/reflex.rs`, `src/overlay.rs` - decisions on the game's side
- `src/panel.rs`, `src/display.rs`, `src/profiles.rs`, `src/gamepad.rs`, `src/tray.rs`, `src/cli.rs` -
  the control program
- `src/injector.rs`, `src/anticheat.rs` - which library goes where, and which games are left alone
- `src/warp/` - the frame generator, with its camera in `src/warp/math.rs`
- `src/fixed.rs`, `src/text.rs` - fixed-point numbers and text
- `app/` - the program around the library: windows, processes, devices, files
- `tests/` - tests on concrete values

## Numbers

Rates, durations and angles are fixed-point `i64` values with six decimals; a point that
is projected has twelve. Instants are readings of the performance counter, or nanoseconds.
`app/` converts at the edge.

## The frame generator

`iframe all-in-frame` opens its window; in a game it is put to work by `aif_init`. The
shaders (`flow.hlsl` and `synthesis.hlsl`, in a game `warp.hlsl`) are read from the
directory `shaders` beside the program.

## What is trusted

One function of the standard library, `str::to_lowercase`, is called behind a wrapper
whose result is only named (`text::lower_case`).
