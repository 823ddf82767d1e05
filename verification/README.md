# pelican

The model and rules of a small retained-mode UI toolkit, verified with Verus.

## Layout

- `src/` — the library, verified by Verus. Its functions carry
  `requires`/`ensures` contracts; the exceptions are the default methods of
  the traits an application implements (`ApplicationDelegate`,
  `ViewControllerBehavior`), which do nothing, and the `eq` of hand-written
  `PartialEq` impls, whose meaning their `PartialEqSpecImpl` states.
  - `geometry`, `color`, `text`, `time`: points, sizes and rectangles;
    colors; decimal text; durations and instants.
  - `handle`, `view`, `window`, `application`: the view hierarchy kept in an
    arena (`ViewTree`), with hit testing and coordinate conversion; a view is
    gone once released, and weak references to it then upgrade to nothing;
    windows and the key window; how a touch finds its view and gesture recognizers.
  - `touch`, `pan`, `events`: touch bookkeeping, the pan gesture
    recognizer, and what each input event does (`handle_event`).
  - `timer`, `run_loop`: timers and one turn of the run loop. The run loop
    owns its timers and gives each an identifier when it is added; a timer
    is invalidated through the loop by that identifier.
  - `button`, `scroll`, `controller`, `carats`, `editing`, `history`, `key`:
    the widgets' state machines, scroll views, view-controller lifecycle,
    text carats, editing text at the carats, undo history, keys and presses.
  - `render`: which views a window's drawing redraws and where their layers
    go, and how a request for display marks layers up to the window. The
    layers themselves belong to the renderer, which hands their state in.
  - `app_main`: the application delegate.
- `tests/` — ordinary Rust tests of the library.
- `app/` — ordinary Rust around the library: the SDL event source, the run
  loop's pacing, windows of the operating system, and the scroll bars'
  floating-point layout.

The laws of the library (what holds across calls) are the `pub proof fn`
items, each with a doc comment stating it.
