# ars-dom

The DOM utility layer of an accessible UI component kit: overlay stacking,
scroll locking, focus scopes and focus traps, outside-interaction
dismissal, portals and background inertness, live-region announcements,
floating-element positioning and exit-animation tracking.

* `src/` is the library, verified with Verus. It holds every decision and
  every piece of state of the layer as plain values: the overlay stack and
  its ordering, scroll-lock depth and owners, focus-scope state and
  restore/Tab rules, focusability and tab order, containment of events in
  an overlay's surface, placement vocabulary and flip candidates, CSS
  containing-block detection, live-region repeat markers, and the
  completion and batching state of exit animations. Each public function
  states its result in its contract; the `law_*` proof functions state the
  properties that hold across operations.
* `app/` is the browser front end (ordinary Rust over `web-sys`): it reads
  the DOM into the library's values, performs the DOM work the library
  decides, keeps the process-wide state, and does the floating-point
  geometry (positions, overflow, viewport, CSS times).
* `tests/` exercises the library on concrete values.
