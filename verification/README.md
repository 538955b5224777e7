# shmooz

Zoom, annotate and capture the current Wayland view.

The crate is in two parts.

* `src/` is the library, verified with Verus: the interaction state machine
  (keys, pointer buttons and drags, modes and tools), the annotations of a window
  and their editing, the integer rasteriser that draws annotations, cursors, text,
  the indicator badge, toasts and the help screen, screenshot pixel handling
  (source formats, compositing, RGBA conversion, PNG framing), output selection
  and geometry, clipboard decisions, and the command line settings.
* `app/` is the program around it: the Wayland connection and protocol objects,
  shared-memory buffers, the event loop and timers, keyboard maps, files and
  processes, and the floating-point view geometry (zoom, pan, resampling, hit tests,
  the spotlight circle).

`tests/` exercises the library on concrete values.
