# jpdb

A debugger that steps through a recorded waveform as if it were a running processor.

- `src/` is the verified library: the state of the terminal front end and what keys and
  commands do to it (`app`, `addsig`, `help_modal`, `logger`, `view`), what stands on the
  screen (`render`, `layout`, `window`, `style`), the signals of a waveform and the choice
  of those that are stepped through (`waves`, `merge`, `signal_map`, `waveloader`), and the
  session of the debug stub (`session`, `surfer`). `app_laws` holds what is true of the
  front end whatever is typed; the other laws stand beside the functions they are about.
- `app/` is the program around it: terminal, threads, sockets, files, the Python
  interpreter, and traits for the components it is put together with.
- `tests/` runs the library, with the real `wellen` and `ratatui` behind it.
