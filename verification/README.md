# gdrawer

A timed slideshow for drawing practice: pick a folder of pictures, and each one
is shown for a fixed time, with breaks in between, up to a chosen number of
pictures. Named sets of settings can be saved.

- `src/` is the verified library: the session as a state machine
  (`app`: state, events, and the work each step asks for), the saved sets kept
  in name order (`set_map`, `order`), the saved data (`config`), the text
  routines the screens use (`text`), the decoding of a picture's bytes with
  the `image` crate (`picture`), and properties over several steps (`laws`).
- `app/` is the window (iced): it draws the screens, runs the clock, loads and
  saves the data file, walks folders, reads picture files and opens the folder
  picker, and feeds every event to the library.
- `tests/` runs the library on concrete cases.
