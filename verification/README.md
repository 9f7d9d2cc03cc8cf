# kaixue

A countdown window to the start of the school year (1 September, 08:00
local time). The verified library in `src/` holds everything the window
decides and computes; `app/` is the Win32 program around it.

- `time`: instants and local date-times, the clock, and the target moment.
- `decimal`: decimal and zero-padded rendering of integers.
- `countdown`: the countdown text and the split of the time left.
- `paint`: the lines the window paints and their heights.
- `wide`: UTF-16 wide strings for the windowing API.
- `quotes`: the sayings the button shows, one picked at random.
- `window`: the window's state, its reaction to each message, and the
  placement of the window and its button.
