# tixel

Shows images and videos in a terminal with Unicode half blocks (`▄`) and
24-bit colour escape codes. Each text row shows two pixel rows: the upper
pixel is the background colour, the lower one the foreground colour.

- `src/` is the library, verified with Verus:
  - `media`: file classification by extension (video, image, unsupported);
  - `geometry`: aspect-preserving output size and the terminal's limits;
  - `frame`: RGBA frames, unpacking of decoded video rows, resizing through
    the `image` crate;
  - `render`: the ANSI text of a frame;
  - `playback`: which frame to show next, and when to stop;
  - `error`: the error type and its messages;
  - `text`: decimal formatting.
- `app/` is the command-line program: arguments, terminal size, file and
  video decoding, audio through `ffplay`, Ctrl+C and the timed playback loop.
- `tests/` exercises the library.
