# carcetti

An automatic video editor. It listens to a recording, cuts it where noise gives way to long
silence, picks the liveliest clips that fill a time limit, lets the user change the choice in the
terminal, and has MELT render the result.

`src/` is the library, verified with Verus:

- `video` cuts a recording into clips that tile it from its first to its last moment.
- `sort_clips` picks the clips of highest priority until the time limit is filled.
- `melt` and `assembly` write the chosen clips down as the XML that MELT reads.
- `ui` holds the state of the terminal interface: what the keys do and what is on the screen.
- `video_info` turns decoded samples and pictures into what the clipping works on.
- `processing`, `tempdir`, `log`, `messages` and `config` hold the decisions of the program.
- `binary64`, `text`, `paths` and `random` are the ground that the rest stands on.

The library does not compute with real numbers; it compares them by their bit patterns.

`app/` is the program around the library: the terminal, FFMPEG, MELT, the file system, and the
arithmetic on real numbers. `tests/` holds the tests of the library.

A recording is given as the first argument, the output file as the second. `--keep-temp` keeps the
temporary directory.
