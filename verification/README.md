# xmodits

A library that reads tracker music modules (Impulse Tracker, Extended
Module, Scream Tracker 3, Amiga ProTracker, and Unreal packages holding one
of these) and gives the PCM data of their samples, ready for WAV files.
Its parsers, decoders and decisions carry contracts that Verus proves.

- `src/` is the verified library:
  - `fmt/` reads each format (`it`, `xm`, `s3m`, `amig_mod`, `umx`);
  - `loader` picks the format by extension, with fallbacks;
  - `interface` puts the formats behind one `TrackerModule`;
  - `compression`, `deltadecode` and `signed` decode sample data;
  - `it/` holds simpler Impulse Tracker readers, with WAV output (`wav`);
  - `common`, `cli`, `crash`, `data/` and `gui/` hold the paths, command
    line, crash reports, settings and window decisions of the application.
- `app/main.rs` is a command-line program around the library: it reads the
  files, computes XM sample rates (in floating point) and writes WAV files.
- `tests/` runs the library on small modules built byte by byte.
