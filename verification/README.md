# winmon

A system-monitor toolkit written in Verus: event parsing and filtering,
report rendering, ring buffers and persistent lists, a line protocol, a
configuration loader, process tables, COM result codes, a tray menu and a
service state machine, performance kernels and their parallel forms, and a
fingerprinted system report. Verus proves the code in `src/` against its
contracts; the laws that relate several functions are public proof
functions named `law_*`.

Layout:

- `src/` — the verified library, one module per topic. `text.rs` holds the
  string model (trimming, splitting, decimal digits, joining) that the other
  modules state their contracts over.
- `tests/` — tests that run the library on concrete values.
- `app/` — the command-line program: argument parsing, files, sockets,
  threads, async tasks, Windows system calls and the foreign-function
  surfaces. It calls the library for every decision.
