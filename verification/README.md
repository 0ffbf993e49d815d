# j3ecs_netprint

A Windows utility that renders text into a receipt image and prints it on a network ESC/POS
printer, written as a library verified with Verus and a thin program around it.

- `src/` is the verified library:
  - `text`, `host`: character-level helpers and the printer host grammar (IPv4, IPv6, DNS names);
  - `domain`: printer target, layout, settings and print jobs, with their validation;
  - `wrap`: word wrapping of text to a pixel width, for any width measurer;
  - `escpos`: the GS v 0 raster image and cut commands, split into fragments;
  - `settings`: the TOML settings file (its path, reading, legacy fields, writing, round trip);
  - `printer`, `workflow`: what is sent to the printer, input validation and the print workflow;
  - `receipt`: the receipt layout for GDI, font styles and the BGRA to RGB conversion;
  - `fonts`, `gui`: the font selector's list, window texts, layout, messages and worker states.
- `app/` is the program: the settings file on disk, the TCP connection to the printer, GDI
  rendering and the Win32 window. The library decides what is written, sent, drawn and shown;
  `app/` holds the Win32 and I/O plumbing around those decisions.
- `tests/` exercises the library on concrete values.
