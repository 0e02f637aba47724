# sspa_console

A terminal console for a solid-state power amplifier controller that is
reached through a serial terminal program.

- `src/` is the verified library: the packet format and its 32-bit word form
  (`packet`), the ten-digit decimal framing on the line (`wire`), the
  operator's register and signal panel as a state machine over keys and
  reported packets (`panel`, with its laws in `panel_laws`), the line reader
  that drops the terminal's banner (`link`), and the bit-row text (`view`).
- `app/` is the program: it starts the serial terminal, runs the reader,
  writer and keyboard threads, draws the two tables, and hands keys and
  packets to the library.
