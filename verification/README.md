# hexcmyk

A terminal colour converter: it reads a HEX colour code, shows the colour in RGB,
and converts it to CMYK percentages through a pair of ICC profiles.

- `src/` is the logic, verified with Verus:
  `hex` (colour codes), `icc` (profiles and percentages), `app` (the state),
  `input` (what the keys do), `clipboard` (what is copied and pasted), `view` (what is
  on the screen), `text` and `style` (helpers), and `laws`, `hex_laws` and
  `clipboard_laws` (what holds of the whole).
- `app/` is the program around it: the terminal, the files and the clipboard.
- `tests/` runs the library.
