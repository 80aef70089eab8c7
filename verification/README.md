# exam_scanner

Reads the answers off a scanned exam sheet. The sheet carries a QR code
(exam hash, exam identifier, page number), three corner markers and
answer boxes; a box counts as checked when at least half of its pixels
are dark.

- `src/` is the verified library: hexadecimal and decimal renderings and
  the one-line descriptions the scanner logs (`text`), the checks of a QR
  payload against the exam's metadata (`qr`), grey-level histograms,
  their quantile bins and the reading of a binary box (`histogram`), the
  choice of the boxes read on a page (`boxes`), the layout of the
  histogram trace image (`hist_series`), and the image facts the scanner
  reports (`image`, `geometry`).
- `app/` is the program around it: argument parsing, image I/O and all
  image processing through OpenCV, floating-point geometry, and logging.
- `tests/` runs the library on concrete sheets, boxes and payloads.
