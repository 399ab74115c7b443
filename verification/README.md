# signer

Writes a date and a signature image into the blanks of a PDF form: the run of
underscores after a label such as `Datum:`. Digital PDFs are read from their
text layer; scans are read by OCR, turned upright first.

The library under `src/` holds the decisions, each with a contract proved by
Verus:

- `blank`: the blank after a label in a page's characters;
- `ink`, `label`: on a scan, the line OCR read as the label and the printed
  rule after it, found in the pixels;
- `scan`, `raster`: rendering a page, which way up a scan is, turning it,
  and which turns can be signed;
- `pages`: which pages carry blanks, and the turn the saved document gets;
- `date`: reading `DD.MM.YYYY` or `YYYY-MM-DD` and writing a `strftime`
  format (by `jiff`);
- `signature`: the signature's mask, and its PNG (by `image`);
- `settings`: flags over the configuration file over the defaults;
- `files`: which configuration file counts, and the signed copy's name;
- `escape`: escaping a PDF literal string.

`app/` is the command-line program around it: arguments and the
configuration file, reading and writing PDFs with `pdf_oxide`, OCR with
`ocrs`, and the page geometry, which is floating point.
