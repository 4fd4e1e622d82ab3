# epub_stream_cleaner

Conservative cleaning of EPUB books: anchors that lead to external web sites
and containers marked as advertising are unwrapped (the element goes, its text
and images stay), and every archive must meet the OCF container rules
(`mimetype` first, stored, exactly `application/epub+zip`; safe, unique entry
names; entries within a size limit; a well-formed `META-INF/container.xml`)
before it is cleaned and again before the cleaned copy replaces the output.

## Layout

- `src/` — the library, with its contracts and proofs.
  - `text.rs`: trimming, ASCII case folding, prefix/suffix/infix tests.
  - `href.rs`: which `href` values are external; note-reference protection.
  - `ad_marker.rs`: exact-token advertising markers in `id`/`class`.
  - `markup.rs`: the per-element rule and the `lol_html` rewriting.
  - `xml.rs`: well-formedness checks with `quick_xml`.
  - `entry.rs`: entry descriptions, name safety, entry kinds, compression.
  - `container.rs`: the OCF container rules.
  - `clean.rs`: the per-entry plan and the cleaning of markup entries.
  - `report.rs`: options and the report.
- `app/` — the `epub-clean` command: ZIP reading and writing, temporary files
  and atomic replacement, directory batches in parallel, JSON reports.
- `tests/` — tests of the library.
