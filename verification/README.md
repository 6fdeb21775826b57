# takumi_html

Turns HTML, Markdown and Jinja templates into the node model that the
`takumi` renderer draws. The library's decisions are stated in contracts and
proved with Verus; what the outside crates compute (the parse tree, the
Markdown and highlighted HTML, a JSON value) is named and tied to its inputs.

## Layout

- `src/` is the verified library. Parsing goes through `scraper`, Markdown
  through `comrak`, highlighting through `syntect`; each such call sits behind
  a small trusted item (the syntect ones in `highlight.rs`) whose doc comment says what its contract claims. The
  rest is proved: the conversion of the parsed tree (`convert.rs`), asset and
  stylesheet resolution (`assets.rs`, `resource.rs`), whitespace and emoji
  handling, the template engine as a step function (`template.rs`), the
  renderer's request checks and caches (`renderer.rs`, `cache.rs`), and the
  order in which font files are taken (`path_order.rs`).
- The conversion reads no file itself: it asks for the files it needs
  (`Step::Needs`) and is run again with their contents in an `AssetStore`.
  The template engine likewise hands out the file to read or the Jinja
  template to render (`TemplateStep`) and takes the outcome back.
- `app/` runs those loops with real files, renders Jinja with `minijinja`,
  and draws and encodes images with `takumi`. It also holds what needs
  floating point: viewport sizes, image dimensions and the `filesize` filter.
- `tests/` holds the scenarios, run against the compiled library.
