# rgecko

`gecko` styles terminal text with markup tags in the manner of
Spectre.Console: `gecko "[cyan1 on white]Hello[/]"`. Tags name palette
colours, `#rgb`/`#rrggbb` values, `rgb(r,g,b)` triples and styles (`bold`,
`underlined`, ...); each tag becomes one ANSI SGR sequence, colours are
rounded to the nearest of the 256 palette colours, and `[/]` resets.

The library is verified with Verus:

- `src/argparse/` — the command line, specified by `parse_model`.
- `src/colors/ztran.rs` — the markup renderer over the bytes of the text,
  specified by `render`; `src/colors/rendering.rs` proves what it does with
  plain text, tags, `[/]` and `[[`.
- `src/colors/transform.rs` — the earlier character-based renderer and the
  colour helpers both renderers share.
- `src/colors/ansicodes.rs`, `colorsheet.rs`, `terms.rs` — SGR building
  blocks, the palette, and colour support as the environment decides it.
- `src/extras.rs` — the colour and style listings, help and version texts.
- `app/main.rs` — the `gecko` program: environment, arguments, output.
