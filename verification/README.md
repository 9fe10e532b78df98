# bevy_hui

User interface templates for bevy written in an HTML-like markup, with a
library whose parsing and style logic is proved with Verus.

## Layout

- `src/` — the verified library.
  - `lex`, `number`, `values`: bytes, numbers and the value grammar
    (lengths, rectangles, colors, grid tracks and placements, keywords).
  - `xml`: the markup (elements, prefixed attributes, comments) as byte spans.
  - `attribute`: what a markup attribute means (styles, conditional styles,
    property uses and definitions, events, tags).
  - `template`: templates and their node trees.
  - `style`: the computed style of a node and the hover, pressed and active
    lists; `timer`: interaction timers.
  - `table`, `properties`, `resolve`, `content`: template properties, their
    lookup through ancestors, the resolution of property uses and the
    `{key}` placeholders of text.
  - `slot_map`, `location`, `node`, `widgets`, `xml_style`: small data
    structures and helpers.
- `tests/` — tests of the library.
- `app/` — the bevy side: the asset loader, bindings, conversions to bevy's
  types, the style systems with their floating point blending, and error
  reports.
