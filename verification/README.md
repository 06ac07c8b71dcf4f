# terminal_bridge

The verified core of a bridge from a browser engine's layout to a terminal front end.
Given the document's node tree and the fragments that layout produced, it builds a tree of
terminal nodes (document, elements with their interactive role and link/media attributes,
text runs), each carrying the rectangles of its fragments and a summary of its
computed style (display, visibility, 8-bit colors, font and decoration flags, white-space
handling).

- `src/` is the library, verified with Verus:
  - `terminal.rs`: the output types;
  - `display.rs`: display values and their terminal names;
  - `channel.rs`: exact quantization of binary32 color channels to 8 bits, and the proof
    that it preserves order;
  - `style.rs`: the computed values read and their terminal summary;
  - `geometry.rs`: app-unit rectangles, with `euclid`'s translation on `app_units::Au`;
  - `fragments.rs`: per-node metadata gathered from fragments into an `FxHashMap`: the
    absolute rectangles of a node's fragments in app units and traversal order, the style
    of its first fragment and its fragment count;
  - `dom.rs`: node and element classification;
  - `tree.rs`: building the terminal tree, and its laws.
- `tests/` runs the library on concrete inputs.
- `app/` is the glue to the engine: it reads the DOM, fragments and styles, converts colors
  to sRGB, turns each node's fragment rectangles into binary32 CSS pixels and unites them
  (floating point), and converts the result to the embedder's types.
