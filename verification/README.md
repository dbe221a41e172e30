# grezi

The logic of Grezi, a tool that turns plain-text slideshows (`.grz` files)
into animated presentations, written in Verus: the functions in `src/`
carry contracts that Verus proves, apart from the small wrappers around
outside crates (`ropey`, `indexmap`, `nominals`, `emojis`, `smallvec`,
`jotdown`)
and std's number formatting, whose contracts are stated from those
crates' documentation and source.

## Layout

- `src/` — the verified library.
  - Slides and objects: `slide` (objects of a slide, how they carry over
    from one slide to the next), `placement` and `slideshow` (reading the
    placement of objects and the slides of a document), `alignment`
    (edge markers), `directives` (object kinds and parameters, and what
    reading an object's parameters settles), `params`, `layout`, `errors`
    (the problems found in a source and which of them are errors).
  - Text: `text` (attributes and fonts), `djot` (the Djot parser's
    events, and the code in them that goes to the highlighter), `markup`
    and `sections` (the events into runs and sections), `numbering` (list
    markers),
    `highlight` (highlighted code into runs), `resolved_text`, `strings`,
    `source`.
  - Viewer: `navigation` (which slide to show on a message, a key or a
    remote control), `remote` (the answers to a presenter remote and the
    slides it moves to), `args` (command-line ranges and sizes).
  - Syntax trees: `syntax` (a tree stored as an arena of nodes),
    `parse_cursor` (the parser's cursor over it, string literals).
  - Language server: `positions`, `rope`, `tokens`, `folding`,
    `symbols`, `snippets`, `incremental`, and the formatter: `cursor` and
    `formatting` (one step of the walk), `formatter` (the layout of each
    construct).
- `tests/` — tests on concrete values.
- `app/` — the command-line program around the library.
