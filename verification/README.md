# wirescript

Wirescript is a small language for wiring up gates in a game: scripts declare
variables, chips and handlers, and are compiled to a graph of gates and wires.

This crate holds the parts of its tool chain that can be proved correct, written
in Rust and verified with Verus:

- `lexer`, `lexer_laws`: from text to tokens.
- `ast`, `ast_view`, `type_expr`, `types`, `literal`, `catalog`: scripts, types,
  constants and the tables of the language.
- `resolve`: imports.
- `typecheck`: the type checker.
- `lower`: from checked scripts to the graph. How expressions, blocks and
  handlers are lowered is a parameter, and what statements and declarations do
  around them is stated for every choice of it.
- `analysis`: what an editor asks: hover cards, completions, diagnostics,
  references, renaming.
- `text`, `diagnostic`, `assoc`: what the others share.

Each function says in its `ensures` what it gives for every input, over the
mathematical values that the types stand for; laws that relate several
functions are public proof functions beside them.

`tests/` runs the library on whole scripts and on values written out by hand.
`app/` is the language server and the JSON interface around the library; it
reaches the parser, the disk and the editor.
