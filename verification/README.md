# bdl

The textual syntax of BDL, verified with Verus: a lexer, a lossless syntax
tree and its parser, typed views over the tree, lowering to the surface
tree, the formatter, the source migrations, and the behaviour groups of a
system.

## Layout

- `src/lexer.rs`: tokenisation, specified exactly by a scanner over the
  characters (`spec_tokens`), with its diagnostics and their messages.
- `src/parser/`: the event parser (grammar, expressions, patterns, types)
  and the sink that builds the lossless tree.  The tree's leaves are proved
  to be the lexed tokens, its spans to lie end to end, its errors to lie
  within the source, come sorted, and include every lexical diagnostic.
- `src/ast/`: typed views over the tree, and name binding in blocks.
- `src/lower.rs`, `src/lower/`: lowering to the surface tree, stated as
  exact relations between tree nodes and lowered values.
- `src/units.rs`: the unit expression after a number (`kg * m per s^2`).
- `src/format.rs`: the formatter: the source's tokens, respaced; the gap
  before each token follows the spacing and line-break rules (`laid_out`).
- `src/migrate.rs`: the `drive … by` and explicit unit-domain migrations.
- `src/literal.rs`: decimal literals and their normal form.
- `src/system/`: identities, naming rules, and group edits over a group
  table, with the law that every edit keeps a relationship in at most one
  group of its scope.

## What is not here

The rest of the system layer (system edits, flattening, contracts,
extraction, analysis, persistence) works on the design model, compiler and
IR crates of the BDL workspace, which are not part of this crate; it stays
with them.  Group edits take the relationships of each scope as plain ids
instead of reading the design model.
