# postflop_solver (front-end logic)

The verified part of a post-flop poker solver's front end.

- `src/hand_strength.rs`: board texture predicates (pairs, trips, quads,
  flushes, straights and their draws) over the first `len` cards of a board.
- `src/cards.rs`: card and hand names, parsing a card name.
- `src/actions.rs`: the `Name:amount` list of a node's actions, player labels,
  bet totals, and the card replayed at a chance node.
- `src/paths.rs`: short action labels, path identifiers of saved results
  and the street-by-street line they are built from, range notation.
- `src/nav.rs`: navigation through the results (selecting spots, playing
  actions, dealing cards, splicing the spot list).
- `src/chance.rs`: choosing the card dealt when the tree is walked.
- `src/layout.rs`: the flat result and chance-report buffers.
- `src/laws.rs`: properties relating these functions.
- `src/text.rs`: character-level helpers.

`app/` drives the solver's game engine through the `SolverGame` trait,
computes the floating-point statistics, prints reports and writes files.
