# game_theory

An iterated prisoner's dilemma engine whose rules are proved with Verus.

- `src/` is the verified library: moves and payoffs (`action`), the strategy
  interface and its per-match scratch (`strategy`), single matches with
  noise and discounting (`game`), the classic strategies and the
  parameterised families of the default population (`strategies`),
  round-robin schedules, derived seeds, Swiss pairing and truncation
  selection (`tournament`), the census of a population (`census`) and the
  spatial cellular automaton (`spatial`). Random draws go through `rand`
  and `rand_chacha` behind the small trusted wrappers of `chance`.
- `app/` is the command-line program: argument parsing, CSV export, the
  modes that average scores in floating point (round-robin report, Swiss
  rounds, grand finale, evolution) and the learning agents (Q-learning,
  Bayesian classification, lookahead), plus the members of the population
  whose parameters are floating-point chances.
- `tests/` exercises the library on concrete values.

Run the program with `cargo run -- --iterations 200 --seed 42`; see
`--help` for the modes.
