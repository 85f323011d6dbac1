# dragon_game

A side-scrolling dragon runner for the terminal. The dragon stands in a
fixed column, jumps (twice at most before landing) over obstacles that scroll
in from the right, and scores one point per obstacle that passes it.

- `src/` is the verified library: the seeded generator (`lcg`), the obstacle,
  scoring and collision rules (`rules`), the jump counter (`dragon`), the key
  bindings (`input`), the text helpers (`text`) and the frame renderer
  (`frame`).
- `app/` is the terminal program: it keeps the floating-point physics and
  timers, reads the keyboard and draws through crossterm, and asks the library
  for every rule.
- `tests/` exercises the library on concrete values.
