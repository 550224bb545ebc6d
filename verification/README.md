# supervisor

The decisions of a per-user process supervisor, written in Verus: what it
stores and holds of its managed runs, how it starts and stops them, how it
takes them over after a restart, how it hands its state out in revisions and
snapshots, how it keeps its logs within bounds, and how its peers come to trust
it.

- `src/` is the library. Everything in it is verified; each public function
  states in its contract what it returns or changes. What spans functions is
  stated as public proof functions named `lemma_...`.
- `app/` is ordinary Rust around it: files, sockets, processes, channels and
  JSON. It carries steps out and hands the outcomes back.
- `tests/` runs the library on concrete values.

Calls of the operating system never stand in the library. A function that needs
one is a step: it takes a state and what came of the last action, and gives the
next state and the next action. Where a request runs through many such steps,
their order is stated too, as a law over everything that was done for it. Six
small functions call outside code, and say above themselves what is believed of
it: SHA-256 (`digest`), random bytes (`random`), the clock (`timestamp`), and the
reading of bytes as text (`process_group`).
