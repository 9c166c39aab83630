# agent_client

The decision core of a game agent client, verified with Verus: the rules a
worker character plays by (what it sells, drops, buys and eats, which monster
it fights, when it walks to town), the dungeoneer's nightly run, the claim
board workers share, the label block a player's app writes, what each action
of the agent's reply decides and the feedback it is given, how a walk and a
move to a dungeon floor run and what follows one, an innkeeper's day
(wrap-up before a schedule move, guests, orders, plates, sick-room beds), how
a rule file's rules are checked, ordered, read against the world and turned
into actions, the memory file and the announcements shown to the agent, and
the timers and prompt pacing the driver loops run by.

Layout:

- `src/` — the verified library. Every public function states what it
  returns in its contract; the laws that relate several functions are public
  proof functions (`law_*`).
- `tests/` — tests on concrete values, run against the compiled library.
- `app/` — ordinary Rust around the library: configuration and rule files,
  the file system, HTTP (the model endpoint, the announcements), the wall
  clock, floating-point geometry and the action JSON.

Positions never enter the library: the caller measures distances and hands
over order keys (the bits of a non-negative `f32`, which order as the values
do), and spots on the map travel through the rules as an opaque `P`. A rule
file's JSON reaches the library as its own `Json` value, each number carrying
the order key of its value as a double.
