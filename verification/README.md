# bevy_game

Decision logic of a modular multiplayer game, written and proved in Verus: a
dedicated server, a client, a map viewer and a model viewer.

- `src/` is the library. It gives settings their defaults, chooses paths, parses
  model and animation files, streams the world, moves players and lets the
  interface react to keys. Every function states what it returns, and Verus proves it.
- `src/gameplay/` holds the rules of play, `src/viewer/` those of the viewers.
- `app/` is the program around the library: files, sockets, the engine's systems
  and arithmetic on floating-point numbers.
- `tests/` runs the library on concrete values.

Floating-point numbers are carried through the library as bit patterns
(`scalar::Scalar`, `scalar::Wide`). The library compares them exactly; sums,
products and roots are computed by the program and handed in.

Public proof functions whose names begin with `law_` state what holds across
functions.
