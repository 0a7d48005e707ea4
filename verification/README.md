# polyminis_core

Polyminis are small grid creatures that evolve in a simulated world. Each one
grows its body from a genome of four-byte chromosomes, senses and acts through
the traits its cells carry, and is scored by how it behaves.

`src/` is the verified library, checked with Verus:

- `morphology` grows bodies from genomes (depth-first placement of cells on the
  grid, bounding box, turned layouts), crosses and mutates genomes, and reads and
  writes bodies and translation tables as JSON. `placement` and `coord_map` hold
  the placement model and the layout maps.
- `traits`, `sensors`, `actuators`, `instincts`, `types` are the vocabulary of
  bodies, with their JSON names.
- `json` is the JSON value model every serialization is stated over;
  `serialization` holds the flags and the (de)serialization traits.
- `evaluation` sorts an individual's statistics for the fitness evaluators;
  `control` decides how a brain is reshaped and where each weight of a reshaped
  layer comes from; `collision` decides how overlapping bodies are pushed apart
  while the world is laid out; `stats` derives vital statistics from a body;
  `epoch` counts the steps and restarts of a simulation epoch; `species` derives
  a species' random seed.

`app/` is the unverified simulation around it: the neural network, the physics,
temperature, random numbers and genetic algorithm, whose crates and float
arithmetic the library does not take in. `tests/` exercises the library.
