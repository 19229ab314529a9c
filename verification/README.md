# hpu_sim

Simulation of a cluster of homomorphic processing units (HPU). It stands for the hardware
behind the simulation interface of `tfhe-hpu-backend`, so that applications run without a
board.

## Layout

* `src/` is the library, verified with Verus: parameters, elaboration of a cluster, register
  map, micro-core (translation of operations, transfers between nodes) and computation core
  (register file, arithmetic, bootstrapping, bridge with the scheduling model).
* `tests/` runs the library on concrete values, with the real `tfhe` and `tfhe-hpu-backend`.
* `app/` is the simulator around the library: command line, configuration files, ports and
  time of the simulation kernel `ra2m`, and the scheduling model of `zhc`.

Each module of the library describes its state with a view, and each event as a function
from a state to the next one. The `laws` modules, and the public proof functions next to the
types, state what holds across several events. Functions that make a call into another crate
say in their documentation what is taken for granted of it.
