# netlab

Generates network experiments (an operating system, a test batch, a
hardware profile, a NIC model, a topology and a routing protocol), runs them
on a GNS3 server and plots their results with `flent`.

- `src/` is the library, verified with Verus: the models, the selection and
  instantiation of experiments, the command templates and their
  substitution, the console steps that configure guests and routers, the
  steps of a run, the checks made before it, the arguments of the plots,
  and the laws that tie these together (`src/laws.rs`).
- `app/` is the program around it: the command line, the JSON files, the
  GNS3 server (through the `gns3fy` Python module), the node consoles and
  the plotting tools.
- `tests/` runs the library on concrete values.
