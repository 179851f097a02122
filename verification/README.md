# tf_tree_bench

Benchmarks and endurance tests of a transform tree (`tf_tree`), split in two.

`src/` is the library: everything that decides, computes or parses, and the verdicts,
messages and documents that come of it, verified with Verus. Doubles stand in it as bit patterns with the decimal forms that are printed; what
only floating point or the engine can compute comes in as an argument.

| module | what it holds |
|---|---|
| `fixture` | the robot that everything is measured on |
| `differential` | random queries, the route between two frames, the score of a comparison |
| `embed`, `ratio` | the crate-boundary run and the paired run against tf2, and their verdicts |
| `replay` | recorded streams, their windows and query sets, synthetic robots |
| `mp` | the latency histogram, the fixed-rate schedule, `/proc` accounting |
| `report`, `gate` | the benchmark report: fitness, rows, rules, JSON and HTML |
| `scaling`, `soak` | concurrent readers; long runs |
| `torture` | crashes on a shared arena: who is killed, what is judged |
| `number`, `rng`, `stats`, `order`, `text` | what they are made of |

`app/` is the program around it: the command line, files, processes, clocks and the engine
itself, and the headings and tables that it prints around what the library says. It needs the engine's crates (`tf_tree`, `tf_tree_core`, `tf_tree_math`,
`tf_tree_arena`, `tf_tree_ipc`, and `tf_tree_tf2_sys` with a ROS 2 install) beside it. Its
optional parts are switched on by the cfgs `feature = "tf2"`, `"shm"`, `"crash-points"`,
`"embed-probe"` and `"counters"`.

`tests/` runs the library on concrete values.
