# spektra

The verified core of Spektra, a system that monitors FM and DAB broadcast
transmitters from a fleet of software-defined-radio nodes.

- `src/` is the library, written in Verus: every function carries a contract
  and is proved against it. It holds the RDS block layer (checkwords,
  synchronisation, differential decoding), the alarm lifecycle and the work
  orders around it, who may see and do what, live inspection sessions on both
  sides of the wire, report scheduling and the checks on what nodes send,
  calendar arithmetic for partitions and rollup buckets, the offline report
  journal's framing, the node panel and fleet list, and the server's health
  counters. Outside crates (argon2, hex, rand, prost) are called through a
  handful of small trusted wrappers whose contracts are written next to them.
- `tests/` exercises the library from outside.
- `app/` is a small command-line front end: the file, clock and
  floating-point work the library leaves to its callers.
