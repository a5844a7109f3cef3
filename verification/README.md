# elgate_core

Core of an I/O offloading sidecar: applications hand disk and network
operations to the engine through a ring buffer in shared memory, and the
engine runs them on worker threads placed according to the CPU topology.

The library in `src/` is written in Verus and verified:

- `arch`: CPU topology (logical and physical cores, NUMA nodes read from a
  sysfs listing, CPU list parsing), the runtime mode chosen for it, and which
  core each worker thread is pinned to.
- `ring`: the ring buffer over a memory-mapped region: the header, the slots,
  writing, reading, producer registration, and the first-in, first-out laws
  (`ring::fifo`).
- `disk`, `net`: settings of the disk and network engines and what each of
  their operations needs.
- `text`: trimming, splitting and decimal parsing and printing, with the
  meaning `str::trim`, `str::split` and `str::parse::<usize>` give them.

The proofs treat a mapped region as changing only through the one mapping
that holds it (memmap2 makes a file written while mapped elsewhere undefined
behaviour). A ring shared between processes, or opened twice, is outside
what is proved: in particular, producers in different processes are not
kept from taking the same slot.

`app/` holds the I/O around it: reading sysfs, mapping ring files, spawning
and pinning threads, and the tokio-based engines. `tests/` runs the library
on concrete values.
