# companion

A native companion process for a wallpaper host. It samples the processors,
the memory and the graphics adapter of a Windows system, and sends the samples to
its host over standard output as framed JSON records.

- `src/` is the library, verified with Verus: the record framing and its laws
  (`chunk`, `record`, `stream`, `laws`), JSON records (`json`), the protocol with
  the host and the sampling loop (`session`, `control`), what a sample holds
  (`sampler`), and the rules for adapters and their counters (`adapter`,
  `engine`, `counter`). It performs no input or output.
- `app/` is the program: it reads and writes the streams, calls the system, and
  does the floating-point arithmetic. The system calls are in
  `windows_system.rs`; elsewhere every sample fails.
- `tests/` runs the library.
