# ringroute

A minimal traceroute built on [io_uring](https://kernel.dk/io_uring.pdf), with a
core that is verified with [Verus](https://github.com/verus-lang/verus).

To discover the path to a target, ringroute sends one probe for each hop, with
increasing time-to-live values, all at once. A probe sent with TTL _N_ expires at
the _N_th hop, whose router typically answers with an ICMP Time Exceeded message.
The target itself answers the probes that reach it. The trace waits for the full
timeout before results are printed.

## Layout

- `src/` is the verified library: the datagrams and their checksum, the parsing
  of what the kernel hands back, the state of a trace, the meaning of the options
  and the text of the report. Functions state what they do in `requires` and
  `ensures`; properties that span functions are proof functions whose names start
  with `law_`.
- `tests/` runs the library.
- `app/` is the program around it: arguments, name resolution, sockets and the
  ring.

## Requirements

- Linux 6.0 or newer compiled with `CONFIG_IO_URING=y`
