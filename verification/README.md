# mpv_ipc

A client for mpv's JSON IPC protocol, split in two:

- `src/` is the verified library (Verus). It holds the data types (configuration,
  commands, replies, events, JSON values) and every decision and message of the client:
  the instance name, mpv's command line, the bounded record of mpv's output, the wait for
  the IPC server, the event listener's connect/retry/stop state machine, the observe
  commands, what to do with each line read from mpv, and how replies, channel states and
  failed kills become results. Contracts state each result exactly; proof functions state
  the laws (distinct instance names, the output log keeps the last 100 lines, the listener
  gives up after exactly five failed attempts in a row, decimal rendering reads back).
- `app/` is the unverified shell: the process, threads, sockets, channels, logging, and
  serde copies of the types with conversions to and from the library's own.

`tests/` exercises the library on concrete values.
