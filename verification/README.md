# netconsole

A network console: log messages are sent as UDP packets to a set of configurable targets, together
with data that the user attaches to a target and facts that the system reports.

- `src/` is the verified library. It holds the addresses, the netpoll builder, the console record,
  the command line format, the attributes, userdata and sysdata of a target, and the state of the
  driver. It is computation on plain values: no input or output, and nothing that is believed
  without proof.
- `tests/` runs the library on concrete values.
- `app/` runs it in user space: sockets, the text of IP addresses, the log, and the lock around the
  state.

Where memory can run out, a function tries to reserve it and says what holds whatever comes of
that. Beside it stands a function, named with `_reserved`, that takes the outcome as an argument and
says exactly what it does for each.
