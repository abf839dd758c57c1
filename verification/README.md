# stricter

Host configuration management. A model document (TOML) lists the actions a
host should be brought to; the inventory lists the hosts and how each one is
reached; a bootstrap protocol installs and starts a worker program on each
host over the transport that its connector opens.

- `src/` is the verified library (Verus): the model loader's decisions and
  its error context rendering, the inventory and the choice of connector,
  the Docker transport's arguments and probe check, the bootstrap script and
  the state machine of the bootstrap protocol, and the worker's argument
  handling.
- `app/` is the program around it: command line, file reading, the TOML
  reader, the Docker process, and the loop that drives the protocol over a
  transport.
- `tests/` runs the library on concrete values.
