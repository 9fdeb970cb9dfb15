# op-cache

A read-through cache for secrets that the 1Password `op` binary reads. A daemon
holds the secrets in memory; `op-cache read` and `op-cache run` ask it first, and
tell it what `op` said otherwise.

`src/` is a library verified with Verus:

- `cache`, `daemon`, `protocol`: what is held, when it lapses, and what each request
  is answered;
- `resolve`, `client`: how a read goes through the daemon, and how a client gets to
  one;
- `config`, `spans`, `overrides`, `settings`: lifetimes, the overrides among them, and where
  things are;
- `cli`, `op`, `report`: command lines taken apart, and what is printed;
- `prompt`, `notes`, `wizard`, `style`: the configuration wizard as the lines it
  draws and the keys it answers to;
- `text`, `time`: strings and clocks as plain values.

`app/` carries out what the library decides: sockets, files, processes and the
terminal.
