# rtunnel

The verified core of rTunnel, a desktop manager for SSH "jump host" tunnels:
a local port is forwarded through an SSH proxy to a target host.

- `src/` (Verus): tunnel and application settings (`config`), the rows and
  forms the user interface shows (`view`), the list of configured and
  running tunnels with every edit the user makes (`registry`), password
  policy and credential names (`keyring_manager`), the host-key check
  (`tunnel`), and the decisions of a tunnel session from connecting to
  closing (`session`), with text helpers (`text`).
- `app/`: the program around it: settings files, the credential store,
  the SSH and TCP work of a running tunnel, start at log-in, and a
  terminal front end.
- `tests/`: tests of the library.
