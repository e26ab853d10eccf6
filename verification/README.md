# libp9cpu

Run a command on another machine as if it ran on this one: its input and output are
those of the client, and the file system of the client is mounted for it over 9P.

`src/` decides everything that can be decided without touching the system, and Verus
proves that it decides as its contracts say:

- `cmd`, `namespace`, `launch`: what a client asks for;
- `client`: how a command is started and waited for, and how bytes are read from and
  written to streams;
- `server`: the sessions of a server, the mounts and steps of a new process, and how
  bytes are forwarded;
- `rpc`, `ssh`: the two protocols, as seen from both ends;
- `text`, `number`, `ctext`, `chunk`, `session_id`, `addr`, `log_line`: the parts.

`app/` holds the programs `p9cpu` and `p9cpud`, which do what was decided. `tests/` runs
the library.

Run the server:

    p9cpud --net vsock --port 12346

Run the client:

    PWD=/ p9cpu --tty --net vsock --port 12346 --namespace /lib:/lib64:/usr:/bin:/etc:/home:/export $CID -- /bbin/elvish
