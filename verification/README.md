# ftp_gateway

An HTTP gateway to an FTP server: it logs in, runs `PWD`, `CWD`, `CDUP`,
lists directories over passive-mode data connections, and uploads and
downloads files while keeping each unfinished transfer's offset in a
PostgreSQL table (`breakpoint`), so that an upload can be resumed.

- `src/` is the verified library (Verus):
  - `text.rs`: decimal numbers, white space, string building;
  - `command.rs`: FTP commands, their line framing, `host:port` addresses;
  - `reply.rs`: reply text, the endpoint of a `227` reply, the directory of
    a `257` reply;
  - `models/`: the `Breakpoint` record and the statements on its table;
  - `flow/`: each handler's decisions as a state machine (`login`,
    `session`, `listing`, `transfer`), with the laws of transfers.
- `app/` is the server (actix-web, tokio, sqlx): it performs the actions the
  flows name and hands the outcomes back.
- `tests/` runs the library on concrete values.
