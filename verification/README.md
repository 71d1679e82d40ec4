# airnc

Share a file on the local network: `airnc <path>` serves the file over HTTP on
a random free port, prints the download link and shows it as a QR code in the
terminal. A separate link service stores links that clients register over a
websocket in MySQL and lists them under `/api/client`.

Layout:

- `src/` — the verified library (Verus): the decisions of both programs with
  their contracts and laws.
  - `cli.rs` — the command line and its check.
  - `text.rs` — decimal text of numbers and reading port numbers.
  - `address.rs` — file name of a path, socket address text, route and link.
  - `port.rs` — drawing a port and the port search decision.
  - `qr.rs` — the QR code picture (through the `qrcode` crate).
  - `transfer.rs` — the loop that streams a file to a downloader.
  - `queries.rs` — the statements of the link service's database.
  - `registry.rs` — the link service's websocket sessions and request checks.
  - `client.rs` — what the sender does with messages from the link service.
- `app/` — the programs around it: command line parsing, sockets, HTTP and
  websocket servers, database access, terminal output.
- `tests/` — tests of the library.
