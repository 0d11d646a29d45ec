# remotefs_ftp

An FTP and FTPS client whose rules are verified with [Verus](https://github.com/verus-lang/verus).

- `src/` is the library: path rules, `LIST` parsing, error classification, transfer cleanup, the
  filesystem operations as steps, and the client's state. Every function carries a contract that
  Verus proves, but for those named under "What is trusted". The library performs no I/O.
- `app/` talks to the server: it implements the `remotefs` traits on Tokio and `suppaftp`, performs
  the steps that the library asks for, and converts between the types.
- `tests/` runs the library on concrete values.

## Platforms

Paths on the wire are POSIX paths, and the operations take those. On Windows a path is rendered first
by `remote_path_on`, which puts slashes in the place of backslashes, and names in listings are held
to the rules of the client's `platform`: no backslash and no drive. All other rules are the same
everywhere.

## What is proved

Functions whose names begin with `law_` state what holds of several functions together. Among them:

- only absolute POSIX paths without control characters are sent, so that no path can end a command
  line or start another;
- every entry that a listing returns is a child of the directory that was listed;
- looking a path up reports it missing only where a successful listing shows that it is;
- a classified refusal keeps the server's reply as its cause;
- a download starts at the requested offset, and returns no more than the requested length;
- ending a transfer reports every failure, and gives the client back;
- a client whose connection may hold unread replies refuses operations until it reconnects.

## What is trusted

Calls into `suppaftp`, `chrono` and std stand behind small functions marked
`#[verifier::external_body]`, whose comments say what is claimed of the call: parsing one `LIST`
row (`list.rs`), quoting a name (`list.rs`), parsing a date (`parser.rs`), and decoding bytes as
UTF-8, strictly (`text.rs`) and lossily (`operation.rs`).
