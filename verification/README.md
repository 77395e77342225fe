# neoshell_core

The verified core of a terminal client's networking: proxy tunnels for SSH
connections, update checks, and SSH session bookkeeping.

- `src/` is verified with Verus.
  - `proxy/config.rs`: proxy settings and the proxy list (add, update,
    delete, look up), with laws relating the operations.
  - `proxy/socks5.rs`, `proxy/http.rs`: the SOCKS5 (remote name
    resolution, username/password) and HTTP CONNECT handshakes as state
    machines; the caller performs the reads and writes they ask for. The
    HTTP handshake never reads past the end of the response header, so the
    bytes that follow stay in the stream for the SSH handshake.
    `http.rs` also reads the proxy's response (header end, status line,
    status code) exactly as the Rust standard library would.
  - `proxy/probe.rs`: the proxy reachability and latency test.
  - `proxy/error.rs`: handshake failures and their messages.
  - `updater.rs`: platform keys, the manifest's table of downloads (one
    per platform key), version comparison, MD5 checking of downloads, and
    the update status.
  - `ssh.rs`: the table of open SSH sessions, which decides the writer
    channel and the exact command for each write, resize and disconnect
    (the caller hands the command to the channel and the verified
    `write_outcome` / `resize_outcome` give the result); the choice of
    authentication; and the reader and writer threads' decisions.
  - `foreign.rs`: the calls into base64, md-5 and the standard library's
    lossy UTF-8 decoding, each with the contract it is trusted to meet, and
    the declaration of tokio's channel sender.
- `app/` holds the unverified I/O: the proxy list's JSON file, sockets,
  HTTP downloads, SSH connections and threads.
- `tests/` runs the library on concrete inputs.

## Tables keyed by strings

The update manifest's downloads and the open SSH sessions are keyed by
`String`. vstd's specification of `std::collections::HashMap` yields no
provable lookups for `String` keys, so neither table could be stated over a
`HashMap`. Both are vectors instead (`DownloadTable`, `SshManager`), with
"no key occurs twice" as a type invariant and a view that is the map the
original held: `DownloadTable` is viewed as a `Map` from platform key to
download, and `SshManager` as its sequence of sessions, looked up by id.

## Sending to a session's writer thread

Tokio's `Sender::try_send` consumes the command when it succeeds, so no
contract on that call could say what the channel received. The session
table therefore returns the command and the session it is for, with an exact
contract, and the caller makes the send.
