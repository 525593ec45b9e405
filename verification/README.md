# gos — Griffith OS core, verified

Griffith OS is a privacy layer that installs on top of macOS, Linux or
Windows: Tor and DNS-over-HTTPS, a one-tap leak test, a per-install node
identity, OS network operations (system proxy, MAC randomization) and
toggleable host "cross-over" (files, apps, clipboard, devices).

This crate holds the logic of that layer, written in Verus and proved
against its contracts:

| module      | what it decides                                                        |
|-------------|------------------------------------------------------------------------|
| `types`     | status, cross-over toggles, leak verdicts, the error and its text      |
| `settings`  | settings defaults; missing or malformed files fall back to them        |
| `identity`  | the node id (hex of the ed25519 public key), its short form, key files |
| `engine`    | the privacy engine's state machine and the leak report                 |
| `net`       | the HTTP request, the reply body, the IP-echo answer                   |
| `doh`       | pinned DoH endpoints, the query path, A records of the answer          |
| `platform`  | per-OS command plans and the parsing of what those commands print      |
| `bridge`    | the toggle checks of each cross-over capability, listing order         |
| `text`      | `split_whitespace`, `lines`, `trim` and friends, stated as spec fns    |
| `clock`     | epoch timestamps                                                       |

`app/` is the shell around it: it performs the I/O (files, sockets, TLS,
processes, the clipboard), decodes and encodes JSON, and hands every result
back to the library, which decides what happens next.
