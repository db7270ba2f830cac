# ureq_transport

TCP and SOCKS transports for an HTTP client, in two parts.

- `src/` is the library: everything that is decided or computed, verified with Verus. It does
  no I/O. Each operation that needs I/O is a small state machine that says what to do next and is
  told how it went.
- `app/` is the code around it, in ordinary Rust: sockets, threads, the clock, and the
  conversions between the types of the standard library and those of `src/`.

| module | what it holds |
| --- | --- |
| `time` | durations, and the timeout that comes next |
| `budget` | how the time to connect is shared between the addresses of a host |
| `error` | kinds of errors, and the errors that are found here |
| `addr` | addresses, and the targets that a proxy is asked for |
| `tcp`, `tcp_laws` | connecting to a host, and what holds of every run of it |
| `transport` | using a connected stream: timeouts, input, output, probing |
| `handshake`, `socks4`, `socks5`, `socks5_laws` | the SOCKS handshakes, and what holds of every one of them |
| `proxy`, `proxy_attempts`, `socks` | connecting to a host through a SOCKS proxy |
| `bound_proxy`, `bound_proxy_laws` | doing so from a socket bound to a local IP, and what holds of every run of it |

The library trusts two wrappers, both in `addr`: they call `socks::ToTargetAddr` to read a host
name or a text as the target of a proxy. Their contracts are written out there.
