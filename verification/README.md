# ksu_webui

The web panel of KernelSU: a small HTTP daemon on 127.0.0.1 that shows the state
of the kernel side and switches its features. Access needs a token, given as
`?token=` in the address or in the header `X-KSU-Token`. The port is 8389 unless
the environment variable `KSU_WEBUI_PORT` asks for another one.

- `src/` is the library, verified with Verus: requests, responses, the token,
  the status, the features, and the order in which things are done. `src/laws.rs`
  states what holds of a connection as a whole.
- `app/` does the reading, writing, binding and forking that the library asks for.
- `tests/` runs the library on given inputs.
