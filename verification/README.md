# roc_host

Hosts for Roc applications that hand control back to the host through
continuations: Roc returns a tagged pointer, the tag says what it wants
next (a number, a future to await, a database answer, the request body,
or nothing more), and the host answers by calling the continuation.

- `src/` is the verified library (Verus): tagged-pointer arithmetic, the
  decisions of each continuation protocol, the effects Roc calls, panic
  handling (with UTF-8 checking of the message), HTTP status resolution,
  and the routing of the plain Rust benchmark server, with the decimal
  parsing and formatting it needs and the templated home page.
- `app/` holds what Verus does not see: the C entry points Roc links
  against, memory through libc, the foreign calls into compiled Roc code,
  the tokio runtimes and the hyper servers.
- `tests/` runs the library on concrete requests and continuations.
