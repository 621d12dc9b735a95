# styrn

The rules of a control plane for development machines, written in Rust and
verified with Verus.

- `src/` is the library. It decides and computes, and touches nothing: what the
  operating system answered comes in as plain values. Every function that
  computes or decides has a contract, and the properties that span functions are
  public proof functions.
- `tests/` runs the library on concrete values. A volume of directories in
  memory answers the operations by which a worker's directories are made.
- `app/` is the outer layer: streams and processes, serde's side of the records
  that are sent, the measurements of a machine, and the system calls of Windows.

## How work with the outside is written

A procedure that asks the system one thing after another is a function from the
answers so far to the next question or the outcome. The caller asks, appends the
answer and calls again. So the whole procedure is verified for every sequence of
answers: which directories it may make, and that whatever it made is accounted
for. On a volume that nobody else changes, a complete run made exactly what was
missing, and a second one makes nothing.

What is believed of other crates and of the standard library stands in a few
small functions with a contract and a comment that says what it claims: SHA-256,
base64, UUIDs, RFC 3339 times, a look into a JSON document, and conversions of
text and numbers.
