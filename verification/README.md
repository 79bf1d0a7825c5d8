# cccp

A network file transfer utility. A local client runs a second client on the remote host over SSH.
The two talk over two encrypted TCP control streams, and the file chunks travel in encrypted UDP
datagrams that are confirmed, sent again when lost, put into order and written.

## Layout

- `src/` is the library: everything that the clients compute or decide, written in Verus. Each
  function states its behaviour in a contract that is proved, and the `law_` functions state what
  holds of several of them together.
  - `bytes`, `text`, `keys`: numbers as bytes, texts, keys of maps
  - `items`, `error`: the control messages, the ciphers, the errors
  - `cipher`: the stream ciphers and the frames of the control streams
  - `hash`: the BLAKE3 hash of a file
  - `packet`: the datagrams
  - `sender`: manifest, reader, unconfirmed jobs, controller
  - `receiver`: wanted files, queues, writer, confirmations, controller
  - `transfer`: what is sent of a file is what is written
  - `retry`, `stats`: failures in a row, the counters
  - `options`, `session`: the options and their texts, the parts that a client can play
  - `install`, `archive`: the installation on a remote host
- `app/` is the program around the library: the command line, files, sockets and SSH.
- `tests/` runs the library on concrete values.

What the library takes from other crates stands behind small functions marked
`#[verifier::external_body]`. Their contracts are believed, and their comments say what they claim.
