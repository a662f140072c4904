# ice_output

Machine-readable output for a command-line tool that rents cloud machines: JSON documents,
one to a line, and logs that are streamed as JSON records. The library is verified with
Verus; `app/` holds standard streams, processes and threads.

- `src/utf8.rs`: bytes that are meant to be UTF-8, cut into characters and invalid runs
- `src/decoder.rs`: a log that comes in chunks, handed on as texts
- `src/copying.rs`: the laws of copying a whole log, round by round
- `src/json.rs`: the model of JSON values, and what is trusted of `serde_json`
- `src/document.rs`: the documents that commands write
- `src/model.rs`, `src/projection.rs`: costs, workloads, offers and machines, and what is
  told of them
- `src/config.rs`: the configuration with its credentials redacted
- `src/logs.rs`: the output policy of a process, and log records
- `src/supervise.rs`: the state machine that runs a command whose output is a log

Object members are written in the order in which they are set, which takes the
`preserve_order` feature of `serde_json`.
