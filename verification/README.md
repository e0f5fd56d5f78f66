# distributed_downloader

A downloader that splits a file into byte ranges, hands the ranges to
download servers through a central manager, and lets a client reassemble
the file from the chunks the manager forwards.

- `src/` is the verified library (Verus): how a file is split into tasks and
  the tasks handed out in turn (`utils::distributor`), the manager's registry
  of servers and clients and its reaction to each server message and job step
  (`network::manager`, keyed by `dashmap`'s concurrent map through
  `network::registry`), the client's reaction to the manager's stream
  (`client`), a server's messages (`server`, `network::server`), the
  connection-oriented protocol's helpers (`network::client`,
  `network::protobuf_helper`), the ranged HTTP body checks
  (`downloader::http`), configurations and addresses (`config`), errors
  (`error`) and decimal text (`text`).
- `app/` is the program around it: command line, gRPC and TCP plumbing,
  HTTP requests, protobuf/JSON/YAML encodings and file I/O.
- `tests/` runs the library on concrete values.
