# tx-pigeon

A small HTTP service that hands a Bitcoin transaction to every libre-relay node it
can find, and reports how many of them took it.

`src/` is the library, written in Rust and proved with Verus: what the service
decides, reads and writes. `app/` is the server around it: HTTP, Tor, DNS and
timers. It carries out what the library decides and reports back what happened.

| module        | what it holds                                                     |
|---------------|-------------------------------------------------------------------|
| `text`        | decimal and hexadecimal text                                      |
| `transaction` | transactions as a request gives them                              |
| `services`    | the service bits of nodes                                         |
| `onion`       | names of version 3 onion services                                 |
| `address`     | addresses of nodes, and which belong to libre-relay nodes         |
| `wire`        | messages of the Bitcoin network and their frames                  |
| `crawl`       | asking a node for the addresses of others                         |
| `delivery`    | handing a transaction to one node and judging its replies         |
| `seeds`       | the first nodes to ask                                            |
| `peers`       | sets of nodes, and for how long they are remembered               |
| `broadcast`   | answering requests                                                |
| `shuffle`     | lists in an order of chance                                       |

Connections are driven by `crawl::crawl_step` and `delivery::delivery_step`: each
takes an event and gives the next action. A node that an error of the network or a
timeout kept from taking the transaction is tried a second time
(`delivery::another_attempt`). Calls into other crates stand behind
functions whose doc comments say what is taken on trust of them.

The server answers `GET /health`, `POST /broadcast` and `POST /cache/clear` on
port 3000.
