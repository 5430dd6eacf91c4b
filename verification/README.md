# mcp_server

A local HTTP gateway that runs several stdio servers as child processes and
shares each one among many HTTP+SSE clients. Every client keeps its own
JSON-RPC ids: a request reaches the child under a fresh number, and the answer
goes back to the client that asked, under the id that it asked with.

`src/` is the library, verified with Verus. It holds the state of the gateway
and everything that is decided:

| module    | what it decides                                                        |
| --------- | ---------------------------------------------------------------------- |
| `jsonrpc` | the numbers of open requests, and whose each one is                    |
| `proxy`   | who gets what a child or an HTTP endpoint says                         |
| `session` | the streams of sessions, and new session ids                           |
| `state`   | configured servers, live proxies, and what a reload recycles           |
| `routes`  | the reply to each HTTP request                                         |
| `command` | the commands of the console, as typed                                  |
| `console` | what a command does, and what is shown for it                          |
| `config`  | settings, server ids and listener                                      |
| `child`   | the framing of lines, and the search for a program on Windows          |
| `json`    | JSON values; their text is read and written by `serde_json`            |
| `table`, `order`, `text` | tables by name, alphabetical order, text                |

The proof functions whose names begin with `law_` state what holds of the
gateway as a whole.

`app/` is the program around the library: command line, files, processes,
sockets and tasks.
