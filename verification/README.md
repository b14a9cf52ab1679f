# llm-doze

A reverse proxy for LLM backends that starts them on the first request and stops
them when they have been idle. The decisions are a Verus library; the program
around it does the input and output.

- `src/`: the verified library.
  - `config`: the configuration, its checks, and the token that holds for a service
  - `auth`: bearer token authentication
  - `reply`: the proxy's own error replies
  - `message`: what is asked of the HTTP types of `hyper`
  - `proxy`: the way of a request through the proxy, and rebuilding it for a backend
  - `server`: a service and its state
  - `lifecycle`: starting, health checks, stopping, the idle monitor
  - `shell`: splitting a command line into words
  - `clock`, `text`: points in time, text building blocks
  - `laws`: what holds of a service whatever is done to it
- `tests/`: tests of the library.
- `app/`: the program: command line, configuration file, sockets, processes.

The library decides and the program acts: each of `handle_request`,
`start_backend`, `stop_backend` and `idle_monitor` takes an event and answers with
the next thing to do. What `hyper` does is stated in the contracts of the items in
`message`, and is not proved.
