# wasm_service

An htmx front end answered from WebAssembly: a service worker hands each
request to this module, which routes it and answers with HTML. There is an
"about" page with a click counter and a todo list (add, delete, toggle,
toggle all, filter).

- `src/` is the verified library: the route table (`router`), the request and
  its form (`request`), the page frame (`site`), the two sections (`about`,
  `todos`), the fixed markup (`markup`), character helpers (`text`) and the
  service state with the answer to one request (`service`). Each renderer is
  specified by the exact text it returns; each handler by the state it leaves
  and the text it returns.
- `app/` holds the WebAssembly exports, the global state behind them and the
  JSON decoding of requests.
- `tests/` runs the library on concrete requests.
