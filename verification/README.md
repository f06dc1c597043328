# sveltekit_axum

A web framework that renders a SvelteKit frontend inside an Axum route, with
an embedded JavaScript runtime doing the rendering.

- `src/` is the verified library: how an incoming request is handed to
  JavaScript (headers, merged cookies, absolute URL, chunked body reads), how
  the response JavaScript returns becomes an Axum response, how a request is
  routed between the embedded client bundle, the prerendered pages, the
  static directory and the renderer, the response for an embedded file, the
  module loader of the runtime, and the text helpers these rest on.
- `app/` is the program around it: the Axum server and handler, the threads
  and channels of the JavaScript renderer, the runtime's extensions and
  operations, and the serde copies of the representations JavaScript reads.
- `tests/` runs the library on concrete values.
