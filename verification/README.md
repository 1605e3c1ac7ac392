# poem_adapters

Adapters between the [Poem](https://github.com/poem-web/poem) web framework,
the better-auth authentication core and the Vercel Rust runtime, with the
logic that decides what crosses each boundary written in Verus; what the
better-auth and `http` calls return is trusted as their wrappers state it.

- `src/` — the verified library:
  - `query` — decoding of query components and splitting of query strings;
  - `pairs` — name/value lists and the map that inserting them builds;
  - `headers` — Poem's (`http`'s) header maps, read through trusted wrappers,
    and the validity of header names and values;
  - `request` — a Poem request head and its body turned into the parts of a
    better-auth request, with the size limit and its errors;
  - `response` — better-auth responses and errors turned into responses;
  - `session` — the session token of a request and the steps of the session
    extractors;
  - `stream` — whether a response is streamed (server-sent events);
  - `auth`, `text` — the better-auth and std calls the library makes, and
    byte/character helpers;
  - `laws` — properties of the library as a whole.
- `app/` — the framework side: Poem extractors and the auth endpoint, the
  asynchronous body read, and the bridge to the Vercel runtime.
- `tests/` — tests of the library on concrete values.
