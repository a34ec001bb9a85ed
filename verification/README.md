# api_proxy

The logic of a local proxy that forwards OpenAI-compatible requests with accounts on many
upstream sites, written and proved in Verus.

- `src/` is the verified library. It takes plain values and gives plain values: request bodies
  as bytes, answers as a status and a JSON value, accounts as structs. Its contracts say exactly
  which request is made, which account is tried next, what is recorded of an account, and what
  the client is answered. Functions named `law_..` state what holds of several of them together.
- `app/` is ordinary asynchronous Rust around it: the HTTP handlers, the commands of the desktop
  shell, and the requests to upstream sites. The traits in `app/interfaces.rs` stand for the parts of
  the application that choose accounts, store the configuration and run the server.
- `tests/` runs the library on concrete values.

The functions marked `external_body`, in `codec.rs`, `headers.rs`, `openai.rs` and `service.rs`,
call `serde_json` and the header, status and method types that `reqwest` re-exports. Their doc
comments say what is claimed of those calls without proof.
