# stripe_mcp_server

An MCP server that offers the Stripe API as tools: a generic one, `stripe_api`, which
reaches any endpoint, and named ones for common operations. The logic is a library whose
contracts Verus proves; a thin program around it talks to the network.

## Layout

`src/` is the verified library.

- `text` orders texts by their code points and writes integers in decimal.
- `json` has JSON values, whose model is a tree of maps and sequences.
- `params` writes a value as pairs in bracket notation, drops null fields and merges objects.
- `encode` turns an object id into one path segment.
- `request` plans the request of a call, or its error.
- `tools` has the arguments of each tool and the request that they lead to.
- `response` makes the answer to the client from what came of a request.
- `startup` settles the configuration and says what the server is.
- `leaves` and `laws` state what holds of all of this together.

`app/` is the program: it reads the environment, listens, sends what the library plans and
hands back what came of it. `tests/` runs the library on concrete values.

## What is not proved

Three calls go to other crates, and their contracts are taken on trust:
`percent_encoding::utf8_percent_encode`, `serde_json::from_str` and
`serde_json::to_string_pretty`. Each stands behind a function marked
`#[verifier::external_body]` whose comment says what is claimed.

## Running

Set `STRIPE_SECRET_KEY` to a secret (`sk_...`) or restricted (`rk_...`) key, and
`BIND_ADDRESS` if the server shall not listen on `127.0.0.1:8080`. Clients connect to `/mcp`.
