# codex_rs

The decisions behind two parts of Codex, verified with Verus:

- the local web server that a browser comes back to at the end of a login, and the exchange of
  the authorization code for tokens;
- the `gravity-sketch` tool, which drives a command line program and reports what it prints.

`src/` is the verified library. It decides; it does not touch sockets, files or processes. Each
step takes the outcome of the work that the step before asked for and says what is to be done
next.

| module | contents |
| --- | --- |
| `server` | options, start and routes of the login server |
| `authorize` | the URL that begins a login, and its state |
| `callback` | the exchange of a code for tokens |
| `entrypoints` | logins in a process of their own, and the URL found in what they print |
| `gravity_sketch` | parameters of the tool and the command line they stand for |
| `tool_call` | a tool call, from its arguments to its result |
| `live` | a running tool: what is sent as it prints and ends |
| `stream` | lines printed by a running tool |
| `process` | programs, arguments and environments |
| `text` | scanning, trimming, splitting and joining of text |
| `login_laws`, `tool_laws`, `live_laws`, `form_laws` | what holds of the library as a whole |
| `external` | what is believed of other crates and of `std` |

`app/` performs the work: it listens, posts forms, starts processes and sends messages.
`tests/` runs the library.
