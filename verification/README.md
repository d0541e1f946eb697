# wxauto-desktop

A desktop agent for WeChat: it drives a sidecar process that automates WeChat, keeps a
web-socket link to a server, carries out the server's commands and reports messages, friend
requests and health. The library under `src/` holds the rules and is verified with Verus; the
program under `app/` does the input and output around it.

## The library

- `json`, `text`, `text_set`, `files`, `calendar`: values, texts, sets of texts, what was read
  of a file, dates.
- `sidecar`: the sidecar's protocol, and the bookkeeping of the calls to it.
- `wx`: operations on WeChat, their pauses and repeats, and the chats that are listened to.
- `state`: the state of the application, the supervision of the sidecar and its start-up.
- `transport`: the connection to the server, and the waits between connections.
- `agent_link`: what is sent to the server when, and what is done about what comes in.
- `outbox`: the events that the server has not acknowledged, and their file.
- `config`, `app_state`, `commands`, `ui_events`, `ui_log`, `file_log`, `alert`, `cli`,
  `bootstrap`: settings, assembly, the front end's commands and events, logs, alerts, start.

What alternates decisions with input and output is a machine: it takes in an event and says
what to do next. `app/` does it and hands back what happened.

Facts that span several functions stand as public proof functions whose names begin with
`law_`. What is taken on trust of other crates and of the standard library stands in functions marked
`external_body`, in `json`, `wx`, `alert` and `ui_log`, and in one `assume_specification` in
`text`; the comment above each says what is claimed.
