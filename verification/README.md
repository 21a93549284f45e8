# Account sessions

Several ChatGPT accounts can share one home directory. Each saved account session has a directory of
its own with its credentials; one session is active, and its credentials lie in the home directory
itself. The file `account-sessions.json` says which sessions there are, and holds no secrets.

The library decides what happens on a request (add, list, log out, switch, synchronise) and its
decisions are verified with Verus. It does no input or output: `machine::start` gives the first
action to carry out, and `machine::advance` takes the reply and gives the next, until the request is
answered or refused.

- `src/model.rs`, `src/auth.rs`, `src/accounts.rs`, `src/claims.rs`: the data and what is computed
  from one piece of it.
- `src/registry.rs`, `src/response.rs`: finding, changing and reporting saved sessions.
- `src/protocol.rs`, `src/script.rs`, `src/machine.rs`: requests, actions and replies, the course of
  each request, and its executable form.
- `src/host.rs`, `src/outcomes.rs`, `src/runs.rs`, `src/requests.rs`, `src/progress.rs`,
  `src/laws.rs`: what requests do to a home directory from beginning to end, and what always holds.
- `src/ids.rs`, `src/home.rs`: session identifiers, the clock, and where sessions lie.
- `app/`: the host, which reads and writes files and talks to the services.
