# stateful

Speculative state for applications that run on consensus, and circuits that count the
signatures of validators.

- `src/stateful/`: the decisions of the actor that manages databases on behalf of an
  application. `mode` and `pending` hold its state, `rebuild` recovers the state of a
  missing ancestor, `job` takes proposals and verifications from the first step to the
  answer, `actor` handles every other message, and `bootstrap` is the one-time startup.
- `src/db/`: the parameters and failures of databases, and the service that fetches sync
  operations from peers and serves them.
- `src/circuit/`: constraint circuits, and the circuit which shows that at least a
  threshold of validators signed.
- `app/`: runs the decisions over channels, databases, peers and marshal.

The library does no I/O. Where something has to be awaited, a function returns the action
to take, and the next call takes in what came of it.
