# pro_dynamo

A DynamoDB abstraction with optimistic concurrency control built in, verified with
[Verus](https://github.com/verus-lang/verus).

Every item is stored alongside a `data_version`, and the write operations are defined by what they
expect that version to be:

| Operation | Guard | Use when |
|---|---|---|
| `create_item` | item must not exist | bootstrapping a key |
| `put_item` | stored version must equal `expected_version` | updating a key you have read |
| `add_to_counter` | none; the add is atomic | allocating numbers |
| `put_item_unconditional` | none; the version still advances | deprecated: prefer the above |

`create_item` and `put_item` report a lost race (`Error::AlreadyExists`, `Error::Conflict`) instead
of silently overwriting the winner, so a read-modify-write loop over a key that may not exist yet
retries on either and needs nothing else.

A record written before versioning existed reads back as version `0`. On a real table, feeding that
`0` back into `put_item` upgrades the record; the in-memory store rejects an expected version of
`0`.

## Layout

`src/` is the library. Nothing in it talks to the network, and every function has a contract.

- `error`, `schema`, `container`: the types that callers see.
- `mock`: the in-memory store. Each operation is specified as a transition of `MockView`.
- `aws::request`: the requests to a real table, with their keys and expressions.
- `aws::reply`: what each operation returns, once the service has answered or failed to.
- `aws::guarded`: guarded writes as a sequence of steps, the retries of an unconditional write
  among them.
- `aws::service`: what the laws take the service to do with a guarded write and with a counter.
  Nothing is executed there, and no contract rests on it.
- `aws::item`, `assoc`, `decode`, `json`, `text`: what the above are built on.
- `laws`: what holds between operations: that versions never rewind, that a spent version stays
  spent, that a read gives back what was written, that the two backends agree.

`app/` is the asynchronous service around it: serialization with serde, the lock around the
in-memory store, and the AWS SDK.

What the proofs rest on without proof is marked `external_body` and described where it stands: in
`text`, parsing of integers and quoting of strings by the standard library; in `json`, the access
to `serde_json` values.
