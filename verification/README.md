# validator-grpc

The logic of a BIP300 validator's RPC service, written in Verus: what a request
asks for, what a block did to sidechains and their treasuries, and what goes out
to a client.

- `src/` is the library. Every function states what it returns. Verus proves it of all
  but the nine wrappers of `chain`, whose contracts it believes: those say what the
  `bitcoin` and `nonempty` crates return.
  - `types`, `messages`: what the validator knows of blocks, sidechains and messages.
  - `wire`, `text`, `error`: what goes out to clients, and why a request is refused.
  - `order`, `search`: stable ordering, first matches, lists whose making can fail.
  - `treasury`, `plan`: how a block moved treasuries, and what is read for it.
  - `coinbase`, `bmm`, `delta`: messages of the coinbase, honoured mining requests, and
    the run through the blocks of a request.
  - `request`, `response`: each request, what is read for it, and its reply.
  - `chain`: calls into the `bitcoin` and `nonempty` crates.
  - `laws`: what holds of the service as a whole.
- `app/` reads from a validator and serves replies.
- `tests/` runs the library with the outside crates.
