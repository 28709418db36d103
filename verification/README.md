# mpc

Coordination of multi-party computation sessions, with its behaviour stated in
contracts and proved by Verus.

A *manager* keeps sessions. A session has a set of participants, each known by a
UUID, and something that they compute together: auxiliary data, a key of which a
number of shares can sign, or a signature. The participants connect to the
manager, which hands each message of one party on to the parties it is for.

- `src/uuids.rs`, `src/ids.rs`: identifiers of participants and of sessions
- `src/protocol.rs`: the messages
- `src/router.rs`: who gets a message, and under which number
- `src/manager/`: the sessions, the requests, the connections, the replies to
  requests that fail, and the laws that hold of all of them together
- `src/client.rs`: a party's side of a connection
- `src/signing.rs`, `src/security.rs`: checks and reports of keys and signatures,
  and the security levels
- `src/error_chain.rs`, `src/text.rs`: errors with their causes, and the texts
  that the crate writes

`app/` holds the programs around the library: the HTTP server, the client and a
demonstration. They do the input and output and run the protocol engine; what
they decide, the library decides for them. `tests/` runs the library with the
real outside crates.

The sessions are kept in a list without two of the same identifier, since the
verifier knows no hash map whose keys are strings and that can be walked.

`paillier-zk` is named in `Cargo.toml` only to hold it to the release that
`cggmp24` was made for: with a later one `cggmp24` does not build.

Calls into outside crates stand behind wrappers marked
`#[verifier::external_body]`. The doc comment of each names the outside function
and says what is believed of it.
