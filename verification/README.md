# epaxos

The core of an EPaxos-style replication protocol, written in Verus. Verus verifies
every function in `src/`, and the public ones state in their contracts what they
return and change. One trusted wrapper, `qpaxos::display::lossy_string`, has a
contract that states what `String::from_utf8_lossy` returns; it is believed, not
proved.

- `src/qpaxos/`: identifiers, ballots, dependency lists, instances, records, protocol
  messages and errors, quorum sizes, and the text forms of all of them.
- `src/replica/`: what a replica does with instances: answering replication requests,
  tracking the replies of a replication, choosing the fast-path or slow-path
  dependencies, deciding what to execute, recover or wait for, and the write batch that
  records an execution.
- `src/replication/`: checking and recording replies, and the leader's decisions while
  it replicates a new instance.
- `src/conf.rs`, `src/serverdata.rs`: the cluster layout and the lookup of the local
  replica that serves a key.
- `src/iters.rs`: stepping through stored instances, and what a whole walk yields.
- `src/command.rs`, `src/instance.rs`, `src/message.rs`, `src/protocol.rs`: commands, and
  the instance records and messages whose ballots carry an epoch.

`app/` holds what Verus does not see: loading a layout from YAML, a thread pool, and the
loops that replicate and execute instances against storage and the network, each of
which it takes from its caller.
