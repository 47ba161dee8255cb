# Pool control plane

The execution layer of a Pool's control plane and its MemberDisk domain, as
verified Rust. The contracts of the library state what its functions return and
change, which tokens they ask and cancel, and what they send on which channel, and
Verus proves it. Whether a token is cancelled by now, and whether a receiver is still
there, is for the outside to decide: contracts name the answer, and hold for each.

- `src/runtime/`: lifecycle and control of a service, observation, tasks, and the
  coordination of work on one object (join, queue, cancel, promote, wait until idle).
- `src/member_disk/`: the model of a member disk, BLK allocation, and the
  convergence of a disk on physical facts and management intents.
- `src/task/`, `src/executor/`, `src/service/`, `src/router.rs`: services whose
  workflows are managed tasks with exclusive keys.
- `src/demo/`: a small system of services on top of these.
- `src/outside.rs` and `quote` in `src/text.rs`: what is taken from tokio,
  tokio-util and std without proof.
- `app/`: the asynchronous side, that is channels, root tasks, timers and locks
  around the state machines of the library.

The library never waits. What has to be awaited is handed out as an action, and its
outcome is handed back in; the time and the source of identities are arguments.
Public proof functions named `law_..` state what holds across calls.
