# dht_service

The rules of a torrent client's DHT service, written in Verus: which torrents are looked up next and
how hard, what becomes of a lookup that is stopped, who gets the peers that it found, and what the
service does when its runtime is built, fails or is replaced.

The library decides; it does no I/O. Times are numbers of nanoseconds that the caller passes in, a
channel is a number, and what the network runtime reports of its lookups is plain data
(`runtime::ledger`). Every function that changes something says in its contract how the state after
it follows from the state before.

## Layout

- `src/planner/`: the demand planner. `step` says what each action leads to, `reducer` does it,
  `selection` and `ranking` pick what is launched, `drain` handles lookups that were stopped.
  `invariants`, `selection_laws`, `start_laws` and `drain_laws` prove what holds of all of that.
- `src/scheduler.rs`, `src/demand.rs`, `src/slice.rs`: when a demand is due, and how demands differ.
- `src/state/`, `src/subscribers.rs`, `src/commands.rs`: the service's state, its subscribers and the
  commands to it. `state::agreement` proves that the planner and the subscribers agree, and
  `state::departure` that a demand goes with its last subscriber.
- `src/effects.rs`, `src/driver.rs`, `src/reconfigure.rs`, `src/lifecycle.rs`, `src/runtime/`: the
  service's loop, as functions from state and event to state and work. `effect_laws` and
  `apart_laws` prove what carrying out that work keeps, and `run_laws` what holds after every run.
- `src/codec.rs`: node ids and labels. The calls into `hex` and `rand` stand here.
- `app/`: the service on tokio, around the library. It needs a type that implements `DhtRuntime`.
- `tests/`: the library's behaviour on given values.
