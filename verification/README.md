# icemining

The verified core of a mining pool's backend services, written in Verus.

`src/` is the library. Its functions are verified by Verus against their
contracts, except a few trusted items that call outside code and whose
contracts Verus takes on trust: the `hashbrown` map behind the account index
in `payout`, and the three clock reads in `clock`. The clock functions state
nothing of the time they return, which depends on the machine.

- `keys`, `text`: score-table, queue, worker and user keys and the NATS
  subjects of each environment, with decimal rendering of integers.
- `window`: the payout window of recent shares (trimming and compression).
- `hashrate`, `grouping`, `worker_dict`: per coin-and-algorithm share queues,
  their windows, and per-worker tallies.
- `auth`, `workers`, `models`: accounts parked until their first share, and
  the worker rows of a miner's connection life.
- `payout`: the pool fee, whom a block pays, and the accounts earnings are
  booked to (through a `hashbrown` map).
- `earnings`: the steps that settle an earning into a balance.
- `logwatch`: what a node's log line reports and when the node is restarted.
- `maintenance`, `blocks`, `routes`, `clock`, `database`: smaller rules of the
  services.

`app/` holds the services themselves: NATS subscriptions, MySQL through
diesel, timers, MessagePack decoding, the floating-point scoring, and the web
routes. It calls the library for every decision.

`tests/` exercises the library on concrete values.
