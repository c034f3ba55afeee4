# lifecycle

The core of a contract that keeps the maintenance records of physical assets and scores the assets
as collateral, written in Verus: every function states what it does, and Verus proves it.

* `src/` is the library. `state` holds the contract's state and its invariant; `call` is what the
  outside tells about one call (the time, the signatures, the answers of the registries);
  `maintenance`, `ownership`, `scores`, `recurring`, `upkeep`, `settings` and `governance` are the
  operations; `queries` answers questions; `storage` puts a state together from stored parts;
  `history`, `scoring`, `weights`, `engineers`, `lists`, `table`, `names` and `arith` are what they
  are built from. The `*_laws` modules state what holds across operations. `validation` and
  `collateral` check inputs, and `host` says what is relied on of the Soroban SDK.
* `tests/` runs the library on concrete values.
* `app/` is the Soroban contract around the library: it loads and stores the state, asks the
  registries, collects signatures and publishes events.

An operation takes a `Call` and either has its whole effect or ends with an `Abort` and no effect.
Where a signature is missing, the `Abort` names the address; the call can be repeated once that
address has signed.

Some rules that are easily taken for others:

* A service earns 5 points unless the increment or the weight of its task type is changed; the
  engineer's reputation scales that from a half to one and a half.
* The score of a serviced asset fades, but not below 1; only an asset without a record, a deprecated
  one or one out of service scores 0.
* Asking for a score changes nothing; `decay_score` stores the faded score.
* A full history makes room for a submission or a transfer, but refuses a batch.
* A change of owner ends all authorizations and keeps the score.
