# rig_runtime

Verified core of an agent runtime. Agents, models, tools, stores, policies and runs are rows of a
world; systems read and change the world in a fixed order until nothing more can be done without an
answer from outside.

- `src/` holds the runtime with its contracts. `world`, `column` and `fold` are the model that the
  contracts speak of. The systems stand in `ingest`, `reconcile`, `prepare_*`, `policy_stage`,
  `dispatch`, `apply`, `commit_*`, `discovery` and `publish`, and `schedule` runs them in order.
  `patch` reduces the request patches of policies. `debug` explains runs.
  `runtime` and `handle` are the facade. `transcript`, `normalize`, `correlate`, `adapters`,
  `builder` and `drive` are what a standalone agent needs. `laws*` states what holds across
  functions.
- `app/` awaits models, tools and stores, streams their answers, and holds the serialised forms.
- `tests/` runs the library.
