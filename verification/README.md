# module_register

Registry of what a native module exports to JavaScript through Node-API, and the
state machine that puts it before the engine.

* `src/` is the library. It is verified with Verus; the one thing taken on trust is what
  `lend` in `persisted` says of a function of the standard library.
  * `sys` plain-value forms of what the C interface hands over
  * `names`, `persisted` names and containers
  * `exports`, `classes` what can be registered, and how it is gathered
  * `registry` everything the process has registered, and the lookups
  * `plan`, `walk`, `calls` the tasks of a registration and the requests they take
  * `custom_gc` where references to JavaScript values are released
  * `runtime` the share of an environment in the asynchronous runtime
  * `session` a registration from the engine's call to its return
  * `plan_laws`, `walk_laws`, `session_laws`, `setting_laws` what holds of every
    registration
* `app/` holds the registry of the process and performs the requests through the
  C interface.
* `tests/` runs the library against a scripted engine.
