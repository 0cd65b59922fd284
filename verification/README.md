# agent_browser_service

The decision logic of a browser service that manages profiles, their owners
and the leases principals hold on them, verified with Verus.

`src/` is the verified library. Every public function states in its contract
what it returns and how it changes the service state, over spec functions of
the state's records:

- `model`, `json`, `text`, `seqs`, `digest`, `time`: the service state, JSON
  values and the text, sequence, digest and clock helpers.
- `lease`, `lease_ops`, `rejoin`, `reconcile`, `provenance`: profile leases,
  their projection, renewal, release, rejoin and reconciliation.
- `lifecycle`: authorized tab eviction, from registration to the settled
  receipt.
- `recovery`, `recovery_apply`, `acquisition`, `acquire`, `decision`, `reuse`:
  terminal-owner recovery plans, their application, and profile acquisition.
- `capture`, `capture_step`, `probe`, `desktop`, `request`, `normalize`,
  `gates`: request handling and network capture.
- `crash`, `crash_projection`, `diagnosis`: renderer crash evidence and profile
  diagnosis.

Laws that relate several functions stand as public proof functions whose
names begin with `law_`.

`app/` holds what Verus does not see: JSON conversion to and from
`serde_json`, the clock, and the drivers that perform the outside work
(browser, lease authority, host observations) that the library's decisions
ask for. `tests/` exercises the library on concrete values.
