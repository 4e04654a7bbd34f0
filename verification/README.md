# opa_operator

The decisions of an operator that runs Open Policy Agent (OPA) servers on Kubernetes, written and
proved in Verus.

- `src/` is the verified library. Where the cluster or the operator framework has to be asked, a
  step says what to ask, and its `answer` gives the next step: `strategy` prepares a
  reconciliation, `reconcile` puts its parts in order, `deletion` deletes all pods, `missing_pods`
  looks for a node that a pod is missing on. `config_maps` and `pods` plan the objects to create,
  `product` writes the configuration file and the start command of a server, and `set_up` states
  what all of these come to for a pod. One call is trusted, not proved: that of the standard
  library's `str::parse` for a port number, in `port`.
- `app/` runs the operator: it puts the questions to the cluster and the framework and builds the
  planned objects.
- `tests/` runs the library on concrete values.
