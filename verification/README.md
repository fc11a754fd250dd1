# netting

The control plane of a Kubernetes service mesh, as a verified library.

- `src/k8s/` summarises the cluster's objects (pods, replica sets,
  deployments, services, namespaces), writes label selectors, and builds the
  deployment patch that injects the sidecar and its NAT redirection rules.
- `src/table.rs` holds the per-namespace tables; `src/catalog.rs` and
  `src/catalogue.rs` build the cluster catalogue from what the API lists,
  marking the pods that services expose.
- `src/comm/` and `src/net/` hold the replies of the handshake service.
- `app/` talks to the Kubernetes API and runs the injection.
