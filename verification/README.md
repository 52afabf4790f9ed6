# wami

Tenant identity and session-token core, verified with Verus.

- `src/tenant_id.rs`: hierarchical tenant identifiers (`TenantId`): building
  roots and children, parent, depth, ancestors, the descendant relation, and
  the `/`-separated decimal text form with its parser.
- `src/tenant_laws.rs`: proofs that relate those operations (text round
  trip, depth of children, strict hierarchy order, ancestor chains).
- `src/tenant_model.rs`: tenant classification, status, quotas and their
  validation against a parent's quotas.
- `src/sts.rs`: session-token requests, issued credentials and session
  records, and the service that holds the session store.
- `src/text.rs`: decimal numbers, `/`-separated paths and the text of
  version 4 UUIDs, as character sequences.
- `src/random.rs`: random identifier segments from the system's source.
- `app/`: serde forms of the model, text display, and the asynchronous
  endpoint that stores issued sessions.
