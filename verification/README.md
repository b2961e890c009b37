# holochain_roles

Administrator and dynamic roles for Holochain applications, following the
progenitor pattern, with its decisions verified in Verus.

- `src/` is the verified library. `handlers` holds the assignment update as a
  state machine (each step names the DHT call to make and moves on the reply;
  a change of an existing assignment updates its entry to a new version),
  and the listing of an agent's roles and of a role's holders. `validation`
  decides whether an agent holds a role now or held it when it committed an
  entry, and whether it is an administrator. `progenitor` reads the DNA's
  `progenitor` property. `entry_def` describes entry types and their
  validation rules as data. `roles_zome` and `example_zome` hold the logic of
  the two zomes that come with the mixin. `laws` proves properties that span
  these functions, among them that an update run against a consistent model of
  the DHT (entries stored at the address of their content, updates adding
  versions, reads giving the newest one) makes `has_agent_role`,
  `had_agent_role` at later times, the required-role validation and
  `get_agent_roles` say what was asked.
- `tests/` runs the library on concrete values.
- `app/` is the HDK side: it performs the DHT calls, converts HDK values to the
  library's types and back, and registers the entry types and zome functions.
