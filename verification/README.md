# engine_query

Verified pieces of a GraphQL federation engine, written with Verus.

- `src/` is the verified library: the query text built for an execution plan
  (`query`), the decisions of an operation's execution and of a subscription
  (`coordinator`), the configuration (`config`), the schema ids (`ids`), the results
  of the key-value store's JSON accessors (`kv`) and the merge chains of the
  `MergedObject` derive (`merged_object`).
- `app/` holds what runs around it: serde and error-message types, the asynchronous
  key-value store, the asynchronous execution drivers and the derive's token output.
- `tests/` exercises the library on concrete inputs.
