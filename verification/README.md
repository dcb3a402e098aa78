# dsc_lib

The library behind Desired State Configuration: configuration documents and
their parameters, the order in which resources are invoked, the expression
functions, the comparison of desired and actual states, resource and
extension manifests, and the discovery of resources and adapters.

The library (`src/`) is written in Verus: each public function states what it
returns in its contract, and the laws that span several functions are proof
functions (for example the invocation order, which lists every resource once,
after those it depends on and otherwise in listing order; a state that shows no difference from itself; and
arrays of plain items that are the same exactly when one reorders the other).
Calls into `semver`, `base64`, `serde_json`, `jsonschema`, `regex`,
`linked_hash_map`, `path_absolutize` and `std` stand behind small trusted wrappers whose contracts
say what those crates' sources and documentation show.

- `src/json.rs`, `src/strings.rs`: the JSON value model and text helpers.
- `src/configure/`: configuration documents, constraints, the context,
  dependency order, parameters, and what a configuration run decides and keeps,
  with the get, set and test of each resource as steps.
- `src/functions/`: the expression functions and their dispatch.
- `src/dscresources/`: resources, their manifests, command invocation
  arguments and results, adapters, schema checks, and the set and test of a
  command resource as steps between commands.
- `src/extensions/`: extensions and their import and secret commands.
- `src/discovery/`: versions kept newest first, wildcard filters, lookup
  tables, the order of adapters, the steps of a discovery scan, PowerShell's
  listing and the search for required resources.
- `app/`: what touches the world: processes, files, the environment, JSON
  text, and `format()` through `rt_format`.
- `tests/`: tests of the library.
