# bios_basic

The basic library of BIOS: the RBUM (resource-based unified model) rules and the common
helpers, with their behaviour stated in contracts and proved by Verus.

- `src/` is the verified library: query conditions over JSON values and the database
  values they stand for, scopes and request
  contexts, the secret-attribute cipher, request signing and sorting of queries, real IP
  selection, the resource tree of sets (sorting, tree shaping, item placement and counts,
  system codes, level queries of categories and set items, paths), certificate and
  certificate-configuration checks and validation, relationship checks and queries and their evaluation (with SQL `LIKE`
  patterns), task status bits, module configurations and the enumerations.
- `tests/` runs the library on concrete values.
- `app/` is the service side: the process-wide configurations, serde forms of the
  configuration and request types, and conversions to and from JSON values, IP addresses,
  Tardis contexts and Tardis errors.
