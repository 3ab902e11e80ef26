# json_ld

A JSON-LD context processor written in Verus. Every function of the library
carries a contract that Verus proves: context processing, term definitions,
IRI expansion against an active context, and the data structures they work on.

Of compaction, the library holds IRI compaction for no particular value
(relative to the vocabulary or to the base IRI), value compaction, the
compaction of a node's types, the `@value` of value objects, the choice of
the nest entry of a property, and the adding of values to a compacted
object. It does not compact node objects or properties (which need IRI
compaction that depends on the value), and it does not flatten or convert
to RDF: it holds the value objects and language strings of expanded
documents and reads them from JSON, but not the node objects or node maps.

## Layout

- `src/` — the verified library.
  - `syntax`, `container`, `nullable`, `text`, `json` — keywords, container
    mappings, JSON values and string helpers.
  - `id`, `iri` — references and terms; IRI, blank node identifier and
    language tag checks, and IRI resolution (through `iref`, `rdf-types` and
    `langtag`).
  - `context` — the active context, term definitions, and their JSON form.
  - `processing`, `definition`, `local`, `process` — the context processing
    and term definition algorithms, stated as spec functions and proved of
    their executable versions, with the laws they obey.
  - `loader` — remote contexts, read from a store filled by the caller.
  - `generator` — blank node and UUID URN identifier generators (UUIDs come
    from `uuid`).
  - `lang_string`, `value`, `object` — language strings, value objects and
    the reading of expanded JSON.
  - `number` — whether a JSON number's text denotes 1.1 (for `@version`).
  - `compaction` — IRI compaction (term selection, vocabulary suffix,
    compact IRIs, relative IRIs), value compaction and type compaction.
  - `entries` — adding values to the entries of a compacted object.
  - `error`, `loc`, `multiset`, `namespace`, `profile` — errors and warnings,
    located values, bags, vocabulary indexes and document profiles.
- `tests/` — tests of the library on concrete values.
- `app/` — a command-line tool that reads a local context, loads the remote
  contexts it names from files, and prints the processed context.

## Checking

The library verifies with Verus; the tests run with `cargo test` against the
compiled library.
