# oxigraph_read

Reading RDF graphs (N-Triples, Turtle, RDF/XML) and datasets (N-Quads, TriG),
verified with Verus.

- `src/` is the verified library: the RDF model (`model`), statements as a
  syntax parser reports them (`raw`), the mapping of statements to the model with
  blank node labels scoped to a document (`mapper`), the parsers and the readers
  that decide what each iteration yields (`read`), base IRI validation (`iri`),
  errors (`error`) and properties of whole runs of a reader (`laws`).
- `app/` drives the syntax parsers of `rio_turtle` and `rio_xml` over a
  `BufRead` and hands each step's outcome to a reader, as an `Iterator`.
- `tests/` drives the readers the same way and checks them on documents.
