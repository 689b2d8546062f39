# switch_query

Looks for command-line switch declarations (`const char kFoo[] = "foo";` inside a
`switches` namespace, possibly under `#if`) in a C++ code base with a tree-sitter
query, and compares the matches of a query evaluated with and without subtree skipping.

- `src/` is the verified library: capture lookup by name and by index (`capture`),
  pairing of the matches of the two evaluations (`compare`), reading switch
  declarations out of matches (`switches`) and the choice of the commit (`commit`).
  Matches are handed to it as plain values: capture index, node and parent node.
- `app/main.rs` is the command-line driver: it processes the repository, parses C++,
  runs the query engine, turns its matches into the library's plain values and prints
  what the library reports.
