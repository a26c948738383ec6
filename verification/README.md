# basalt

Analyzer and policy generator for LavaMoat, verified with Verus.

The library (`src/`) holds the decisions of the analysis, each with a
contract that Verus proves:

- `ast`: the part of a JavaScript module's syntax tree the analysis reads.
- `analysis`: the lexical scopes and globals of a module (`block_scope`),
  the access to builtin packages (`builtin`, `builtins`), the
  classification of import specifiers (`dependencies`), the imports,
  exports and live exports of a module (`imports`, `exports`,
  `live_exports`), and the statements and expressions a visitor reaches
  (`reach`, `roots`).
- `policy`: the policy types and their merge laws, the scope builder and
  global analysis of a module, and the policy builder.
- `module`: the package base directory of a module and the walk of a
  module graph.
- `static_module_record`: the static module record of a module, its parser
  and analyzer, and the transform of a module into its functor program
  (`transform`): the module's items become the body of an arrow function
  that receives the `imports`, `liveVar` and `onceVar` hooks.
- `source`: the call into `swc_ecma_parser` that turns source text into the
  library's syntax tree, behind a trusted wrapper.  The conversion from the
  parser's tree into the library's is part of that wrapper and is not
  verified: it maps each node one for one, keeps methods, getters, setters,
  computed keys, static blocks and the expressions inside JSX, turns a
  dynamic `import(...)` callee into the identifier `import`, and turns the
  rest of what the analyses never read (TypeScript syntax among it) into
  `Other`.
- `collections`: the `indexmap` sets and maps, behind trusted wrappers.
- `text`: character-level helpers on strings, and the order of strings
  that keeps policy maps sorted by key.

The command line (`app/`) reads files, resolves modules and prints
results.  `debug transform` prints the functor program as its syntax tree
(with `-j`, next to the record as JSON), since no JavaScript printer is
available to it.
