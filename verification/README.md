# polyfont

Per-token font assignment for code editors: a `.polyfont.toml` maps
TextMate scopes to fonts, and the most specific matching rule decides the
font of each syntax token.

The library in `src/` is written in Verus, and Verus proves the contracts of
its functions.  A few small functions are trusted instead of proved: they
call `String::push`, `str::to_lowercase`, the `sha2` crate's SHA-256, the
`zip` crate's archive reader, and the `toml` and `serde_json` parsers for
the lock file and for VSCode themes; their contracts say what those calls
return, naming the results that take more than a few lines to state.  `FontScanner`'s
`with_discovery`, `is_available` and `available_families` carry no
contract: their answers come from a `FontDiscovery` that the caller
supplies; how an answer is read is stated by `availability_of` and
`families_of`.

- `engine`, `scope`, `scope_tree`: scope matching, specificity, rule
  resolution.
- `config`: the configuration file's content, validation, conversion to
  rules, and layering of several files.
- `fonts`, `download`: reading the listings of the platforms' font tools,
  the known font sources, download addresses, checksums and the lock file.
- `parse`, `lsp`: positions in documents, tokens from highlighter events,
  naive tokenization, the language server's state and the assignments it
  sends.
- `render`: SVG escaping, grouping tokens into lines, the bitmap font and
  the font metrics cache.
- `themes`: built-in themes, import from editor themes, export, and
  accessibility checks on font choices.
- `cli`: what the command-line tool prints, computed from a configuration.
- `text`, `names`, `name_map`: strings, name lists and name-keyed maps.

`app/` is the command-line tool and the language server around the
library: file and network access, running font tools, the configuration
files' TOML, JSON output, and the floating-point measurements of
rendering.
