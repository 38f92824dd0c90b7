# dprint-plugin-arity

A [dprint](https://dprint.dev) plugin around the [arity](https://arity.cc)
formatter for the R language (`.R`), with its logic verified in
[Verus](https://github.com/verus-lang/verus).

The plugin holds no formatting logic of its own: layout is the business of the
`arity-formatter` crate. What the plugin adds is proved: how its configuration is
resolved and what is reported on it, how a requested range is checked and spliced
back into the file, and what is handed back to dprint.

## Configuration

Under the `arity` key in `dprint.json`:

| Key               | Values                         | Default                   |
| ----------------- | ------------------------------ | ------------------------- |
| `lineWidth`       | integer                        | dprint global, else `80`  |
| `indentWidth`     | integer                        | dprint global, else `2`   |
| `lineEnding`      | `auto`, `lf`, `crlf`, `native` | from global `newLineKind` |
| `roxygenMarkdown` | boolean                        | `false`                   |

Arity always indents with spaces, so dprint's global `useTabs` has no effect.

## Layout

- `src/` is the verified library. `src/handler.rs` is the plugin itself,
  `src/laws.rs` states what holds of it as a whole, and `src/engine.rs`,
  `src/settings.rs` and `src/text.rs` hold the contracts that are taken on trust:
  those of `arity-formatter`, `dprint-core` and the standard library.
- `tests/` runs the library with those crates.
- `app/` is the plugin as dprint loads it: dprint's handler trait, the serialized
  configuration with its JSON schema, and the guard against a panic of the
  engine.

## License

MIT
