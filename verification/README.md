# squirrel_lexer

A lexer for the Squirrel scripting language, verified with Verus.

- `src/token.rs`: tokens, positions and lexer errors.
- `src/text.rs`: byte offsets of chars in the UTF-8 encoding of the source,
  and slicing the source by them.
- `src/smol.rs`: the `smol_str::SmolStr` type that tokens carry their text in.
- `src/spec.rs`: the lexical grammar as spec functions over the source chars:
  what one call of the lexer yields (`step`) and what lexing the rest of the
  text yields (`lex_run`).
- `src/lexer.rs`: the lexer itself; `Lexer::next_token` and
  `Lexer::collect_any` are proved to yield exactly what `step` and `lex_run`
  state.
- `src/laws.rs`: properties of the grammar: every lexeme covers exactly the
  bytes of its chars, lexemes tile the text, the end-of-file token comes last
  and repeats, identifiers and comments hold their text.

Whitespace, newlines, block comments and verbatim strings are not supported
yet: the lexer's contracts exclude the texts that contain them at the start of
a lexeme.
