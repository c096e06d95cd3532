# tdx_formula

Parsing and checking of TDX-style stock indicator formulas such as

    M5 := MA(C, 5);
    MA10: MA(C, 10), COLORRED;
    SIGNAL: CROSS(M5, MA10);
    UP: IF(C > O, 1, 0);

The library under `src/` is verified with Verus:

- `lexer`, `token`, `chars`: the lexer, specified character by character
  (`spec_next_token`), with whitespace and `{ ... }` comments skipped, line and
  byte-based column numbers, and case-insensitive keywords.
- `decimal`: number literals as exact decimals.
- `ast`, `parser`, `diagnostics`: the syntax tree and a Pratt parser,
  specified by the grammar functions in `parser` (`spec_parse_formula`),
  including the text of every error message.
- `parser_laws`: how operators group (precedence, left associativity,
  prefix operators, parentheses), how statements start, and that lexed
  numbers always have a value.
- `lexer_laws`, `text_laws`, `formula_laws`: laws over whole texts: the
  tokens spell the input without whitespace and comments, each token's line
  and column, numbers read as far as they go, operators grouping in written
  text, and formulas joined after a `;` parsing as their statements joined.
- `builtins`, `plan`, `environment`, `windows`: what evaluation decides
  without arithmetic: which variables are bound, which built-in a call
  names and whether it has the right number of arguments (and the error
  otherwise), variable bindings, and the index arithmetic of the windowed
  series functions.

`app/` holds the `f64` side: the market data, the output lines and the
evaluator that runs the checked plans with floating-point arithmetic.
