# analysis

Parsing and classification of the logs of a trading application, verified with Verus.

A log line looks like

    App::Journal DeleteUser {"user_id": "Steeve",} requestid=7

and is read by a parser built from small combinators (`tag`, `strip_whitespace`,
`delimited`, `permutation2`, `list`, `alt8`, ...). Every parser states, through
`Parser::spec_parse`, what it reads from a text at a position; each combinator is
proved to compute exactly what its specification says, so the parser of a whole
line is proved against the grammar written by its combinator tree.

Journal entries are checked against the minimum amounts of the data model: a user
is created with at least 10 usd of capital, an asset is registered with at least
50 usd of liquidity; lower amounts are refused with `CapitalTooLow` and
`LiquidityTooLow`.

Layout:

- `src/text.rs` — the characters of the input, Unicode whitespace, digits.
- `src/error.rs` — parsing errors.
- `src/domain.rs`, `src/bucket.rs` — users, assets, amounts.
- `src/log.rs` — log lines and their kinds; which lines are errors or exchanges.
- `src/parse.rs` — the `Parser`, `Mapping` and `Parsable` traits.
- `src/parse/stdp.rs` — non-zero integers and hexadecimal bytes.
- `src/parse/quoting.rs` — quoted strings, fixed texts, identifiers.
- `src/parse/combinators.rs` — the combinators, and their laws.
- `src/parse/grammar.rs` — the parser of each log type.
- `src/parse/locality.rs` — every parser reads only what follows its position, so
  it reads the same inside a longer text as on the rest of that text alone.
- `app/` — the command line: reads a file and prints the parsed lines.
