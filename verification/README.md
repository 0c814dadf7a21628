# ratatat

A parser-combinator library over byte input, written in Verus. Every parser states, as a
contract, which outcomes a run may have: the result and where the cursor ends.

## Layout

- `src/context.rs`: `Context` (the input a parse runs on), the `Parser` trait with its
  `accepts` predicate, `ParserExt` (running and combining parsers) and `Generator`.
- `src/input.rs`: `Shared`, a reference-counted byte buffer.
- `src/parsers/`: the parsers and combinators: literals (`char`, `&str`, `bool`), tuples and
  `Alt`, slices and arrays, `Many`, `Sep`, `And`, `Not`, `Opt`, `Mapped`, `Filter`,
  `FilterMap`, `Then`, `Recognize`, `Named`, character ranges, any character (lossy UTF-8),
  digits and numbers (`num::BigInt` and the primitive integers), quoted strings with escapes,
  and `Memo`.
- `src/kdl.rs`: KDL strings (quoted and raw) and identifiers, built from the combinators.
- `src/tracing.rs`: a tracer that records nested parser runs.
- `src/laws.rs`, `src/number_laws.rs`: properties of the parsers, proved.
- `tests/`: tests on concrete inputs.
- `app/`: KDL values, arguments and nodes. A value may be a float, which the verified library
  does not hold, so these are read outside it, with the library's parsers; numbers are read as
  integers of any size and converted to floats.

## What the library does not do

- A `Context` keeps no cache of parsers: `ctx.parser::<G>()` and `ctx.parse::<G>(..)` make a
  new parser on every call. A generator's parser is therefore made again for each such call,
  and a `Memo` parser remembers runs only as long as the parser value is kept: hold it
  (`let memo = ctx.parser::<Memo<G>>();`) and run it repeatedly. Through `ctx.parse::<Memo<G>>`
  each call starts with an empty table.
- `parse` does not record traces. The `Tracer` records nested runs when `enter` and `exit` are
  called on it.
- Results are copies, not spans of the input: `Recognize` yields a `Vec<u8>`, and a `&str`
  pattern yields itself.
- There is no parser for `Weak`, `RangeFrom`, `RangeTo` or `RangeToInclusive`, no
  `Shared::map`, and no equality on `Shared`.
- `Many::new` reads the bounds of its range through `RangeBounds`; a bound whose count cannot be
  written (a start after `usize::MAX`, an end that includes it) counts as `usize::MAX`.
  `Many::from_bounds` takes the bounds as values and states the counts exactly.
- A separated list whose round consumes nothing stops after that round.
- A `Memo` parser remembers runs for the input it was made for; run on another input, it runs
  its inner parser afresh and keeps nothing.
- An exhausted `RangeInclusive` parses as its `contains` says: the end no longer counts.

## Using it

```rust
let input = Shared::new(Rc::new(b"hello world".to_vec()));
let ctx = Context::new(&input);
let mut pos = 0;
assert_eq!(Some("hello"), "hello".run(&ctx, ctx.bytes().len(), &mut pos));
assert_eq!(5, pos);
```
