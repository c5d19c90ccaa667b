# crisp

A simple, embeddable lisp interpreter with first-class f-expressions
("vexes"): operatives that receive their arguments unevaluated, together
with the environment they were called from.

The library under `src/` is written in Verus; every function carries a
contract, and the contracts are proved.

## Layout

- `source`, `name`: source text, spans, symbols and names.
- `syntax`, `literal`: raw syntax and the literals read from it.
- `l1`, `machine`: compiling literals to the level 1 intermediate
  representations.
- `data`: the data the evaluator works on, frames, the store that holds
  them, and environments. A definition made through an environment is seen
  by every environment that shares its frame. A map holds each key once,
  keys compared by value; of pairs with equal keys, the last one stands.
  `equal_datum` compares data by contents, environments by what their
  frames hold, going at most a given number of frames deep.
- `evaluator`: the evaluator, with its meaning given by `eval_spec` and the
  functions beside it. Evaluation takes a fuel bound and fails with
  `Exhausted` when it runs out.
- `builtin`: integer arithmetic.
- `heap`, `bindings`, `lexicals`, `module`, `env`, `crisp`, `stack`,
  `list`, `expr`, `vm`, `map`, `errors`: handles into heaps, lexical scopes,
  modules and crisplets.
- `parser`: reading delimited groups of items.

`app/` holds what stays outside the verified library: the heap managed by
the comet garbage collector, the machine state that owns it, the `crispr!`
macro, and reading source paths.
