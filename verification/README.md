# cpmm

Constant-product market maker quotes and the decisions of the pool program built
on them, written in Verus and proved against a mathematical model.

- `src/` — the verified library. `model.rs` states each quote over unbounded
  integers; `pool.rs` computes it with checked 64/128-bit arithmetic and is
  proved equal to the model; `laws.rs` and `plan_laws.rs` prove properties that
  hold for every input (the curve's `k` never drops, deposits never take more
  than offered, deposit-then-withdraw returns the deposit, withdraws only follow
  a matching burn, ...). `program.rs` holds the instructions' checks and the
  token transfers they make, on plain values (addresses as 32 bytes).
- `tests/` — worked examples and scenarios, run against the compiled library.
- `app/` — the Anchor program: accounts, handlers and token CPIs around the
  library.
