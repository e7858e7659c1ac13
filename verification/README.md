# PERMAFROST

A perpetual vault for any fungible alkane token: a tontine. Deposits mint the
vault's share at the current rate, exits pay a tithe into the pot, and the pot
drips back to those who stay. No proxy, no admin, no protocol fee.

The library is written in Rust and verified with Verus: every handler is proved
against a mathematical state machine, and the promises of the vault are proved
of that machine.

## Mechanics

`L` is the vault's liquidity, `B` the pot, `S` the shares, `h0` the drip anchor;
the share rate is `(L - B) / S`. An instance fixes at its setup the tithe rate
`p`, the blocks per drip `I` and the release horizon `P` in drips.

```
release:  e = floor((h - h0) / I);  B <- B * ((P-1)/P)^e;  h0 <- h0 + I * e
deposit:  mint = floor(d * S / (L - B));  L <- L + d
exit:     w = floor(b * (L - B) / S);  t = ceil(p * w);  payout = w - t
          L <- L - payout;  B <- B + t
pot:      L <- L + d;  B <- B + d
boost:    L <- L + d, while someone stands
```

The release is the first step of every operation. While only the 1000 dead
shares of the first deposit stand, drips are consumed and the pot stays whole.

## Layout

- `src/vault.rs`: the vault and its handlers. `src/message.rs`: the calls and
  their opcodes. `src/parcel.rs`: ids, transfers, what goes in and out.
- `src/fixed.rs`: rounded quotients and the decay of the pot. `src/wide.rs`: the
  256-bit arithmetic under them, computed by `ruint`. `src/bytes.rs`: bytes and
  packed texts.
- `src/model.rs`: the state machine. `src/laws/`: what holds of it. The rate
  never falls through any history of calls, the books balance, every rounding
  goes against the caller, and going in and out again does not pay.
- `app/`: the host's storage, context and entry point around the library.
- `tests/`: the vault driven through its opcodes against an integer replica, the
  formulas value by value, and every reason to refuse a call.

What is taken on trust is named where it stands: the operators of `ruint` in
`src/wide.rs`, and `String::from_utf8` in `src/bytes.rs`.

## Sharp edges

- Underlying sent to the vault outside its calls is not credited and is lost.
- Shares are fungible and carry no per-position state.
- A call takes the first transfer of its token in a parcel as the amount and
  keeps every transfer of that token; other tokens come back.
