# escher

Verified core logic of a perpetual-futures clearing house, a tokenized options
protocol, an options pricing module and a time weighted average price helper,
written in Verus.

Layout of `src/`:

- `arith.rs`: signed fixed-point decimals (18 places) and checked, rounded
  multiplication and division; the calls into `sp-arithmetic` stand behind
  small trusted wrappers there.
- `swap_bytes.rs`: byte-order swapping of integers and the `Swapped` wrapper.
- `twap.rs`: a time weighted average price that is updated with new prices.
- `clearing_house/`: markets, margin accounts, trading against a virtual AMM,
  funding rates, settlement of closed markets and liquidations. The vAMM, the
  oracle and asset transfers are reached through the `Runtime` trait, by way
  of `Host`, which records every call, every read and every event; the
  contracts state what is asked of the runtime and what is done with each
  answer.
- `tokenized_options/`: asset vaults, options, the scheduler that moves options
  through their phases, writing, buying, exercising and withdrawing. The vault,
  assets and oracle are reached through the `OptionsRuntime` trait, by way of
  `OptionsHost`, which records every call and event.
- `origin.rs`: who dispatched a call, and the governance and protocol checks.
- `options_pricing.rs`: interest rate, snapshot frequency and price snapshots.

`tests/` exercises the library with mock runtimes.
