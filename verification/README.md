# base_core

Verified core of the Base node's precompiles and of the decisions around them, written in
Verus. Verus proves the functions of `src/` against their `requires`/`ensures` contracts.
Calls into outside crates (`alloy-primitives`, `alloy-sol-types`, `url`, `dirs`) and a few
message formatters sit behind small trusted wrappers, documented where they are declared;
a few of them, whose result depends on the environment or is a message that no contract
relies on, have no `ensures`.

Layout:

- `src/word.rs`, `src/primitives.rs`, `src/address.rs`: 256-bit words, addresses, hashes.
- `src/storage/`: contract storage as slots, mappings, packing of fields into slots, and the
  Solidity layouts of strings, fixed-size and dynamic arrays and enumerable sets, with
  read-after-write laws.
- `src/b20/`, `src/b403_registry/`, `src/b20_factory.rs`, `src/base_dex/`: the B20 token,
  the B403 policy registry, the token factory and the Base DEX; the token, the registry and
  the DEX come with their ABI dispatch.
- `src/abi.rs`, `src/dispatch.rs`: selectors, argument decoding, return and error encoding,
  revert decoding and hardfork selector schedules.
- `src/beryl.rs`, `src/bootstrap.rs`, `src/evm_factory.rs`: hardfork activation and the
  deployment of native tokens.
- `src/engine.rs`, `src/node.rs`, `src/disc_filter.rs`, `src/config.rs`: engine payload
  insertion, node shutdown decisions, the peer discovery policy and chain configuration.
- `app/`: the command-line entry point (arguments, environment, files, TOML loading).
- `tests/`: tests of the library on concrete values.
