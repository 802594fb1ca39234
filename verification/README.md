# bs_nfts

Verified logic of the BitSong NFT contracts and of their deployment scripts.

- `src/msg.rs`: the collection's messages and the royalty payout of a sale
  (`CollectionInfoResponse::royalty_payout`), which computes the royalty with
  cosmwasm-std's `Uint128 * Decimal`, refuses sales whose fees exceed the
  price, and records the bank transfer and the `royalty-payout` event. The
  royalty is paid in the chain's native denomination, `ubtsg`; the crate that
  defines that constant for BitSong (`bs-std`) is not published, so the value
  is written here.
- `src/royalties.rs`: a contributor registry for the royalty contract, with
  a paginated contributors query and its laws (what a page lists, how the
  next page continues). Its rules are a reconstruction, not a copy of the
  royalty contract: the registry refuses two contributors with one address,
  lists contributors in order of address (as a storage map keyed by address
  would), and pages by 10 by default and by at most 30. The tests' default
  contributor (`owner0000`) is chosen by the tests.
- `src/deploy.rs`: the decisions of the deployment scripts: daemon settings,
  deployment identifiers, the IBC connection plan and its steps, the
  networks to deploy on and the socket address of a gRPC endpoint (parsed
  with reqwest's `Url`).
- `src/text.rs`: decimal formatting and the order of strings, with the
  lemmas that make it a strict total order.
- `app/`: the scripts themselves (cw-orch daemons, Abstract deployment,
  files, TCP), and the messages with their serde/schema derives. It needs
  cw-orch (with its `daemon` feature), cw-orch-interchain,
  abstract-interface and abstract-std, which are left out of `Cargo.toml`
  because together they exceed the number of packages this build allows,
  and the workspace crates `scripts`, `networks`, `bs721-accounts` and
  `btsg-account`, which are not published; so `app/` does not build here.
