# farm_rewards

A staking farm for the share token of a vault: stakers deposit the share
token, vault managers add reward tokens that are emitted linearly until an
end time, and stakers claim their pro-rata share. The reward logic, the
account checks of every instruction, and the byte layout of the farm, staker
and vault accounts are verified with Verus.

- `src/state.rs` — farms, stakers, their mathematical models, and bringing
  rewards up to date.
- `src/instructions/` — for each instruction: the checks of its accounts and
  arguments, and its effect on the farm and staker state.
- `src/layout.rs`, `src/vault.rs`, `src/codec.rs` — account data: reading and
  writing farm and staker accounts, reading vault accounts.
- `src/seeds.rs` — the seeds and program of every program-derived address,
  their derivation through the runtime, and the check of a given key against it.
- `src/processor.rs` — the instruction tag.
- `src/laws.rs` — properties of the library as a whole: conservation of
  rewards, idempotence of updates, solvency of an emission, claims,
  round-trips of account data.
- `app/` — the on-chain entry point: reads accounts and the clock, and
  performs the token and system program calls.
