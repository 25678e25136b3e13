# ascend_kas

The host side of a Kaspa Stratum miner for Huawei Ascend 910B NPUs, as a
Verus-verified library (`src/`) and the program around it (`app/`).

`src/` holds what the miner computes and decides:

- `keccak` — Keccak-f[1600], proved equal to the FIPS 202 step mappings.
- `pow` — the mining job, the nonce layout and the HeavyHash PoW value.
- `matrix` — xoshiro256++ and the candidate HeavyHash matrices it draws.
- `uint256`, `order`, `target` — 256-bit targets, their order, and the
  target of a difficulty from the bits of its `f32` reciprocal.
- `miner` — the job slot shared with the device loop, and the loop's
  decisions on each batch and on each nonce the device reports.
- `json`, `encoding`, `stratum` — the Stratum session: requests, replies,
  notifications, share accounting, extranonce layout.

`app/` holds the rest: the command line, the pool connection, JSON text,
the NPU kernel library, the device thread, and the two floating-point steps
(the reciprocal of the difficulty and the rank test of a candidate matrix).
