# ladder_launch

The verified core of a launchpad on Orca Whirlpools: buyers deposit a quote token and the
program pairs it with tokens from a fixed reserve into a concentrated position; exits follow
a seed-clawback rule, a minimum age and a per-minute cap.

- `src/` is the library, verified with Verus: the Whirlpool fixed-point math (`math`,
  `tick_math`, `wide`), the little-endian codecs (`le`), the launch and seat account layouts
  and the Whirlpool account readers (`state`), what the program hands to other programs
  (`cpi`: instruction data, and account lists with their writable and signer flags), and the
  checks, plans and state changes of each instruction (`instructions`). Laws that span
  several functions are public proof functions beside them.
- `tests/` runs the library on concrete values.
- `app/` is the Solana program around the library: the entrypoint, account borrows, sysvars
  and the invocations themselves.
