# challenge_pool

An escrow pool for friendly challenges, verified with Verus. Participants of a
challenge deposit USDC. Once everyone has deposited, the pot earns yield in a
treasury vault. An operator relays who won, and the winner is paid the pot less
a commission; if no result comes before the deadline, the pot is refunded in
equal shares.

- `src/` is the verified library: the rules (`logic`), the pool and its
  operations (`contract`), the record of a challenge (`challenge`), events, calls
  and pending operations (`host`), call data (`abi`), words, addresses and bytes.
- `src/laws/` states what holds of the pool as a whole: amounts, the invariant
  of every operation (`lifecycle`), when a challenge is open (`funding`), who
  writes its shares (`shares`), operations in a row (`runs`), operations that run
  while a call is being made (`interleaving`), and whole transactions one after
  the other (`history`).
- `app/` is the Stylus contract around the library: it keeps the pool in contract
  storage, logs its events and makes its calls.

An operation that calls another contract runs in steps. It checks its guards,
writes its effects and hands out the call; `ChallengePool::resume` goes on with
the answer. What the library takes on trust are the 256-bit arithmetic of
`alloy_primitives::U256` and the word encoding of `alloy_sol_types`; each such
function is marked `external_body`.
