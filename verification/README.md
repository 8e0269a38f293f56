# mpc_rust

A verified library for joint purchasing by a sealed double auction. Each
company's bid (a threshold price and a quantity) becomes a quantity per band
of a fixed price grid; the bands are split into additive shares modulo the
Mersenne prime 2^31 - 1 and sent to three computing nodes; the nodes' sums are
recombined into demand and supply curves, which clear at the lowest price
where demand does not exceed supply. Volumes are allocated pro rata (zero for
a side whose total at the clearing price is zero); the five-party market
reports no result where the clearing band trades nothing, as when there is no
demand at all.

Modules under `src/`:

- `field`: integers modulo `M`, exponentiation, inverses, three-way sharing.
- `primality`: `M` is prime, and Fermat's little theorem, which make the
  field inverse an inverse.
- `node`: the per-node share sums.
- `auction`: bids as per-band quantities, clearing, allocation, and the full
  shared market (`clear_market`), whose result is proved to be the clearing of
  the plain bids whatever shares were drawn.
- `simulate`: rule-based traders that adapt their thresholds round by round.
- `agent`: company profiles, bid checks, settlement of a round, the retry
  decision for model-proposed bids, and locating the JSON in a model answer.
- `text`, `prompt`: the round history and the bidding prompts, specified
  character by character.
- `provenance`: the profile commitment and the public journal of a prompt
  recomputation.
- `scenario`: the companies of the multi-round observation.

`app/` holds the command-line programs: the networked nodes, participants and
coordinator, the language-model calls, the timing harness and the serde
copies of the library's types.
