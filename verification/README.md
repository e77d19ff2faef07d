# brumby_soccer

Soccer offer pricing: the offer types and outcomes of a soccer match, the
checks an offer must pass, the queries that decide which simulated match
states an outcome covers, the merging of one interval of a match into a
match state, and the checks and planning that come before an offer or a
multi is priced. The library is written in Verus; every function in `src/`
carries a contract that Verus proves.

Layout:

- `src/domain.rs` – scores, handicaps, offer types, outcomes, players.
- `src/lookup.rs` – `HashLookup`, an ordered collection of distinct keys.
- `src/validation.rs` – offer alignment, intactness, matching and
  completeness checks; offer type and outcome validation.
- `src/interval.rs` – expansions, match states (prospects) and the merge of
  one interval into a prospect.
- `src/query.rs` – the expansions each offer type needs, and the queries and
  filters that decide whether an outcome holds in a prospect.
- `src/model.rs` – model configuration, error types, the checks made of
  selections and stubs, and the plans for deriving offers and multis.
- `src/data.rs` – how a provider's markets become offers.
- `src/cache.rs`, `src/cf.rs`, `src/fit.rs` – cache statistics, racing
  regression factors, fitting error kinds.
- `src/text.rs` – the rendering of domain values in messages.
- `src/laws.rs` – properties that span several functions, proved.
- `app/` – what works with floating-point probabilities and prices, the
  data feed download, and the caching of explorations.
- `tests/` – tests of the library.
