# triodion

Verified core of an extractor of Ethereum data: which RPC requests a dataset
needs, and how their responses become columns. The library is written in
[Verus](https://github.com/verus-lang/verus); every function in `src/` is proved
against its contract, but for the wrappers of other crates named below.

## Modules

| module | what it holds |
| :- | :- |
| `rpc_params`, `filter`, `log` | parameters of a request, log filters and the logs they admit |
| `log_events` | one log request for several datasets, and the rows of each |
| `erc20_wrapper_events` | deposits and withdrawals of ERC-20 wrappers |
| `eth_calls`, `call_plan`, `batch_run`, `multicall` | calls, one by one or batched through Multicall3, with a fallback |
| `erc20_supplies` | total supplies of tokens |
| `collection`, `schema`, `datatypes`, `dim` | how responses become columns, and which are stored |
| `bytes`, `error`, `hash`, `seqs`, `signatures`, `text`, `u256` | shared values and facts |

Proof functions named `law_..` state what holds of several functions together:
that datasets collected together get the rows that they would have got alone,
that every planned call is made once, that a failing batch loses no row, and that
where every call has to succeed, a reverting one fails its whole batch.

What comes from other crates (ABI encoding, Keccak-256, snake case, fixed-width
words, 256-bit integers) is called through small functions marked
`external_body`; their doc comments say what is taken on trust.

`app/` holds the requests, tasks and dataframes around the core, and `tests/`
runs it.
