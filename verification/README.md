# Snap Coin Miner

A miner for Snap Coin whose logic is verified with Verus.

- `src/` is the library: blocks and transactions, mining threads, jobs, the dashboard's state and
  texts, the command line, rewards. Its functions carry contracts, and the properties that span
  functions are stated as proof functions whose names start with `law_`.
- `src/outside.rs` holds what is taken on trust from other crates. Of a random number it claims
  nothing, and of the clock only in what range and form it answers.
- `app/` is the program around it: network, threads, terminal, floating point.
- `tests/` runs the library with the crates that it calls.

## Usage

The miner reads `miner.toml` in the running directory.

1. `--config <path>` reads another file.
2. `--pool` mines for a pool.
3. `--no-dataset` asks for mining without the full RandomX dataset.
4. `--no-full-pages` asks for mining without full pages.

The RandomX backend that is linked by default is written in Rust. It always keeps the full dataset
and has no page options, so the last two are read but change nothing.

```toml
[node]
address = "127.0.0.1:3003"

[miner]
public = "<your public wallet address>"

[threads]
count = -1
```

A count of -1 starts one thread per processor.
