# fanalyzer

A fund-research tool: net-value history, rankings, industry and stock
holdings, asset allocation and fund profiles from the EastMoney fund
services, as a verified library and a thin command line.

- `src/` is the library, written in Verus: every function states in its
  contract what it returns, and Verus proves it. It reads the services'
  answers (`js`, `f10`, `jbgk`, `managers`, `ranking`, `tables`,
  `eastmoney`, `json`), decides what to request next (`requests`), keeps the
  code/name cache (`cache`, `resolve`), orders and merges results
  (`sorting`, `navs`), holds the command-layer rules (`commands`,
  `config`, `report`) and the decisions of the batch commands and the
  comparison tables (`workflow`). Text is handled as sequences of characters
  (`text`, `numbers`, `dates`).
- Calls into regex, serde_json, chrono and std that the library makes stand
  behind a few trusted wrappers whose contracts name the call's result.
- `app/` is the command line: HTTP, files, JSON and TOML parsing into the
  library's types, floating-point arithmetic and printing.
- `tests/` exercises the library on concrete inputs.
