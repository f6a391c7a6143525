# orcus_api

An HTTP/JSON API in front of one deployed Soroban contract.

An instance is given the hash of a contract's WASM module and the id of a contract
that runs it. It reads the contract's interface out of the custom section
`contractspecv0` of the module, and lets callers use the contract's functions over
HTTP: arguments are plain JSON, read by the types that the interface declares, and
return values are rendered as plain JSON.

## Layout

- `src/` is the library: everything that is decided or computed, with contracts that
  Verus proves.
  - `json`, `value`, `interface`, `transaction`: the data, and what it stands for in
    the contracts.
  - `scval`, `render`, `entries`: plain JSON to contract values and back.
  - `spec`, `spec_json`, `contract_source`: contract interfaces.
  - `txbuild`: building, assembling and signing the transaction of a call.
  - `rpc`, `probe`, `handlers`, `invoke`: requests to the network, which method a
    function is called by, and the course of a call. `invoke` is a state machine: it
    says what to ask the network next, and is handed the reply.
  - `config`, `state`, `table`, `error`, `text`, `order`: what the others share.
  - `xdr`, `xdr_types`, `xdr_tx`, `encoding`: the way to and from `stellar_xdr`,
    `stellar_strkey`, `hex` and the other crates. What is claimed of these crates
    without proof stands here, in `json` and in `text`, each claim with the name of
    the function that it is about.
  - `json_laws`, `scval_laws`, `round_trip`, `spec_laws`, `spec_json_laws`,
    `txbuild_laws`, `invoke_laws`, `answer_laws`: what holds of several functions together.
- `app/` is the server around it: the environment, HTTP in both directions, and the
  loop that does what `invoke` asks for.
- `tests/` runs the library with the crates that it calls.

## Environment

| Variable | Required | Meaning |
|---|---|---|
| `SOROBAN_RPC_URL` | yes | the RPC service |
| `SOROBAN_NETWORK_PASSPHRASE` | yes | the network that the service serves |
| `CONTRACT_WASM_HASH` | yes | the hash of the module, in hexadecimal |
| `CONTRACT_ID` | yes | the `C...` address of the contract |
| `BIND_ADDR` | no | where to listen, `0.0.0.0:8080` if not given |
| `REQUEST_TIMEOUT_SECS` | no | how long a request to the service may take, 30 if not given |

## Endpoints

- `GET /health`, `GET /network`, `GET /spec`, `GET /functions`
- `GET /api/{function}` for functions that take no arguments and write nothing,
  `POST /api/{function}` for all others, with the arguments as a JSON object.
  `X-Source-Account` names the account that calls. Without `X-Sign: true` the answer
  holds the transaction to sign; with it, and with `X-Secret-Key`, the transaction is
  signed and submitted.
