# bundle_sender

Sends transactions of a miner, either to a gateway of the network or as a tipped
bundle to a block engine, and follows them until they are confirmed.

The library under `src/` decides and computes; it is verified with Verus. The crate
under `app/` runs its sessions against the network.

| module | what it holds |
| --- | --- |
| `instruction` | instructions, the compute budget, the tip |
| `limits` | which instructions one keypair can sign as one transaction |
| `transaction` | compiling, signing and encoding a transaction |
| `miner` | the miner, its fee at a difficulty, the lists of instructions it sends |
| `double` | rounding to double precision on whole numbers, which the fee rests on |
| `balance` | the balance that a miner needs |
| `rpc` | requests to the block engine and its replies |
| `session`, `text` | what sessions share: reactions, failures, lines of text |
| `send`, `send_laws` | a session with the gateway, and what holds of every such session |
| `bundle`, `bundle_laws` | a session with the block engine, and what holds of every such session |

A session is a value. `Miner::send_and_confirm` and `Miner::send_and_confirm_jito`
begin one; `step` takes what happened and gives the session afterwards together with
what to show, how long to wait and what to do next.

Each function that calls into another crate is marked in the source as trusted, with
what is claimed of the call.
