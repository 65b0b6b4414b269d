# sipnab

The rules of a SIP and RTP capture tool, written in Verus: every function under
`src/` is proved to do what its contract says, for every input its contract
admits.

| Module | What it decides |
| --- | --- |
| `pipeline` | What a packet is; what SDP links; what ICMP errors say about calls and media; what port gates discard |
| `parallel` | Which worker a packet goes to; in which order files are released; how far readers may run ahead; what a run reports |
| `relay` | What a relay's text control protocol says |
| `process_isolation` | The worker process that answers scanners: framing, arguments, descriptors, limits, sends, and the ledger of what became of each request |
| `privilege` | Giving up privileges, step by step, and what a failed step means |
| `plugin` | Running sandboxed detections, judging their answers, and the document they are given |
| `provenance` | Which capture a reader holds, and whether it is still the same one |
| `rate_limit` | A fixed-window limiter with a cap per peer and one for all |
| `transmit` | Which runs may transmit |

`text`, `words`, `number`, `percent`, `bytes`, `net`, `sort`, `clock`, `packet`
and `channel` hold what these share.

Where a rule needs something that only the system or another crate can do, the
library says what to do next and takes the outcome as a value; `app/` performs
it. The few calls that the library makes itself (channels, the WebAssembly
engine, JSON, lossy text) stand behind small functions marked
`#[verifier::external_body]`, each with a comment that names the outside
function and what is believed of it.

The laws that hold across functions are public proof functions beside the code
they speak of, such as `pipeline::classify::asking_settles_every_packet`,
`parallel::cores::the_counts_do_not_depend_on_the_workers`,
`pipeline::history::the_report_adds_up_after_any_history` and
`process_isolation::wire::messages_read_back_in_order`.
