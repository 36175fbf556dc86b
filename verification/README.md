# ccr

A proxy between clients of the Responses API and servers of the Chat Completions API. Requests are
converted one way, replies and streams the other way.

The library in `src/` is written in Verus: what each function returns and changes is stated in its
contract and proved.

| Module | What it holds |
| --- | --- |
| `config` | the settings, and the names that models have upstream |
| `converter` | the store of reasoning texts |
| `converter::request` | requests |
| `converter::response` | whole replies |
| `converter::stream` | streams: thinking sections, blocks of events, the end of a stream |
| `handler` | what is answered, when a stream is refused, how a stream is carried on and ended |
| `json` | JSON values, to and from text through `serde_json` |
| `log` | where the log goes |
| `text` | trimming, searching, joining, decimal numbers, lines |
| `types` | chat completions and responses, to and from JSON |
| `utf8_stream` | text out of bytes that arrive in pieces |

The modules `laws`, `pieces`, `thinking` and `cuts` state what holds across functions, as public
proof functions: that stored reasoning comes back with the next request, that events are numbered
and come in order, that the pieces of a text make up the text that ends them. It does not matter
where the bytes of a stream are cut, unless a cut falls inside of a character that directly follows
the end of a line: the two lines are then taken for one.

The calls into other crates stand behind small functions marked `external_body`, or carry an
`assume_specification`. The comment above each says what is taken for granted.

`app/` is the server around the library: settings file, log, HTTP. `tests/` runs the library.
