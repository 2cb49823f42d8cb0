# MCPBytes Vault

A local vault for secrets. It generates 1 to 64 random bytes from the operating system's generator,
optionally mixes in an encrypted contribution of a pinned remote device, saves them in a private file or
in the platform's credential store, and hands out references, never the bytes.

The rules are a library verified with Verus, under `src/`. The program around it, under `app/`, does the
input and output and is ordinary Rust: Verus does not see it.

| Module | What it decides |
| --- | --- |
| `app` | one operation from its arguments to its receipt; listing, revealing, deleting |
| `journal` | records, versions, retries; interrupted operations are never generated again |
| `protocol`, `context` | how a secret is derived, and what it is bound to |
| `sealed`, `wire`, `kat` | sealed requests and envelopes, their JSON fields, a known-answer test |
| `storage`, `config`, `platform` | where secrets go, which files and folders are accepted |
| `remote`, `serve` | which replies count, when an attempt is repeated, how input is bounded |
| `install`, `cli`, `owner`, `table`, `calendar` | the owner's commands and what they print |
| `crypto`, `encoding`, `text` | primitives, encodings and text |

What is believed without proof is declared where it is used: the cryptographic primitives in `crypto`,
base64 in `encoding`, JSON in `context`, QR codes in `cli`, `Path::is_absolute` in `platform` and
`String::push` and `String::with_capacity` in `text`. Each declaration says what it claims of the outside function.

A secret is derived once for each operation. The caller performs every action that the library asks for
(read a record, send a request, write a file) and tells it how that went; the library decides what
follows. The program is local-only unless it is built with the `remote` feature. The laws that span several operations are public proof functions beside the types they speak of.
