# qasm

A quick x86 assembler/disassembler. Paste hex (raw digits, `0x..` lists, Rust or
C array declarations, string literals) and it is disassembled; type assembly and
it is encoded and printed in the chosen byte format.

- `src/` — the verified library (Verus): input classification and hex
  normalisation (`input::checks`, `input`), line-by-line disassembly and the
  attribution of assembled code to source lines (`input::disassmbler`,
  `input::assembler`), byte formatting (`output`), the interactive state and
  its key handling (`gui::app`), the worker's decisions and replies
  (`worker`), the calls into Capstone and `hex` (`engine`, `hexcodec`), and
  the laws that span functions (`laws`).
- `app/` — the program around it: command line, terminal interface, worker
  thread, file reading, and the Keystone assembler.
- `tests/` — tests of the library on concrete values.

Input is classified by `input::checks::identify_type`, the classifier that
understands the notations `format_bytes` produces (Rust and C array
declarations included) and that uses the same normalisation as the
disassembler; `input::identify_type` is the plainer classifier (only `0x` and
separators removed), kept and verified alongside it.
