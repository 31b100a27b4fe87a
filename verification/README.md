# unibit

A simulator for a 256-bit register machine with post-quantum lattice,
vector, information-theory and tensor instructions, written in Verus.

`src/` is the verified library:

- `isa` — the register type, lane widths, the instruction set and the
  register names (with the proof that every name reads back as its register);
- `text`, `lex` — the numerals, trimming, splitting and integer parsing the
  assembler and the listings are stated over;
- `alu` — the scalar, vector, information and lattice units; `alu::lanes`
  proves that lane-wise subtraction undoes addition, `alu::transform` that
  the inverse transform undoes the forward one and the convolution theorem,
  and `alu::moduli` that the Kyber and Dilithium moduli satisfy their
  premises;
- `memory` — byte-addressed little-endian memory with bus and erasure
  counters;
- `binary` — the 16-byte instruction record and the object file format, with
  decode-after-encode, distinct opcodes and read-after-write proved;
- `assembler` — the two-pass assembler, specified line by line;
- `disasm` — listings and the control-flow report; `disasm::from_bytes`
  proves that listing an object file lists the program;
- `cpu` — the processor: one step per instruction, the branch predictor, the
  counters and the run loop. Floating-point instructions, output and the
  operating temperature are handed to the host as requests.

`app/` is the command line tool: it reads and writes files, serves the
processor's requests (including all floating-point arithmetic) and prints the
execution report. `tests/` exercises the library from outside.
