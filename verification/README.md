# wisp

A small Lisp machine: a tagged-word CPU, its memory bus with RAM and ROM
devices, an assembler that turns boot source text into ROM sections, and a
text framebuffer. The library in `src/` is written in Verus; every executable
function there carries a contract that Verus proves.

## Layout

- `src/memory.rs`: addresses and offsets.
- `src/ram.rs`, `src/rom.rs`: byte-addressed storage devices.
- `src/bus.rs`: the memory bus, its mapping of address ranges to devices, and
  the laws that a read gives back what a write wrote and that writes to ROM or
  unmapped addresses change nothing.
- `src/cpu/`: the tagged Lisp word, register file, instruction set with its
  two-word encoding (`encoding.rs`, with the encode/decode round trip), and the
  machine that fetches, decodes and executes (`machine.rs`).
- `src/cpu/assembler/`: tokenizer, parser (against a grammar written as spec
  functions), layout of sections and symbols, resolution of references, and
  emission of section bytes; `text.rs` gives its errors with names as text, for
  reports.
- `src/machine.rs`: firmware built from boot source, and the whole machine
  (CPU plus bus with RAM, video RAM, keyboard page and ROM).
- `src/wordcpu.rs`: the earlier word-addressed CPU with its own instruction
  encoding and word memory.
- `src/gpu.rs`: pixel and glyph drawing into an RGB framebuffer.
- `tests/`: scenario tests run against the compiled library.
- `app/`: the SDL2/OpenGL window, input loop and shader plumbing around the
  library.
