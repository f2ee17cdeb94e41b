# ARMx64

A block-based AArch64 to x86-64 just-in-time translator: AArch64 words are
decoded and lifted into a small IR, optimized, and emitted as x86-64-v2
machine code that runs against a guest register file and a guest address
space at a fixed host base.

## Layout

- `src/` is the library, verified with Verus:
  - `arch/`: AArch64 instruction words and their decoding (through
    `yaxpeax-arm`).
  - `ir/`: guest registers, operands, IR instructions and blocks.
  - `lift/`: lowering of decoded instructions to IR, and block formation.
  - `jit/`: the constant-folding optimizer, instruction selection, block
    hotness and the code-cache entry.
  - `codegen/`: the x86-64 emitter; every emitted byte is specified.
  - `runtime/`: the guest register file, the guest memory layout, block
    translation and the dispatcher's table of translated blocks and its
    run decisions.
  - `elf.rs`: ELF images (parsed through `object`), their guest layout and
    the writes that load them.
- `app/` is the host side: executable mappings, the fixed guest memory
  mapping, the background compiler thread, the native run loop of the
  dispatcher, file loading and the command-line entry point.
- `tests/` holds the tests.

## What is proved

Besides the contract of each function, the library proves, among others:

- the optimizer neither deletes nor reorders instruction slots and keeps
  every NZCV writer (`jit::optimizer`);
- it leaves the general registers x0..x30 with the same values as the
  original block, judged by an AArch64 semantics of its own, for blocks
  whose registers are x0..x30, SP or the zero register and whose ALU
  operations are as wide as the registers they read, as AArch64
  instructions are; it leaves memory accesses and branches unchanged, and
  an instruction that keeps its opcode reads the same operand values, so
  the flags, SP and memory it writes are the same;
- the optimizer's fold and simplification counters together count the
  slots whose opcode changed;
- each conditional-branch truth table holds exactly the flag values for
  which its AArch64 condition holds (`codegen::x86_64`);
- a hotness counter is hot for a threshold exactly when it was hit that
  often (`jit::hotness`);
- instruction selection keeps the flag bits and is idempotent
  (`jit::isel`);
- a lifted block stops right after its first exit (`lift::block`);
- emission only appends, and finished x86-64 code returns to the
  dispatcher (`codegen::x86_64`);
- every loaded segment lies inside the planned guest address space
  (`elf`).
