//! A verified interpreter for a small fixed-format 16-bit instruction set.
//!
//! The machine owns a flat 4096-byte memory image, sixteen 8-bit registers, a
//! program counter, and a bounded call stack of sixteen return-address slots.
//! Instructions are two bytes, stored big-endian; the run loop fetches the
//! word at the program counter, decodes its fixed bit-fields, advances the
//! program counter by two, and dispatches.
//!
//! The supported opcode subset is: halt (`0x0000`), clear-screen as a no-op
//! (`0x00E0`), return (`0x00EE`), jump (`0x1nnn`), call (`0x2nnn`), the three
//! conditional skips (`0x3xkk`, `0x4xkk`, `0x5xy0`), load and add immediate
//! (`0x6xkk`, `0x7xkk`), and the register-register group (`0x8xy0` load,
//! `0x8xy1` or, `0x8xy2` and, `0x8xy3` xor, `0x8xy4` wrapping add). Any other
//! word is a fatal error that stops the loop and reports the word.
//!
//! The semantics are given once, as a small-step spec function over a
//! mathematical view of the machine ([`cpu::step`]); the run loop and every
//! instruction handler are proved against it.

pub mod cpu;
pub mod decode;
pub mod laws;
