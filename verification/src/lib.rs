//! A verified bidirectional codec for the WebAssembly binary module format.
//!
//! The library decodes a byte buffer into a typed abstract syntax tree and
//! encodes any such tree back to bytes.  Every decoder's contract states
//! that the bytes it consumed are exactly the canonical encoding of the
//! value it returned, so re-encoding a decoded buffer reproduces it byte
//! for byte; unambiguity lemmas give the other direction, that decoding an
//! encoded value returns the value.
//!
//! Layout, leaves first: [`leb`] holds the LEB128 integer encodings;
//! [`codec`] the codec traits and the primitive and generic carriers;
//! [`types`] the leaf types of the syntax; [`instr`] the recursive
//! instruction grammar; [`module`] the sections and the module itself; and
//! [`grammar`] the grammar model the whole format is described by, with its
//! description-language parser and the discriminator check.

pub mod codec;
pub mod grammar;
pub mod instr;
pub mod leb;
pub mod module;
pub mod types;
