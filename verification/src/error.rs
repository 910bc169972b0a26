use vstd::prelude::*;

verus! {

/// Failure taxonomy of the translation pipeline.
///
/// Resolution phase: `SymbolNotFound` (no code symbol of the requested name;
/// also used when the container itself cannot be parsed, since such a
/// container resolves no symbol), `SizeUnknown` (the symbol carries no size
/// metadata), `SectionNotFound` (no section's address range contains the
/// symbol).
///
/// Decode phase: `InvalidEncoding` (bytes that do not form a valid
/// instruction within the remaining capacity, or a function too large for
/// the translator's machine limits).
///
/// Translation phase: `UnsupportedInstruction(address, mnemonic)` — the
/// first offending instruction in program order aborts the whole function.
///
/// Assembly phase: `EncodingFailure` — an internal invariant violation;
/// unreachable when translation succeeded.
#[derive(Clone, Copy, PartialEq, Eq, Structural, Debug)]
pub enum TranslateError {
    SymbolNotFound,
    SizeUnknown,
    SectionNotFound,
    InvalidEncoding,
    UnsupportedInstruction(u64, u32),
    EncodingFailure,
}

} // verus!
