//! Reply styling: the four embed styles and the colour each one carries.

use vstd::prelude::*;

verus! {

/// Visual style of a reply embed.
pub enum EmbedStyle {
    /// Neutral informational reply.
    Info,
    /// A change was applied.
    Success,
    /// Something deserves attention.
    Warning,
    /// The request was rejected or failed.
    Error,
}

impl EmbedStyle {
    /// The 24-bit RGB colour shown for this style: blue, dark green,
    /// orange and red respectively.
    pub fn colour(&self) -> (r: u32)
        ensures
            r == (match self {
                EmbedStyle::Info => 0x3498DBu32,
                EmbedStyle::Success => 0x1F8B4Cu32,
                EmbedStyle::Warning => 0xE67E22u32,
                EmbedStyle::Error => 0xE74C3Cu32,
            }),
    {
        match self {
            EmbedStyle::Info => 0x3498DB,
            EmbedStyle::Success => 0x1F8B4C,
            EmbedStyle::Warning => 0xE67E22,
            EmbedStyle::Error => 0xE74C3C,
        }
    }
}

} // verus!
