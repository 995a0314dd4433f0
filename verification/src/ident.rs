use vstd::prelude::*;

verus! {

use vstd::string::StringExecFns;
use crate::text::hex_pad;
use crate::text::hex_pad_chars;

/// A 128-bit identifier in its canonical 36-character lowercase hyphenated
/// hexadecimal form: digit groups of 8, 4, 4, 4 and 12.
pub open spec fn identifier_chars(u: u128) -> Seq<char> {
    hex_pad_chars(u as int / 0x1000000000000000000000000, 8) + "-"@ + hex_pad_chars(
        (u as int / 0x100000000000000000000) % 0x10000,
        4,
    ) + "-"@ + hex_pad_chars((u as int / 0x10000000000000000) % 0x10000, 4) + "-"@ + hex_pad_chars(
        (u as int / 0x1000000000000) % 0x10000,
        4,
    ) + "-"@ + hex_pad_chars(u as int % 0x1000000000000, 12)
}

/// Renders a 128-bit identifier in its canonical hyphenated form.
pub fn format_identifier(u: u128) -> (r: String)
    ensures
        r@ == identifier_chars(u),
{
    let mut out = hex_pad(u / 0x1000000000000000000000000, 8);
    out.append("-");
    out.append(hex_pad((u / 0x100000000000000000000) % 0x10000, 4).as_str());
    out.append("-");
    out.append(hex_pad((u / 0x10000000000000000) % 0x10000, 4).as_str());
    out.append("-");
    out.append(hex_pad((u / 0x1000000000000) % 0x10000, 4).as_str());
    out.append("-");
    out.append(hex_pad(u % 0x1000000000000, 12).as_str());
    proof {
        assert(out@ =~= identifier_chars(u));
    }
    out
}

/// Rendering an identifier is a function of its 128 bits alone: two equal
/// identifiers always render to the same text.
pub proof fn lemma_identifier_deterministic(u1: u128, u2: u128)
    requires
        u1 == u2,
    ensures
        identifier_chars(u1) == identifier_chars(u2),
{
}

} // verus!
