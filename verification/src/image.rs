//! What the scanner reads off a loaded image: its size, channel count and
//! pixel depth, and the names it gives them.

use vstd::prelude::*;

verus! {

/// Depth code of unsigned 8-bit samples.
pub const DEPTH_8U: i32 = 0;
/// Depth code of signed 8-bit samples.
pub const DEPTH_8S: i32 = 1;
/// Depth code of unsigned 16-bit samples.
pub const DEPTH_16U: i32 = 2;
/// Depth code of signed 16-bit samples.
pub const DEPTH_16S: i32 = 3;
/// Depth code of signed 32-bit samples.
pub const DEPTH_32S: i32 = 4;
/// Depth code of 32-bit floating-point samples.
pub const DEPTH_32F: i32 = 5;
/// Depth code of 64-bit floating-point samples.
pub const DEPTH_64F: i32 = 6;

/// An image side longer than this many pixels makes the later steps slow.
pub const LARGE_IMAGE_SIDE: i32 = 5000;

/// Size, channel count and depth code of an image.
#[derive(Clone, Copy, Debug, PartialEq, Eq, Structural)]
pub struct ImageInfo {
    pub width: i32,
    pub height: i32,
    pub channels: i32,
    pub depth: i32,
}

/// The name of a channel layout.
pub open spec fn channel_name_spec(channels: i32) -> Seq<char> {
    if channels == 1 {
        "gray"@
    } else if channels == 3 {
        "rgb"@
    } else if channels == 4 {
        "rgba"@
    } else {
        "unknown"@
    }
}

/// The name of a depth code.
pub open spec fn depth_name_spec(depth: i32) -> Seq<char> {
    if depth == DEPTH_8U {
        "8 bits"@
    } else if depth == DEPTH_8S {
        "8 bits (signed)"@
    } else if depth == DEPTH_16U {
        "16 bits"@
    } else if depth == DEPTH_16S {
        "16 bits (signed)"@
    } else if depth == DEPTH_32S {
        "32 bits (signed)"@
    } else if depth == DEPTH_32F {
        "floating (32)"@
    } else if depth == DEPTH_64F {
        "floating (64)"@
    } else {
        "unknown"@
    }
}

/// A depth code the scanner knows by name.
pub open spec fn known_depth(depth: i32) -> bool {
    DEPTH_8U <= depth <= DEPTH_64F
}

/// A depth code of signed integer samples.
pub open spec fn signed_depth(depth: i32) -> bool {
    depth == DEPTH_8S || depth == DEPTH_16S || depth == DEPTH_32S
}

/// The text holds the marker `(signed)` somewhere.
pub open spec fn has_signed_marker(s: Seq<char>) -> bool {
    exists|i: int| 0 <= i && i + 8 <= s.len() && #[trigger] s.subrange(i, i + 8) == "(signed)"@
}

proof fn lemma_no_signed_marker(s: Seq<char>)
    requires
        forall|j: int| 0 <= j < s.len() ==> s[j] != 'd',
    ensures
        !has_signed_marker(s),
{
    reveal_strlit("(signed)");
    if has_signed_marker(s) {
        let i = choose|i: int|
            0 <= i && i + 8 <= s.len() && #[trigger] s.subrange(i, i + 8) == "(signed)"@;
        assert(s.subrange(i, i + 8)[6] == 'd');
        assert(s[i + 6] == 'd');
    }
}

proof fn lemma_signed_marker_at_end(s: Seq<char>)
    requires
        s.len() >= 8,
        s.subrange(s.len() - 8, s.len() as int) == "(signed)"@,
    ensures
        has_signed_marker(s),
{
    let i = s.len() - 8;
    assert(0 <= i && i + 8 <= s.len() && s.subrange(i, i + 8) == "(signed)"@);
}

/// Distinct known depth codes get distinct names.
pub proof fn law_depth_names_distinct(d1: i32, d2: i32)
    requires
        known_depth(d1),
        known_depth(d2),
        d1 != d2,
    ensures
        depth_name_spec(d1) != depth_name_spec(d2),
{
    reveal_strlit("8 bits");
    reveal_strlit("8 bits (signed)");
    reveal_strlit("16 bits");
    reveal_strlit("16 bits (signed)");
    reveal_strlit("32 bits (signed)");
    reveal_strlit("floating (32)");
    reveal_strlit("floating (64)");
    reveal_strlit("(signed)");
    let s1 = depth_name_spec(d1);
    let s2 = depth_name_spec(d2);
    if s1.len() == s2.len() {
        assert(s1[0] != s2[0] || s1[10] != s2[10]);
    }
}

/// The name of a known depth code says `(signed)` exactly when its samples
/// are signed integers; unsigned 16-bit samples are named `16 bits`.
pub proof fn law_depth_names_signedness(depth: i32)
    requires
        known_depth(depth),
    ensures
        has_signed_marker(depth_name_spec(depth)) <==> signed_depth(depth),
        depth_name_spec(DEPTH_16U) == "16 bits"@,
{
    reveal_strlit("8 bits");
    reveal_strlit("8 bits (signed)");
    reveal_strlit("16 bits");
    reveal_strlit("16 bits (signed)");
    reveal_strlit("32 bits (signed)");
    reveal_strlit("floating (32)");
    reveal_strlit("floating (64)");
    reveal_strlit("(signed)");
    let s = depth_name_spec(depth);
    if signed_depth(depth) {
        assert(s.subrange(s.len() - 8, s.len() as int) =~= "(signed)"@);
        lemma_signed_marker_at_end(s);
    } else {
        assert(forall|j: int| 0 <= j < s.len() ==> s[j] != 'd');
        lemma_no_signed_marker(s);
    }
}

/// The layouts of one, three and four channels get names distinct from
/// each other and from the name of any other channel count.
pub proof fn law_channel_names_distinct(c1: i32, c2: i32)
    requires
        c1 == 1 || c1 == 3 || c1 == 4,
        c1 != c2,
    ensures
        channel_name_spec(c1) != channel_name_spec(c2),
{
    reveal_strlit("gray");
    reveal_strlit("rgb");
    reveal_strlit("rgba");
    reveal_strlit("unknown");
    let s1 = channel_name_spec(c1);
    let s2 = channel_name_spec(c2);
    if s1.len() == s2.len() {
        assert(s1[0] != s2[0]);
    }
}

/// Names a channel layout: 1 is gray, 3 rgb, 4 rgba, anything else unknown.
pub fn channel_name(channels: i32) -> (r: &'static str)
    ensures
        r@ == channel_name_spec(channels),
{
    if channels == 1 {
        "gray"
    } else if channels == 3 {
        "rgb"
    } else if channels == 4 {
        "rgba"
    } else {
        "unknown"
    }
}

/// Names a depth code by its sample size and kind.
pub fn depth_name(depth: i32) -> (r: &'static str)
    ensures
        r@ == depth_name_spec(depth),
{
    if depth == DEPTH_8U {
        "8 bits"
    } else if depth == DEPTH_8S {
        "8 bits (signed)"
    } else if depth == DEPTH_16U {
        "16 bits"
    } else if depth == DEPTH_16S {
        "16 bits (signed)"
    } else if depth == DEPTH_32S {
        "32 bits (signed)"
    } else if depth == DEPTH_32F {
        "floating (32)"
    } else if depth == DEPTH_64F {
        "floating (64)"
    } else {
        "unknown"
    }
}

/// An image is very big when its longer side exceeds `LARGE_IMAGE_SIDE`.
pub fn image_is_very_big(width: i32, height: i32) -> (r: bool)
    ensures
        r == (width > LARGE_IMAGE_SIDE || height > LARGE_IMAGE_SIDE),
{
    let longest = if width >= height { width } else { height };
    longest > LARGE_IMAGE_SIDE
}

} // verus!
