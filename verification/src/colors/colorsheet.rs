//! The palette: the 256 named terminal colours and their RGB values, and
//! the searches over it (by name, and by nearest RGB value).
use vstd::prelude::*;

use crate::text::{chars_equal_str, starts_with, to_chars};

verus! {

/// The palette, in terminal colour-index order: each colour's markup name
/// and its `0xRRGGBB` value.
pub open spec fn color_table() -> Seq<(&'static str, u32)> {
    seq![
        ("black", 0x000000u32),
        ("maroon", 0x800000u32),
        ("green", 0x008000u32),
        ("olive", 0x808000u32),
        ("navy", 0x000080u32),
        ("purple", 0x800080u32),
        ("teal", 0x008080u32),
        ("silver", 0xc0c0c0u32),
        ("grey", 0x808080u32),
        ("red", 0xff0000u32),
        ("lime", 0x00ff00u32),
        ("yellow", 0xffff00u32),
        ("blue", 0x0000ffu32),
        ("fuchsia", 0xff00ffu32),
        ("aqua", 0x00ffffu32),
        ("white", 0xffffffu32),
        ("grey0", 0x000000u32),
        ("navyblue", 0x00005fu32),
        ("darkblue", 0x000087u32),
        ("blue3", 0x0000afu32),
        ("blue3_1", 0x0000d7u32),
        ("blue1", 0x0000ffu32),
        ("darkgreen", 0x005f00u32),
        ("deepskyblue4", 0x005f5fu32),
        ("deepskyblue4_1", 0x005f87u32),
        ("deepskyblue4_2", 0x005fafu32),
        ("dodgerblue3", 0x005fd7u32),
        ("dodgerblue2", 0x005fffu32),
        ("green4", 0x008700u32),
        ("springgreen4", 0x00875fu32),
        ("turquoise4", 0x008787u32),
        ("deepskyblue3", 0x0087afu32),
        ("deepskyblue3_1", 0x0087d7u32),
        ("dodgerblue1", 0x0087ffu32),
        ("green3", 0x00af00u32),
        ("springgreen3", 0x00af5fu32),
        ("darkcyan", 0x00af87u32),
        ("lightseagreen", 0x00afafu32),
        ("deepskyblue2", 0x00afd7u32),
        ("deepskyblue1", 0x00afffu32),
        ("green3_1", 0x00d700u32),
        ("springgreen3_1", 0x00d75fu32),
        ("springgreen2", 0x00d787u32),
        ("cyan3", 0x00d7afu32),
        ("darkturquoise", 0x00d7d7u32),
        ("turquoise2", 0x00d7ffu32),
        ("green1", 0x00ff00u32),
        ("springgreen2_1", 0x00ff5fu32),
        ("springgreen1", 0x00ff87u32),
        ("mediumspringgreen", 0x00ffafu32),
        ("cyan2", 0x00ffd7u32),
        ("cyan1", 0x00ffffu32),
        ("darkred", 0x5f0000u32),
        ("deeppink4", 0x5f005fu32),
        ("purple4", 0x5f0087u32),
        ("purple4_1", 0x5f00afu32),
        ("purple3", 0x5f00d7u32),
        ("blueviolet", 0x5f00ffu32),
        ("orange4", 0x5f5f00u32),
        ("grey37", 0x5f5f5fu32),
        ("mediumpurple4", 0x5f5f87u32),
        ("slateblue3", 0x5f5fafu32),
        ("slateblue3_1", 0x5f5fd7u32),
        ("royalblue1", 0x5f5fffu32),
        ("chartreuse4", 0x5f8700u32),
        ("darkseagreen4", 0x5f875fu32),
        ("paleturquoise4", 0x5f8787u32),
        ("steelblue", 0x5f87afu32),
        ("steelblue3", 0x5f87d7u32),
        ("cornflowerblue", 0x5f87ffu32),
        ("chartreuse3", 0x5faf00u32),
        ("darkseagreen4_1", 0x5faf5fu32),
        ("cadetblue", 0x5faf87u32),
        ("cadetblue_1", 0x5fafafu32),
        ("skyblue3", 0x5fafd7u32),
        ("steelblue1", 0x5fafffu32),
        ("chartreuse3_1", 0x5fd700u32),
        ("palegreen3", 0x5fd75fu32),
        ("seagreen3", 0x5fd787u32),
        ("aquamarine3", 0x5fd7afu32),
        ("mediumturquoise", 0x5fd7d7u32),
        ("steelblue1_1", 0x5fd7ffu32),
        ("chartreuse2", 0x5fff00u32),
        ("seagreen2", 0x5fff5fu32),
        ("seagreen1", 0x5fff87u32),
        ("seagreen1_1", 0x5fffafu32),
        ("aquamarine1", 0x5fffd7u32),
        ("darkslategray2", 0x5fffffu32),
        ("darkred_1", 0x870000u32),
        ("deeppink4_1", 0x87005fu32),
        ("darkmagenta", 0x870087u32),
        ("darkmagenta_1", 0x8700afu32),
        ("darkviolet", 0x8700d7u32),
        ("purple_1", 0x8700ffu32),
        ("orange4_1", 0x875f00u32),
        ("lightpink4", 0x875f5fu32),
        ("plum4", 0x875f87u32),
        ("mediumpurple3", 0x875fafu32),
        ("mediumpurple3_1", 0x875fd7u32),
        ("slateblue1", 0x875fffu32),
        ("yellow4", 0x878700u32),
        ("wheat4", 0x87875fu32),
        ("grey53", 0x878787u32),
        ("lightslategrey", 0x8787afu32),
        ("mediumpurple", 0x8787d7u32),
        ("lightslateblue", 0x8787ffu32),
        ("yellow4_1", 0x87af00u32),
        ("darkolivegreen3", 0x87af5fu32),
        ("darkseagreen", 0x87af87u32),
        ("lightskyblue3", 0x87afafu32),
        ("lightskyblue3_1", 0x87afd7u32),
        ("skyblue2", 0x87afffu32),
        ("chartreuse2_1", 0x87d700u32),
        ("darkolivegreen3_1", 0x87d75fu32),
        ("palegreen3_1", 0x87d787u32),
        ("darkseagreen3", 0x87d7afu32),
        ("darkslategray3", 0x87d7d7u32),
        ("skyblue1", 0x87d7ffu32),
        ("chartreuse1", 0x87ff00u32),
        ("lightgreen", 0x87ff5fu32),
        ("lightgreen_1", 0x87ff87u32),
        ("palegreen1", 0x87ffafu32),
        ("aquamarine1_1", 0x87ffd7u32),
        ("darkslategray1", 0x87ffffu32),
        ("red3", 0xaf0000u32),
        ("deeppink4_2", 0xaf005fu32),
        ("mediumvioletred", 0xaf0087u32),
        ("magenta3", 0xaf00afu32),
        ("darkviolet_1", 0xaf00d7u32),
        ("purple_2", 0xaf00ffu32),
        ("darkorange3", 0xaf5f00u32),
        ("indianred", 0xaf5f5fu32),
        ("hotpink3", 0xaf5f87u32),
        ("mediumorchid3", 0xaf5fafu32),
        ("mediumorchid", 0xaf5fd7u32),
        ("mediumpurple2", 0xaf5fffu32),
        ("darkgoldenrod", 0xaf8700u32),
        ("lightsalmon3", 0xaf875fu32),
        ("rosybrown", 0xaf8787u32),
        ("grey63", 0xaf87afu32),
        ("mediumpurple2_1", 0xaf87d7u32),
        ("mediumpurple1", 0xaf87ffu32),
        ("gold3", 0xafaf00u32),
        ("darkkhaki", 0xafaf5fu32),
        ("navajowhite3", 0xafaf87u32),
        ("grey69", 0xafafafu32),
        ("lightsteelblue3", 0xafafd7u32),
        ("lightsteelblue", 0xafafffu32),
        ("yellow3", 0xafd700u32),
        ("darkolivegreen3_2", 0xafd75fu32),
        ("darkseagreen3_1", 0xafd787u32),
        ("darkseagreen2", 0xafd7afu32),
        ("lightcyan3", 0xafd7d7u32),
        ("lightskyblue1", 0xafd7ffu32),
        ("greenyellow", 0xafff00u32),
        ("darkolivegreen2", 0xafff5fu32),
        ("palegreen1_1", 0xafff87u32),
        ("darkseagreen2_1", 0xafffafu32),
        ("darkseagreen1", 0xafffd7u32),
        ("paleturquoise1", 0xafffffu32),
        ("red3_1", 0xd70000u32),
        ("deeppink3", 0xd7005fu32),
        ("deeppink3_1", 0xd70087u32),
        ("magenta3_1", 0xd700afu32),
        ("magenta3_2", 0xd700d7u32),
        ("magenta2", 0xd700ffu32),
        ("darkorange3_1", 0xd75f00u32),
        ("indianred_1", 0xd75f5fu32),
        ("hotpink3_1", 0xd75f87u32),
        ("hotpink2", 0xd75fafu32),
        ("orchid", 0xd75fd7u32),
        ("mediumorchid1", 0xd75fffu32),
        ("orange3", 0xd78700u32),
        ("lightsalmon3_1", 0xd7875fu32),
        ("lightpink3", 0xd78787u32),
        ("pink3", 0xd787afu32),
        ("plum3", 0xd787d7u32),
        ("violet", 0xd787ffu32),
        ("gold3_1", 0xd7af00u32),
        ("lightgoldenrod3", 0xd7af5fu32),
        ("tan", 0xd7af87u32),
        ("mistyrose3", 0xd7afafu32),
        ("thistle3", 0xd7afd7u32),
        ("plum2", 0xd7afffu32),
        ("yellow3_1", 0xd7d700u32),
        ("khaki3", 0xd7d75fu32),
        ("lightgoldenrod2", 0xd7d787u32),
        ("lightyellow3", 0xd7d7afu32),
        ("grey84", 0xd7d7d7u32),
        ("lightsteelblue1", 0xd7d7ffu32),
        ("yellow2", 0xd7ff00u32),
        ("darkolivegreen1", 0xd7ff5fu32),
        ("darkolivegreen1_1", 0xd7ff87u32),
        ("darkseagreen1_1", 0xd7ffafu32),
        ("honeydew2", 0xd7ffd7u32),
        ("lightcyan1", 0xd7ffffu32),
        ("red1", 0xff0000u32),
        ("deeppink2", 0xff005fu32),
        ("deeppink1", 0xff0087u32),
        ("deeppink1_1", 0xff00afu32),
        ("magenta2_1", 0xff00d7u32),
        ("magenta1", 0xff00ffu32),
        ("orangered1", 0xff5f00u32),
        ("indianred1", 0xff5f5fu32),
        ("indianred1_1", 0xff5f87u32),
        ("hotpink", 0xff5fafu32),
        ("hotpink_1", 0xff5fd7u32),
        ("mediumorchid1_1", 0xff5fffu32),
        ("darkorange", 0xff8700u32),
        ("salmon1", 0xff875fu32),
        ("lightcoral", 0xff8787u32),
        ("palevioletred1", 0xff87afu32),
        ("orchid2", 0xff87d7u32),
        ("orchid1", 0xff87ffu32),
        ("orange1", 0xffaf00u32),
        ("sandybrown", 0xffaf5fu32),
        ("lightsalmon1", 0xffaf87u32),
        ("lightpink1", 0xffafafu32),
        ("pink1", 0xffafd7u32),
        ("plum1", 0xffafffu32),
        ("gold1", 0xffd700u32),
        ("lightgoldenrod2_1", 0xffd75fu32),
        ("lightgoldenrod2_2", 0xffd787u32),
        ("navajowhite1", 0xffd7afu32),
        ("mistyrose1", 0xffd7d7u32),
        ("thistle1", 0xffd7ffu32),
        ("yellow1", 0xffff00u32),
        ("lightgoldenrod1", 0xffff5fu32),
        ("khaki1", 0xffff87u32),
        ("wheat1", 0xffffafu32),
        ("cornsilk1", 0xffffd7u32),
        ("grey100", 0xffffffu32),
        ("grey3", 0x080808u32),
        ("grey7", 0x121212u32),
        ("grey11", 0x1c1c1cu32),
        ("grey15", 0x262626u32),
        ("grey19", 0x303030u32),
        ("grey23", 0x3a3a3au32),
        ("grey27", 0x444444u32),
        ("grey30", 0x4e4e4eu32),
        ("grey35", 0x585858u32),
        ("grey39", 0x626262u32),
        ("grey42", 0x6c6c6cu32),
        ("grey46", 0x767676u32),
        ("grey50", 0x808080u32),
        ("grey54", 0x8a8a8au32),
        ("grey58", 0x949494u32),
        ("grey62", 0x9e9e9eu32),
        ("grey66", 0xa8a8a8u32),
        ("grey70", 0xb2b2b2u32),
        ("grey74", 0xbcbcbcu32),
        ("grey78", 0xc6c6c6u32),
        ("grey82", 0xd0d0d0u32),
        ("grey85", 0xdadadau32),
        ("grey89", 0xe4e4e4u32),
        ("grey93", 0xeeeeeeu32),
    ]
}

/// The palette as a vector.
pub fn colors() -> (v: Vec<(&'static str, u32)>)
    ensures
        v@ == color_table(),
{
    let v = vec![
        ("black", 0x000000u32),
        ("maroon", 0x800000u32),
        ("green", 0x008000u32),
        ("olive", 0x808000u32),
        ("navy", 0x000080u32),
        ("purple", 0x800080u32),
        ("teal", 0x008080u32),
        ("silver", 0xc0c0c0u32),
        ("grey", 0x808080u32),
        ("red", 0xff0000u32),
        ("lime", 0x00ff00u32),
        ("yellow", 0xffff00u32),
        ("blue", 0x0000ffu32),
        ("fuchsia", 0xff00ffu32),
        ("aqua", 0x00ffffu32),
        ("white", 0xffffffu32),
        ("grey0", 0x000000u32),
        ("navyblue", 0x00005fu32),
        ("darkblue", 0x000087u32),
        ("blue3", 0x0000afu32),
        ("blue3_1", 0x0000d7u32),
        ("blue1", 0x0000ffu32),
        ("darkgreen", 0x005f00u32),
        ("deepskyblue4", 0x005f5fu32),
        ("deepskyblue4_1", 0x005f87u32),
        ("deepskyblue4_2", 0x005fafu32),
        ("dodgerblue3", 0x005fd7u32),
        ("dodgerblue2", 0x005fffu32),
        ("green4", 0x008700u32),
        ("springgreen4", 0x00875fu32),
        ("turquoise4", 0x008787u32),
        ("deepskyblue3", 0x0087afu32),
        ("deepskyblue3_1", 0x0087d7u32),
        ("dodgerblue1", 0x0087ffu32),
        ("green3", 0x00af00u32),
        ("springgreen3", 0x00af5fu32),
        ("darkcyan", 0x00af87u32),
        ("lightseagreen", 0x00afafu32),
        ("deepskyblue2", 0x00afd7u32),
        ("deepskyblue1", 0x00afffu32),
        ("green3_1", 0x00d700u32),
        ("springgreen3_1", 0x00d75fu32),
        ("springgreen2", 0x00d787u32),
        ("cyan3", 0x00d7afu32),
        ("darkturquoise", 0x00d7d7u32),
        ("turquoise2", 0x00d7ffu32),
        ("green1", 0x00ff00u32),
        ("springgreen2_1", 0x00ff5fu32),
        ("springgreen1", 0x00ff87u32),
        ("mediumspringgreen", 0x00ffafu32),
        ("cyan2", 0x00ffd7u32),
        ("cyan1", 0x00ffffu32),
        ("darkred", 0x5f0000u32),
        ("deeppink4", 0x5f005fu32),
        ("purple4", 0x5f0087u32),
        ("purple4_1", 0x5f00afu32),
        ("purple3", 0x5f00d7u32),
        ("blueviolet", 0x5f00ffu32),
        ("orange4", 0x5f5f00u32),
        ("grey37", 0x5f5f5fu32),
        ("mediumpurple4", 0x5f5f87u32),
        ("slateblue3", 0x5f5fafu32),
        ("slateblue3_1", 0x5f5fd7u32),
        ("royalblue1", 0x5f5fffu32),
        ("chartreuse4", 0x5f8700u32),
        ("darkseagreen4", 0x5f875fu32),
        ("paleturquoise4", 0x5f8787u32),
        ("steelblue", 0x5f87afu32),
        ("steelblue3", 0x5f87d7u32),
        ("cornflowerblue", 0x5f87ffu32),
        ("chartreuse3", 0x5faf00u32),
        ("darkseagreen4_1", 0x5faf5fu32),
        ("cadetblue", 0x5faf87u32),
        ("cadetblue_1", 0x5fafafu32),
        ("skyblue3", 0x5fafd7u32),
        ("steelblue1", 0x5fafffu32),
        ("chartreuse3_1", 0x5fd700u32),
        ("palegreen3", 0x5fd75fu32),
        ("seagreen3", 0x5fd787u32),
        ("aquamarine3", 0x5fd7afu32),
        ("mediumturquoise", 0x5fd7d7u32),
        ("steelblue1_1", 0x5fd7ffu32),
        ("chartreuse2", 0x5fff00u32),
        ("seagreen2", 0x5fff5fu32),
        ("seagreen1", 0x5fff87u32),
        ("seagreen1_1", 0x5fffafu32),
        ("aquamarine1", 0x5fffd7u32),
        ("darkslategray2", 0x5fffffu32),
        ("darkred_1", 0x870000u32),
        ("deeppink4_1", 0x87005fu32),
        ("darkmagenta", 0x870087u32),
        ("darkmagenta_1", 0x8700afu32),
        ("darkviolet", 0x8700d7u32),
        ("purple_1", 0x8700ffu32),
        ("orange4_1", 0x875f00u32),
        ("lightpink4", 0x875f5fu32),
        ("plum4", 0x875f87u32),
        ("mediumpurple3", 0x875fafu32),
        ("mediumpurple3_1", 0x875fd7u32),
        ("slateblue1", 0x875fffu32),
        ("yellow4", 0x878700u32),
        ("wheat4", 0x87875fu32),
        ("grey53", 0x878787u32),
        ("lightslategrey", 0x8787afu32),
        ("mediumpurple", 0x8787d7u32),
        ("lightslateblue", 0x8787ffu32),
        ("yellow4_1", 0x87af00u32),
        ("darkolivegreen3", 0x87af5fu32),
        ("darkseagreen", 0x87af87u32),
        ("lightskyblue3", 0x87afafu32),
        ("lightskyblue3_1", 0x87afd7u32),
        ("skyblue2", 0x87afffu32),
        ("chartreuse2_1", 0x87d700u32),
        ("darkolivegreen3_1", 0x87d75fu32),
        ("palegreen3_1", 0x87d787u32),
        ("darkseagreen3", 0x87d7afu32),
        ("darkslategray3", 0x87d7d7u32),
        ("skyblue1", 0x87d7ffu32),
        ("chartreuse1", 0x87ff00u32),
        ("lightgreen", 0x87ff5fu32),
        ("lightgreen_1", 0x87ff87u32),
        ("palegreen1", 0x87ffafu32),
        ("aquamarine1_1", 0x87ffd7u32),
        ("darkslategray1", 0x87ffffu32),
        ("red3", 0xaf0000u32),
        ("deeppink4_2", 0xaf005fu32),
        ("mediumvioletred", 0xaf0087u32),
        ("magenta3", 0xaf00afu32),
        ("darkviolet_1", 0xaf00d7u32),
        ("purple_2", 0xaf00ffu32),
        ("darkorange3", 0xaf5f00u32),
        ("indianred", 0xaf5f5fu32),
        ("hotpink3", 0xaf5f87u32),
        ("mediumorchid3", 0xaf5fafu32),
        ("mediumorchid", 0xaf5fd7u32),
        ("mediumpurple2", 0xaf5fffu32),
        ("darkgoldenrod", 0xaf8700u32),
        ("lightsalmon3", 0xaf875fu32),
        ("rosybrown", 0xaf8787u32),
        ("grey63", 0xaf87afu32),
        ("mediumpurple2_1", 0xaf87d7u32),
        ("mediumpurple1", 0xaf87ffu32),
        ("gold3", 0xafaf00u32),
        ("darkkhaki", 0xafaf5fu32),
        ("navajowhite3", 0xafaf87u32),
        ("grey69", 0xafafafu32),
        ("lightsteelblue3", 0xafafd7u32),
        ("lightsteelblue", 0xafafffu32),
        ("yellow3", 0xafd700u32),
        ("darkolivegreen3_2", 0xafd75fu32),
        ("darkseagreen3_1", 0xafd787u32),
        ("darkseagreen2", 0xafd7afu32),
        ("lightcyan3", 0xafd7d7u32),
        ("lightskyblue1", 0xafd7ffu32),
        ("greenyellow", 0xafff00u32),
        ("darkolivegreen2", 0xafff5fu32),
        ("palegreen1_1", 0xafff87u32),
        ("darkseagreen2_1", 0xafffafu32),
        ("darkseagreen1", 0xafffd7u32),
        ("paleturquoise1", 0xafffffu32),
        ("red3_1", 0xd70000u32),
        ("deeppink3", 0xd7005fu32),
        ("deeppink3_1", 0xd70087u32),
        ("magenta3_1", 0xd700afu32),
        ("magenta3_2", 0xd700d7u32),
        ("magenta2", 0xd700ffu32),
        ("darkorange3_1", 0xd75f00u32),
        ("indianred_1", 0xd75f5fu32),
        ("hotpink3_1", 0xd75f87u32),
        ("hotpink2", 0xd75fafu32),
        ("orchid", 0xd75fd7u32),
        ("mediumorchid1", 0xd75fffu32),
        ("orange3", 0xd78700u32),
        ("lightsalmon3_1", 0xd7875fu32),
        ("lightpink3", 0xd78787u32),
        ("pink3", 0xd787afu32),
        ("plum3", 0xd787d7u32),
        ("violet", 0xd787ffu32),
        ("gold3_1", 0xd7af00u32),
        ("lightgoldenrod3", 0xd7af5fu32),
        ("tan", 0xd7af87u32),
        ("mistyrose3", 0xd7afafu32),
        ("thistle3", 0xd7afd7u32),
        ("plum2", 0xd7afffu32),
        ("yellow3_1", 0xd7d700u32),
        ("khaki3", 0xd7d75fu32),
        ("lightgoldenrod2", 0xd7d787u32),
        ("lightyellow3", 0xd7d7afu32),
        ("grey84", 0xd7d7d7u32),
        ("lightsteelblue1", 0xd7d7ffu32),
        ("yellow2", 0xd7ff00u32),
        ("darkolivegreen1", 0xd7ff5fu32),
        ("darkolivegreen1_1", 0xd7ff87u32),
        ("darkseagreen1_1", 0xd7ffafu32),
        ("honeydew2", 0xd7ffd7u32),
        ("lightcyan1", 0xd7ffffu32),
        ("red1", 0xff0000u32),
        ("deeppink2", 0xff005fu32),
        ("deeppink1", 0xff0087u32),
        ("deeppink1_1", 0xff00afu32),
        ("magenta2_1", 0xff00d7u32),
        ("magenta1", 0xff00ffu32),
        ("orangered1", 0xff5f00u32),
        ("indianred1", 0xff5f5fu32),
        ("indianred1_1", 0xff5f87u32),
        ("hotpink", 0xff5fafu32),
        ("hotpink_1", 0xff5fd7u32),
        ("mediumorchid1_1", 0xff5fffu32),
        ("darkorange", 0xff8700u32),
        ("salmon1", 0xff875fu32),
        ("lightcoral", 0xff8787u32),
        ("palevioletred1", 0xff87afu32),
        ("orchid2", 0xff87d7u32),
        ("orchid1", 0xff87ffu32),
        ("orange1", 0xffaf00u32),
        ("sandybrown", 0xffaf5fu32),
        ("lightsalmon1", 0xffaf87u32),
        ("lightpink1", 0xffafafu32),
        ("pink1", 0xffafd7u32),
        ("plum1", 0xffafffu32),
        ("gold1", 0xffd700u32),
        ("lightgoldenrod2_1", 0xffd75fu32),
        ("lightgoldenrod2_2", 0xffd787u32),
        ("navajowhite1", 0xffd7afu32),
        ("mistyrose1", 0xffd7d7u32),
        ("thistle1", 0xffd7ffu32),
        ("yellow1", 0xffff00u32),
        ("lightgoldenrod1", 0xffff5fu32),
        ("khaki1", 0xffff87u32),
        ("wheat1", 0xffffafu32),
        ("cornsilk1", 0xffffd7u32),
        ("grey100", 0xffffffu32),
        ("grey3", 0x080808u32),
        ("grey7", 0x121212u32),
        ("grey11", 0x1c1c1cu32),
        ("grey15", 0x262626u32),
        ("grey19", 0x303030u32),
        ("grey23", 0x3a3a3au32),
        ("grey27", 0x444444u32),
        ("grey30", 0x4e4e4eu32),
        ("grey35", 0x585858u32),
        ("grey39", 0x626262u32),
        ("grey42", 0x6c6c6cu32),
        ("grey46", 0x767676u32),
        ("grey50", 0x808080u32),
        ("grey54", 0x8a8a8au32),
        ("grey58", 0x949494u32),
        ("grey62", 0x9e9e9eu32),
        ("grey66", 0xa8a8a8u32),
        ("grey70", 0xb2b2b2u32),
        ("grey74", 0xbcbcbcu32),
        ("grey78", 0xc6c6c6u32),
        ("grey82", 0xd0d0d0u32),
        ("grey85", 0xdadadau32),
        ("grey89", 0xe4e4e4u32),
        ("grey93", 0xeeeeeeu32),
    ];
    assert(v@ =~= color_table());
    v
}

/// The table entry, at or after index `i`, whose name is `name`.
pub open spec fn name_lookup(t: Seq<(&'static str, u32)>, name: Seq<char>, i: nat) -> Option<u32>
    decreases t.len() - i,
{
    if i >= t.len() {
        None
    } else if t[i as int].0@ == name {
        Some(t[i as int].1)
    } else {
        name_lookup(t, name, i + 1)
    }
}

/// The value of the palette colour called `name`.
pub open spec fn color_by_name(name: Seq<char>) -> Option<u32> {
    name_lookup(color_table(), name, 0)
}

/// The value of the palette colour whose name is spelled by `name`.
pub fn color_by_name_chars(name: &Vec<char>) -> (r: Option<u32>)
    ensures
        r == color_by_name(name@),
{
    let table = colors();
    let mut i: usize = 0;
    while i < table.len()
        invariant
            table@ == color_table(),
            i <= table.len(),
            color_by_name(name@) == name_lookup(color_table(), name@, i as nat),
        decreases table.len() - i,
    {
        let (n, h) = table[i];
        if chars_equal_str(name, n) {
            return Some(h);
        }
        i += 1;
    }
    None
}

/// Looks a palette colour up by its name.
pub fn get_color_by_name(name: &str) -> (r: Option<u32>)
    ensures
        r == color_by_name(name@),
{
    let chars = to_chars(name);
    color_by_name_chars(&chars)
}

/// The red channel of `0xRRGGBB`.
pub open spec fn red(hex: u32) -> u8 {
    ((hex >> 16u32) & 0xffu32) as u8
}

/// The green channel of `0xRRGGBB`.
pub open spec fn green(hex: u32) -> u8 {
    ((hex >> 8u32) & 0xffu32) as u8
}

/// The blue channel of `0xRRGGBB`.
pub open spec fn blue(hex: u32) -> u8 {
    (hex & 0xffu32) as u8
}

/// The squared Euclidean distance between an RGB triple and a colour value.
pub open spec fn dist_sq(r: u8, g: u8, b: u8, hex: u32) -> int {
    (r - red(hex)) * (r - red(hex)) + (g - green(hex)) * (g - green(hex)) + (b - blue(hex)) * (b
        - blue(hex))
}

/// The index of the first colour, among the first `n` of the palette, that
/// lies nearest to `(r, g, b)`.
pub open spec fn nearest_index(r: u8, g: u8, b: u8, n: nat) -> nat
    decreases n,
{
    if n <= 1 {
        0
    } else {
        let k = nearest_index(r, g, b, (n - 1) as nat);
        if dist_sq(r, g, b, color_table()[n - 1].1) < dist_sq(r, g, b, color_table()[k as int].1) {
            (n - 1) as nat
        } else {
            k
        }
    }
}

/// The value of the palette colour nearest to `(r, g, b)`; the first one in
/// palette order when several are equally near.
pub open spec fn nearest_hex(r: u8, g: u8, b: u8) -> u32 {
    color_table()[nearest_index(r, g, b, color_table().len()) as int].1
}

/// The nearest index lies in range, is no farther than any colour of the
/// prefix, and is strictly nearer than every colour before it.
pub proof fn lemma_nearest_index(r: u8, g: u8, b: u8, n: nat)
    requires
        1 <= n <= color_table().len(),
    ensures
        nearest_index(r, g, b, n) < n,
        forall|i: int|
            0 <= i < n ==> dist_sq(r, g, b, color_table()[nearest_index(r, g, b, n) as int].1)
                <= dist_sq(r, g, b, #[trigger] color_table()[i].1),
        forall|i: int|
            0 <= i < nearest_index(r, g, b, n) ==> dist_sq(
                r,
                g,
                b,
                color_table()[nearest_index(r, g, b, n) as int].1,
            ) < dist_sq(r, g, b, #[trigger] color_table()[i].1),
    decreases n,
{
    if n > 1 {
        lemma_nearest_index(r, g, b, (n - 1) as nat);
    }
}

/// Once a colour at distance zero is the nearest, it stays the nearest.
pub proof fn lemma_nearest_exact(r: u8, g: u8, b: u8, m: nat, n: nat)
    requires
        1 <= m <= n <= color_table().len(),
        dist_sq(r, g, b, color_table()[nearest_index(r, g, b, m) as int].1) == 0,
    ensures
        nearest_index(r, g, b, n) == nearest_index(r, g, b, m),
    decreases n,
{
    if n > m {
        lemma_nearest_exact(r, g, b, m, (n - 1) as nat);
        let x = r - red(color_table()[n - 1].1);
        let y = g - green(color_table()[n - 1].1);
        let z = b - blue(color_table()[n - 1].1);
        assert(x * x + y * y + z * z >= 0) by (nonlinear_arith);
    }
}




/// A name that begins with a lower-case letter, so that it is read as a
/// name and not as a `#` value or an `rgb(...)` triple.
pub open spec fn is_plain_name(name: Seq<char>) -> bool {
    name.len() > 0 && 'a' <= name[0] <= 'z' && !starts_with(name, seq!['r', 'g', 'b', '('])
}

/// Palette entries 0 to 63 are named by a word that starts with a
/// lower-case letter.
proof fn lemma_names_plain_0(j: int)
    requires
        0 <= j < 64,
    ensures
        is_plain_name(color_table()[j].0@),
{
    if j == 0 {
        reveal_strlit("black");
        assert(color_table()[0].0@ =~= "black"@);
    } else if j == 1 {
        reveal_strlit("maroon");
        assert(color_table()[1].0@ =~= "maroon"@);
    } else if j == 2 {
        reveal_strlit("green");
        assert(color_table()[2].0@ =~= "green"@);
    } else if j == 3 {
        reveal_strlit("olive");
        assert(color_table()[3].0@ =~= "olive"@);
    } else if j == 4 {
        reveal_strlit("navy");
        assert(color_table()[4].0@ =~= "navy"@);
    } else if j == 5 {
        reveal_strlit("purple");
        assert(color_table()[5].0@ =~= "purple"@);
    } else if j == 6 {
        reveal_strlit("teal");
        assert(color_table()[6].0@ =~= "teal"@);
    } else if j == 7 {
        reveal_strlit("silver");
        assert(color_table()[7].0@ =~= "silver"@);
    } else if j == 8 {
        reveal_strlit("grey");
        assert(color_table()[8].0@ =~= "grey"@);
    } else if j == 9 {
        reveal_strlit("red");
        assert(color_table()[9].0@ =~= "red"@);
    } else if j == 10 {
        reveal_strlit("lime");
        assert(color_table()[10].0@ =~= "lime"@);
    } else if j == 11 {
        reveal_strlit("yellow");
        assert(color_table()[11].0@ =~= "yellow"@);
    } else if j == 12 {
        reveal_strlit("blue");
        assert(color_table()[12].0@ =~= "blue"@);
    } else if j == 13 {
        reveal_strlit("fuchsia");
        assert(color_table()[13].0@ =~= "fuchsia"@);
    } else if j == 14 {
        reveal_strlit("aqua");
        assert(color_table()[14].0@ =~= "aqua"@);
    } else if j == 15 {
        reveal_strlit("white");
        assert(color_table()[15].0@ =~= "white"@);
    } else if j == 16 {
        reveal_strlit("grey0");
        assert(color_table()[16].0@ =~= "grey0"@);
    } else if j == 17 {
        reveal_strlit("navyblue");
        assert(color_table()[17].0@ =~= "navyblue"@);
    } else if j == 18 {
        reveal_strlit("darkblue");
        assert(color_table()[18].0@ =~= "darkblue"@);
    } else if j == 19 {
        reveal_strlit("blue3");
        assert(color_table()[19].0@ =~= "blue3"@);
    } else if j == 20 {
        reveal_strlit("blue3_1");
        assert(color_table()[20].0@ =~= "blue3_1"@);
    } else if j == 21 {
        reveal_strlit("blue1");
        assert(color_table()[21].0@ =~= "blue1"@);
    } else if j == 22 {
        reveal_strlit("darkgreen");
        assert(color_table()[22].0@ =~= "darkgreen"@);
    } else if j == 23 {
        reveal_strlit("deepskyblue4");
        assert(color_table()[23].0@ =~= "deepskyblue4"@);
    } else if j == 24 {
        reveal_strlit("deepskyblue4_1");
        assert(color_table()[24].0@ =~= "deepskyblue4_1"@);
    } else if j == 25 {
        reveal_strlit("deepskyblue4_2");
        assert(color_table()[25].0@ =~= "deepskyblue4_2"@);
    } else if j == 26 {
        reveal_strlit("dodgerblue3");
        assert(color_table()[26].0@ =~= "dodgerblue3"@);
    } else if j == 27 {
        reveal_strlit("dodgerblue2");
        assert(color_table()[27].0@ =~= "dodgerblue2"@);
    } else if j == 28 {
        reveal_strlit("green4");
        assert(color_table()[28].0@ =~= "green4"@);
    } else if j == 29 {
        reveal_strlit("springgreen4");
        assert(color_table()[29].0@ =~= "springgreen4"@);
    } else if j == 30 {
        reveal_strlit("turquoise4");
        assert(color_table()[30].0@ =~= "turquoise4"@);
    } else if j == 31 {
        reveal_strlit("deepskyblue3");
        assert(color_table()[31].0@ =~= "deepskyblue3"@);
    } else if j == 32 {
        reveal_strlit("deepskyblue3_1");
        assert(color_table()[32].0@ =~= "deepskyblue3_1"@);
    } else if j == 33 {
        reveal_strlit("dodgerblue1");
        assert(color_table()[33].0@ =~= "dodgerblue1"@);
    } else if j == 34 {
        reveal_strlit("green3");
        assert(color_table()[34].0@ =~= "green3"@);
    } else if j == 35 {
        reveal_strlit("springgreen3");
        assert(color_table()[35].0@ =~= "springgreen3"@);
    } else if j == 36 {
        reveal_strlit("darkcyan");
        assert(color_table()[36].0@ =~= "darkcyan"@);
    } else if j == 37 {
        reveal_strlit("lightseagreen");
        assert(color_table()[37].0@ =~= "lightseagreen"@);
    } else if j == 38 {
        reveal_strlit("deepskyblue2");
        assert(color_table()[38].0@ =~= "deepskyblue2"@);
    } else if j == 39 {
        reveal_strlit("deepskyblue1");
        assert(color_table()[39].0@ =~= "deepskyblue1"@);
    } else if j == 40 {
        reveal_strlit("green3_1");
        assert(color_table()[40].0@ =~= "green3_1"@);
    } else if j == 41 {
        reveal_strlit("springgreen3_1");
        assert(color_table()[41].0@ =~= "springgreen3_1"@);
    } else if j == 42 {
        reveal_strlit("springgreen2");
        assert(color_table()[42].0@ =~= "springgreen2"@);
    } else if j == 43 {
        reveal_strlit("cyan3");
        assert(color_table()[43].0@ =~= "cyan3"@);
    } else if j == 44 {
        reveal_strlit("darkturquoise");
        assert(color_table()[44].0@ =~= "darkturquoise"@);
    } else if j == 45 {
        reveal_strlit("turquoise2");
        assert(color_table()[45].0@ =~= "turquoise2"@);
    } else if j == 46 {
        reveal_strlit("green1");
        assert(color_table()[46].0@ =~= "green1"@);
    } else if j == 47 {
        reveal_strlit("springgreen2_1");
        assert(color_table()[47].0@ =~= "springgreen2_1"@);
    } else if j == 48 {
        reveal_strlit("springgreen1");
        assert(color_table()[48].0@ =~= "springgreen1"@);
    } else if j == 49 {
        reveal_strlit("mediumspringgreen");
        assert(color_table()[49].0@ =~= "mediumspringgreen"@);
    } else if j == 50 {
        reveal_strlit("cyan2");
        assert(color_table()[50].0@ =~= "cyan2"@);
    } else if j == 51 {
        reveal_strlit("cyan1");
        assert(color_table()[51].0@ =~= "cyan1"@);
    } else if j == 52 {
        reveal_strlit("darkred");
        assert(color_table()[52].0@ =~= "darkred"@);
    } else if j == 53 {
        reveal_strlit("deeppink4");
        assert(color_table()[53].0@ =~= "deeppink4"@);
    } else if j == 54 {
        reveal_strlit("purple4");
        assert(color_table()[54].0@ =~= "purple4"@);
    } else if j == 55 {
        reveal_strlit("purple4_1");
        assert(color_table()[55].0@ =~= "purple4_1"@);
    } else if j == 56 {
        reveal_strlit("purple3");
        assert(color_table()[56].0@ =~= "purple3"@);
    } else if j == 57 {
        reveal_strlit("blueviolet");
        assert(color_table()[57].0@ =~= "blueviolet"@);
    } else if j == 58 {
        reveal_strlit("orange4");
        assert(color_table()[58].0@ =~= "orange4"@);
    } else if j == 59 {
        reveal_strlit("grey37");
        assert(color_table()[59].0@ =~= "grey37"@);
    } else if j == 60 {
        reveal_strlit("mediumpurple4");
        assert(color_table()[60].0@ =~= "mediumpurple4"@);
    } else if j == 61 {
        reveal_strlit("slateblue3");
        assert(color_table()[61].0@ =~= "slateblue3"@);
    } else if j == 62 {
        reveal_strlit("slateblue3_1");
        assert(color_table()[62].0@ =~= "slateblue3_1"@);
    } else if j == 63 {
        reveal_strlit("royalblue1");
        assert(color_table()[63].0@ =~= "royalblue1"@);
    }
}

/// Palette entries 64 to 127 are named by a word that starts with a
/// lower-case letter.
proof fn lemma_names_plain_1(j: int)
    requires
        64 <= j < 128,
    ensures
        is_plain_name(color_table()[j].0@),
{
    if j == 64 {
        reveal_strlit("chartreuse4");
        assert(color_table()[64].0@ =~= "chartreuse4"@);
    } else if j == 65 {
        reveal_strlit("darkseagreen4");
        assert(color_table()[65].0@ =~= "darkseagreen4"@);
    } else if j == 66 {
        reveal_strlit("paleturquoise4");
        assert(color_table()[66].0@ =~= "paleturquoise4"@);
    } else if j == 67 {
        reveal_strlit("steelblue");
        assert(color_table()[67].0@ =~= "steelblue"@);
    } else if j == 68 {
        reveal_strlit("steelblue3");
        assert(color_table()[68].0@ =~= "steelblue3"@);
    } else if j == 69 {
        reveal_strlit("cornflowerblue");
        assert(color_table()[69].0@ =~= "cornflowerblue"@);
    } else if j == 70 {
        reveal_strlit("chartreuse3");
        assert(color_table()[70].0@ =~= "chartreuse3"@);
    } else if j == 71 {
        reveal_strlit("darkseagreen4_1");
        assert(color_table()[71].0@ =~= "darkseagreen4_1"@);
    } else if j == 72 {
        reveal_strlit("cadetblue");
        assert(color_table()[72].0@ =~= "cadetblue"@);
    } else if j == 73 {
        reveal_strlit("cadetblue_1");
        assert(color_table()[73].0@ =~= "cadetblue_1"@);
    } else if j == 74 {
        reveal_strlit("skyblue3");
        assert(color_table()[74].0@ =~= "skyblue3"@);
    } else if j == 75 {
        reveal_strlit("steelblue1");
        assert(color_table()[75].0@ =~= "steelblue1"@);
    } else if j == 76 {
        reveal_strlit("chartreuse3_1");
        assert(color_table()[76].0@ =~= "chartreuse3_1"@);
    } else if j == 77 {
        reveal_strlit("palegreen3");
        assert(color_table()[77].0@ =~= "palegreen3"@);
    } else if j == 78 {
        reveal_strlit("seagreen3");
        assert(color_table()[78].0@ =~= "seagreen3"@);
    } else if j == 79 {
        reveal_strlit("aquamarine3");
        assert(color_table()[79].0@ =~= "aquamarine3"@);
    } else if j == 80 {
        reveal_strlit("mediumturquoise");
        assert(color_table()[80].0@ =~= "mediumturquoise"@);
    } else if j == 81 {
        reveal_strlit("steelblue1_1");
        assert(color_table()[81].0@ =~= "steelblue1_1"@);
    } else if j == 82 {
        reveal_strlit("chartreuse2");
        assert(color_table()[82].0@ =~= "chartreuse2"@);
    } else if j == 83 {
        reveal_strlit("seagreen2");
        assert(color_table()[83].0@ =~= "seagreen2"@);
    } else if j == 84 {
        reveal_strlit("seagreen1");
        assert(color_table()[84].0@ =~= "seagreen1"@);
    } else if j == 85 {
        reveal_strlit("seagreen1_1");
        assert(color_table()[85].0@ =~= "seagreen1_1"@);
    } else if j == 86 {
        reveal_strlit("aquamarine1");
        assert(color_table()[86].0@ =~= "aquamarine1"@);
    } else if j == 87 {
        reveal_strlit("darkslategray2");
        assert(color_table()[87].0@ =~= "darkslategray2"@);
    } else if j == 88 {
        reveal_strlit("darkred_1");
        assert(color_table()[88].0@ =~= "darkred_1"@);
    } else if j == 89 {
        reveal_strlit("deeppink4_1");
        assert(color_table()[89].0@ =~= "deeppink4_1"@);
    } else if j == 90 {
        reveal_strlit("darkmagenta");
        assert(color_table()[90].0@ =~= "darkmagenta"@);
    } else if j == 91 {
        reveal_strlit("darkmagenta_1");
        assert(color_table()[91].0@ =~= "darkmagenta_1"@);
    } else if j == 92 {
        reveal_strlit("darkviolet");
        assert(color_table()[92].0@ =~= "darkviolet"@);
    } else if j == 93 {
        reveal_strlit("purple_1");
        assert(color_table()[93].0@ =~= "purple_1"@);
    } else if j == 94 {
        reveal_strlit("orange4_1");
        assert(color_table()[94].0@ =~= "orange4_1"@);
    } else if j == 95 {
        reveal_strlit("lightpink4");
        assert(color_table()[95].0@ =~= "lightpink4"@);
    } else if j == 96 {
        reveal_strlit("plum4");
        assert(color_table()[96].0@ =~= "plum4"@);
    } else if j == 97 {
        reveal_strlit("mediumpurple3");
        assert(color_table()[97].0@ =~= "mediumpurple3"@);
    } else if j == 98 {
        reveal_strlit("mediumpurple3_1");
        assert(color_table()[98].0@ =~= "mediumpurple3_1"@);
    } else if j == 99 {
        reveal_strlit("slateblue1");
        assert(color_table()[99].0@ =~= "slateblue1"@);
    } else if j == 100 {
        reveal_strlit("yellow4");
        assert(color_table()[100].0@ =~= "yellow4"@);
    } else if j == 101 {
        reveal_strlit("wheat4");
        assert(color_table()[101].0@ =~= "wheat4"@);
    } else if j == 102 {
        reveal_strlit("grey53");
        assert(color_table()[102].0@ =~= "grey53"@);
    } else if j == 103 {
        reveal_strlit("lightslategrey");
        assert(color_table()[103].0@ =~= "lightslategrey"@);
    } else if j == 104 {
        reveal_strlit("mediumpurple");
        assert(color_table()[104].0@ =~= "mediumpurple"@);
    } else if j == 105 {
        reveal_strlit("lightslateblue");
        assert(color_table()[105].0@ =~= "lightslateblue"@);
    } else if j == 106 {
        reveal_strlit("yellow4_1");
        assert(color_table()[106].0@ =~= "yellow4_1"@);
    } else if j == 107 {
        reveal_strlit("darkolivegreen3");
        assert(color_table()[107].0@ =~= "darkolivegreen3"@);
    } else if j == 108 {
        reveal_strlit("darkseagreen");
        assert(color_table()[108].0@ =~= "darkseagreen"@);
    } else if j == 109 {
        reveal_strlit("lightskyblue3");
        assert(color_table()[109].0@ =~= "lightskyblue3"@);
    } else if j == 110 {
        reveal_strlit("lightskyblue3_1");
        assert(color_table()[110].0@ =~= "lightskyblue3_1"@);
    } else if j == 111 {
        reveal_strlit("skyblue2");
        assert(color_table()[111].0@ =~= "skyblue2"@);
    } else if j == 112 {
        reveal_strlit("chartreuse2_1");
        assert(color_table()[112].0@ =~= "chartreuse2_1"@);
    } else if j == 113 {
        reveal_strlit("darkolivegreen3_1");
        assert(color_table()[113].0@ =~= "darkolivegreen3_1"@);
    } else if j == 114 {
        reveal_strlit("palegreen3_1");
        assert(color_table()[114].0@ =~= "palegreen3_1"@);
    } else if j == 115 {
        reveal_strlit("darkseagreen3");
        assert(color_table()[115].0@ =~= "darkseagreen3"@);
    } else if j == 116 {
        reveal_strlit("darkslategray3");
        assert(color_table()[116].0@ =~= "darkslategray3"@);
    } else if j == 117 {
        reveal_strlit("skyblue1");
        assert(color_table()[117].0@ =~= "skyblue1"@);
    } else if j == 118 {
        reveal_strlit("chartreuse1");
        assert(color_table()[118].0@ =~= "chartreuse1"@);
    } else if j == 119 {
        reveal_strlit("lightgreen");
        assert(color_table()[119].0@ =~= "lightgreen"@);
    } else if j == 120 {
        reveal_strlit("lightgreen_1");
        assert(color_table()[120].0@ =~= "lightgreen_1"@);
    } else if j == 121 {
        reveal_strlit("palegreen1");
        assert(color_table()[121].0@ =~= "palegreen1"@);
    } else if j == 122 {
        reveal_strlit("aquamarine1_1");
        assert(color_table()[122].0@ =~= "aquamarine1_1"@);
    } else if j == 123 {
        reveal_strlit("darkslategray1");
        assert(color_table()[123].0@ =~= "darkslategray1"@);
    } else if j == 124 {
        reveal_strlit("red3");
        assert(color_table()[124].0@ =~= "red3"@);
    } else if j == 125 {
        reveal_strlit("deeppink4_2");
        assert(color_table()[125].0@ =~= "deeppink4_2"@);
    } else if j == 126 {
        reveal_strlit("mediumvioletred");
        assert(color_table()[126].0@ =~= "mediumvioletred"@);
    } else if j == 127 {
        reveal_strlit("magenta3");
        assert(color_table()[127].0@ =~= "magenta3"@);
    }
}

/// Palette entries 128 to 191 are named by a word that starts with a
/// lower-case letter.
proof fn lemma_names_plain_2(j: int)
    requires
        128 <= j < 192,
    ensures
        is_plain_name(color_table()[j].0@),
{
    if j == 128 {
        reveal_strlit("darkviolet_1");
        assert(color_table()[128].0@ =~= "darkviolet_1"@);
    } else if j == 129 {
        reveal_strlit("purple_2");
        assert(color_table()[129].0@ =~= "purple_2"@);
    } else if j == 130 {
        reveal_strlit("darkorange3");
        assert(color_table()[130].0@ =~= "darkorange3"@);
    } else if j == 131 {
        reveal_strlit("indianred");
        assert(color_table()[131].0@ =~= "indianred"@);
    } else if j == 132 {
        reveal_strlit("hotpink3");
        assert(color_table()[132].0@ =~= "hotpink3"@);
    } else if j == 133 {
        reveal_strlit("mediumorchid3");
        assert(color_table()[133].0@ =~= "mediumorchid3"@);
    } else if j == 134 {
        reveal_strlit("mediumorchid");
        assert(color_table()[134].0@ =~= "mediumorchid"@);
    } else if j == 135 {
        reveal_strlit("mediumpurple2");
        assert(color_table()[135].0@ =~= "mediumpurple2"@);
    } else if j == 136 {
        reveal_strlit("darkgoldenrod");
        assert(color_table()[136].0@ =~= "darkgoldenrod"@);
    } else if j == 137 {
        reveal_strlit("lightsalmon3");
        assert(color_table()[137].0@ =~= "lightsalmon3"@);
    } else if j == 138 {
        reveal_strlit("rosybrown");
        assert(color_table()[138].0@ =~= "rosybrown"@);
    } else if j == 139 {
        reveal_strlit("grey63");
        assert(color_table()[139].0@ =~= "grey63"@);
    } else if j == 140 {
        reveal_strlit("mediumpurple2_1");
        assert(color_table()[140].0@ =~= "mediumpurple2_1"@);
    } else if j == 141 {
        reveal_strlit("mediumpurple1");
        assert(color_table()[141].0@ =~= "mediumpurple1"@);
    } else if j == 142 {
        reveal_strlit("gold3");
        assert(color_table()[142].0@ =~= "gold3"@);
    } else if j == 143 {
        reveal_strlit("darkkhaki");
        assert(color_table()[143].0@ =~= "darkkhaki"@);
    } else if j == 144 {
        reveal_strlit("navajowhite3");
        assert(color_table()[144].0@ =~= "navajowhite3"@);
    } else if j == 145 {
        reveal_strlit("grey69");
        assert(color_table()[145].0@ =~= "grey69"@);
    } else if j == 146 {
        reveal_strlit("lightsteelblue3");
        assert(color_table()[146].0@ =~= "lightsteelblue3"@);
    } else if j == 147 {
        reveal_strlit("lightsteelblue");
        assert(color_table()[147].0@ =~= "lightsteelblue"@);
    } else if j == 148 {
        reveal_strlit("yellow3");
        assert(color_table()[148].0@ =~= "yellow3"@);
    } else if j == 149 {
        reveal_strlit("darkolivegreen3_2");
        assert(color_table()[149].0@ =~= "darkolivegreen3_2"@);
    } else if j == 150 {
        reveal_strlit("darkseagreen3_1");
        assert(color_table()[150].0@ =~= "darkseagreen3_1"@);
    } else if j == 151 {
        reveal_strlit("darkseagreen2");
        assert(color_table()[151].0@ =~= "darkseagreen2"@);
    } else if j == 152 {
        reveal_strlit("lightcyan3");
        assert(color_table()[152].0@ =~= "lightcyan3"@);
    } else if j == 153 {
        reveal_strlit("lightskyblue1");
        assert(color_table()[153].0@ =~= "lightskyblue1"@);
    } else if j == 154 {
        reveal_strlit("greenyellow");
        assert(color_table()[154].0@ =~= "greenyellow"@);
    } else if j == 155 {
        reveal_strlit("darkolivegreen2");
        assert(color_table()[155].0@ =~= "darkolivegreen2"@);
    } else if j == 156 {
        reveal_strlit("palegreen1_1");
        assert(color_table()[156].0@ =~= "palegreen1_1"@);
    } else if j == 157 {
        reveal_strlit("darkseagreen2_1");
        assert(color_table()[157].0@ =~= "darkseagreen2_1"@);
    } else if j == 158 {
        reveal_strlit("darkseagreen1");
        assert(color_table()[158].0@ =~= "darkseagreen1"@);
    } else if j == 159 {
        reveal_strlit("paleturquoise1");
        assert(color_table()[159].0@ =~= "paleturquoise1"@);
    } else if j == 160 {
        reveal_strlit("red3_1");
        assert(color_table()[160].0@ =~= "red3_1"@);
    } else if j == 161 {
        reveal_strlit("deeppink3");
        assert(color_table()[161].0@ =~= "deeppink3"@);
    } else if j == 162 {
        reveal_strlit("deeppink3_1");
        assert(color_table()[162].0@ =~= "deeppink3_1"@);
    } else if j == 163 {
        reveal_strlit("magenta3_1");
        assert(color_table()[163].0@ =~= "magenta3_1"@);
    } else if j == 164 {
        reveal_strlit("magenta3_2");
        assert(color_table()[164].0@ =~= "magenta3_2"@);
    } else if j == 165 {
        reveal_strlit("magenta2");
        assert(color_table()[165].0@ =~= "magenta2"@);
    } else if j == 166 {
        reveal_strlit("darkorange3_1");
        assert(color_table()[166].0@ =~= "darkorange3_1"@);
    } else if j == 167 {
        reveal_strlit("indianred_1");
        assert(color_table()[167].0@ =~= "indianred_1"@);
    } else if j == 168 {
        reveal_strlit("hotpink3_1");
        assert(color_table()[168].0@ =~= "hotpink3_1"@);
    } else if j == 169 {
        reveal_strlit("hotpink2");
        assert(color_table()[169].0@ =~= "hotpink2"@);
    } else if j == 170 {
        reveal_strlit("orchid");
        assert(color_table()[170].0@ =~= "orchid"@);
    } else if j == 171 {
        reveal_strlit("mediumorchid1");
        assert(color_table()[171].0@ =~= "mediumorchid1"@);
    } else if j == 172 {
        reveal_strlit("orange3");
        assert(color_table()[172].0@ =~= "orange3"@);
    } else if j == 173 {
        reveal_strlit("lightsalmon3_1");
        assert(color_table()[173].0@ =~= "lightsalmon3_1"@);
    } else if j == 174 {
        reveal_strlit("lightpink3");
        assert(color_table()[174].0@ =~= "lightpink3"@);
    } else if j == 175 {
        reveal_strlit("pink3");
        assert(color_table()[175].0@ =~= "pink3"@);
    } else if j == 176 {
        reveal_strlit("plum3");
        assert(color_table()[176].0@ =~= "plum3"@);
    } else if j == 177 {
        reveal_strlit("violet");
        assert(color_table()[177].0@ =~= "violet"@);
    } else if j == 178 {
        reveal_strlit("gold3_1");
        assert(color_table()[178].0@ =~= "gold3_1"@);
    } else if j == 179 {
        reveal_strlit("lightgoldenrod3");
        assert(color_table()[179].0@ =~= "lightgoldenrod3"@);
    } else if j == 180 {
        reveal_strlit("tan");
        assert(color_table()[180].0@ =~= "tan"@);
    } else if j == 181 {
        reveal_strlit("mistyrose3");
        assert(color_table()[181].0@ =~= "mistyrose3"@);
    } else if j == 182 {
        reveal_strlit("thistle3");
        assert(color_table()[182].0@ =~= "thistle3"@);
    } else if j == 183 {
        reveal_strlit("plum2");
        assert(color_table()[183].0@ =~= "plum2"@);
    } else if j == 184 {
        reveal_strlit("yellow3_1");
        assert(color_table()[184].0@ =~= "yellow3_1"@);
    } else if j == 185 {
        reveal_strlit("khaki3");
        assert(color_table()[185].0@ =~= "khaki3"@);
    } else if j == 186 {
        reveal_strlit("lightgoldenrod2");
        assert(color_table()[186].0@ =~= "lightgoldenrod2"@);
    } else if j == 187 {
        reveal_strlit("lightyellow3");
        assert(color_table()[187].0@ =~= "lightyellow3"@);
    } else if j == 188 {
        reveal_strlit("grey84");
        assert(color_table()[188].0@ =~= "grey84"@);
    } else if j == 189 {
        reveal_strlit("lightsteelblue1");
        assert(color_table()[189].0@ =~= "lightsteelblue1"@);
    } else if j == 190 {
        reveal_strlit("yellow2");
        assert(color_table()[190].0@ =~= "yellow2"@);
    } else if j == 191 {
        reveal_strlit("darkolivegreen1");
        assert(color_table()[191].0@ =~= "darkolivegreen1"@);
    }
}

/// Palette entries 192 to 255 are named by a word that starts with a
/// lower-case letter.
proof fn lemma_names_plain_3(j: int)
    requires
        192 <= j < 256,
    ensures
        is_plain_name(color_table()[j].0@),
{
    if j == 192 {
        reveal_strlit("darkolivegreen1_1");
        assert(color_table()[192].0@ =~= "darkolivegreen1_1"@);
    } else if j == 193 {
        reveal_strlit("darkseagreen1_1");
        assert(color_table()[193].0@ =~= "darkseagreen1_1"@);
    } else if j == 194 {
        reveal_strlit("honeydew2");
        assert(color_table()[194].0@ =~= "honeydew2"@);
    } else if j == 195 {
        reveal_strlit("lightcyan1");
        assert(color_table()[195].0@ =~= "lightcyan1"@);
    } else if j == 196 {
        reveal_strlit("red1");
        assert(color_table()[196].0@ =~= "red1"@);
    } else if j == 197 {
        reveal_strlit("deeppink2");
        assert(color_table()[197].0@ =~= "deeppink2"@);
    } else if j == 198 {
        reveal_strlit("deeppink1");
        assert(color_table()[198].0@ =~= "deeppink1"@);
    } else if j == 199 {
        reveal_strlit("deeppink1_1");
        assert(color_table()[199].0@ =~= "deeppink1_1"@);
    } else if j == 200 {
        reveal_strlit("magenta2_1");
        assert(color_table()[200].0@ =~= "magenta2_1"@);
    } else if j == 201 {
        reveal_strlit("magenta1");
        assert(color_table()[201].0@ =~= "magenta1"@);
    } else if j == 202 {
        reveal_strlit("orangered1");
        assert(color_table()[202].0@ =~= "orangered1"@);
    } else if j == 203 {
        reveal_strlit("indianred1");
        assert(color_table()[203].0@ =~= "indianred1"@);
    } else if j == 204 {
        reveal_strlit("indianred1_1");
        assert(color_table()[204].0@ =~= "indianred1_1"@);
    } else if j == 205 {
        reveal_strlit("hotpink");
        assert(color_table()[205].0@ =~= "hotpink"@);
    } else if j == 206 {
        reveal_strlit("hotpink_1");
        assert(color_table()[206].0@ =~= "hotpink_1"@);
    } else if j == 207 {
        reveal_strlit("mediumorchid1_1");
        assert(color_table()[207].0@ =~= "mediumorchid1_1"@);
    } else if j == 208 {
        reveal_strlit("darkorange");
        assert(color_table()[208].0@ =~= "darkorange"@);
    } else if j == 209 {
        reveal_strlit("salmon1");
        assert(color_table()[209].0@ =~= "salmon1"@);
    } else if j == 210 {
        reveal_strlit("lightcoral");
        assert(color_table()[210].0@ =~= "lightcoral"@);
    } else if j == 211 {
        reveal_strlit("palevioletred1");
        assert(color_table()[211].0@ =~= "palevioletred1"@);
    } else if j == 212 {
        reveal_strlit("orchid2");
        assert(color_table()[212].0@ =~= "orchid2"@);
    } else if j == 213 {
        reveal_strlit("orchid1");
        assert(color_table()[213].0@ =~= "orchid1"@);
    } else if j == 214 {
        reveal_strlit("orange1");
        assert(color_table()[214].0@ =~= "orange1"@);
    } else if j == 215 {
        reveal_strlit("sandybrown");
        assert(color_table()[215].0@ =~= "sandybrown"@);
    } else if j == 216 {
        reveal_strlit("lightsalmon1");
        assert(color_table()[216].0@ =~= "lightsalmon1"@);
    } else if j == 217 {
        reveal_strlit("lightpink1");
        assert(color_table()[217].0@ =~= "lightpink1"@);
    } else if j == 218 {
        reveal_strlit("pink1");
        assert(color_table()[218].0@ =~= "pink1"@);
    } else if j == 219 {
        reveal_strlit("plum1");
        assert(color_table()[219].0@ =~= "plum1"@);
    } else if j == 220 {
        reveal_strlit("gold1");
        assert(color_table()[220].0@ =~= "gold1"@);
    } else if j == 221 {
        reveal_strlit("lightgoldenrod2_1");
        assert(color_table()[221].0@ =~= "lightgoldenrod2_1"@);
    } else if j == 222 {
        reveal_strlit("lightgoldenrod2_2");
        assert(color_table()[222].0@ =~= "lightgoldenrod2_2"@);
    } else if j == 223 {
        reveal_strlit("navajowhite1");
        assert(color_table()[223].0@ =~= "navajowhite1"@);
    } else if j == 224 {
        reveal_strlit("mistyrose1");
        assert(color_table()[224].0@ =~= "mistyrose1"@);
    } else if j == 225 {
        reveal_strlit("thistle1");
        assert(color_table()[225].0@ =~= "thistle1"@);
    } else if j == 226 {
        reveal_strlit("yellow1");
        assert(color_table()[226].0@ =~= "yellow1"@);
    } else if j == 227 {
        reveal_strlit("lightgoldenrod1");
        assert(color_table()[227].0@ =~= "lightgoldenrod1"@);
    } else if j == 228 {
        reveal_strlit("khaki1");
        assert(color_table()[228].0@ =~= "khaki1"@);
    } else if j == 229 {
        reveal_strlit("wheat1");
        assert(color_table()[229].0@ =~= "wheat1"@);
    } else if j == 230 {
        reveal_strlit("cornsilk1");
        assert(color_table()[230].0@ =~= "cornsilk1"@);
    } else if j == 231 {
        reveal_strlit("grey100");
        assert(color_table()[231].0@ =~= "grey100"@);
    } else if j == 232 {
        reveal_strlit("grey3");
        assert(color_table()[232].0@ =~= "grey3"@);
    } else if j == 233 {
        reveal_strlit("grey7");
        assert(color_table()[233].0@ =~= "grey7"@);
    } else if j == 234 {
        reveal_strlit("grey11");
        assert(color_table()[234].0@ =~= "grey11"@);
    } else if j == 235 {
        reveal_strlit("grey15");
        assert(color_table()[235].0@ =~= "grey15"@);
    } else if j == 236 {
        reveal_strlit("grey19");
        assert(color_table()[236].0@ =~= "grey19"@);
    } else if j == 237 {
        reveal_strlit("grey23");
        assert(color_table()[237].0@ =~= "grey23"@);
    } else if j == 238 {
        reveal_strlit("grey27");
        assert(color_table()[238].0@ =~= "grey27"@);
    } else if j == 239 {
        reveal_strlit("grey30");
        assert(color_table()[239].0@ =~= "grey30"@);
    } else if j == 240 {
        reveal_strlit("grey35");
        assert(color_table()[240].0@ =~= "grey35"@);
    } else if j == 241 {
        reveal_strlit("grey39");
        assert(color_table()[241].0@ =~= "grey39"@);
    } else if j == 242 {
        reveal_strlit("grey42");
        assert(color_table()[242].0@ =~= "grey42"@);
    } else if j == 243 {
        reveal_strlit("grey46");
        assert(color_table()[243].0@ =~= "grey46"@);
    } else if j == 244 {
        reveal_strlit("grey50");
        assert(color_table()[244].0@ =~= "grey50"@);
    } else if j == 245 {
        reveal_strlit("grey54");
        assert(color_table()[245].0@ =~= "grey54"@);
    } else if j == 246 {
        reveal_strlit("grey58");
        assert(color_table()[246].0@ =~= "grey58"@);
    } else if j == 247 {
        reveal_strlit("grey62");
        assert(color_table()[247].0@ =~= "grey62"@);
    } else if j == 248 {
        reveal_strlit("grey66");
        assert(color_table()[248].0@ =~= "grey66"@);
    } else if j == 249 {
        reveal_strlit("grey70");
        assert(color_table()[249].0@ =~= "grey70"@);
    } else if j == 250 {
        reveal_strlit("grey74");
        assert(color_table()[250].0@ =~= "grey74"@);
    } else if j == 251 {
        reveal_strlit("grey78");
        assert(color_table()[251].0@ =~= "grey78"@);
    } else if j == 252 {
        reveal_strlit("grey82");
        assert(color_table()[252].0@ =~= "grey82"@);
    } else if j == 253 {
        reveal_strlit("grey85");
        assert(color_table()[253].0@ =~= "grey85"@);
    } else if j == 254 {
        reveal_strlit("grey89");
        assert(color_table()[254].0@ =~= "grey89"@);
    } else if j == 255 {
        reveal_strlit("grey93");
        assert(color_table()[255].0@ =~= "grey93"@);
    }
}

/// Every palette entry is named by a plain word.
pub proof fn lemma_palette_names_plain(j: int)
    requires
        0 <= j < color_table().len(),
    ensures
        is_plain_name(color_table()[j].0@),
{
    assert(color_table().len() == 256);
    if j < 64 {
        lemma_names_plain_0(j);
    } else if j < 128 {
        lemma_names_plain_1(j);
    } else if j < 192 {
        lemma_names_plain_2(j);
    } else {
        lemma_names_plain_3(j);
    }
}

} // verus!
