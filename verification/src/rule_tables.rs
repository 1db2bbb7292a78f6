//! Node and weight tables of the Gauss-Kronrod rules.
//!
//! Each rule pairs an `n`-point Gauss rule with its `2n + 1`-point Kronrod
//! extension on `[-1, 1]`. The tables hold the non-negative abscissae in
//! descending order, the centre last, as multiples of `2^-56`; the abscissae at
//! odd places are those of the Gauss rule. A weight table holds the weight of
//! each abscissa in the same unit, and the Gauss table holds zero where the
//! abscissa belongs to the Kronrod extension only. The weights of either rule
//! sum to two over the whole interval, exactly.
use vstd::prelude::*;

verus! {

/// Number of fractional bits of the table entries.
pub const TABLE_BITS: u32 = 56;

/// The table representation of the real number one.
pub const TABLE_ONE: u64 = 0x100_0000_0000_0000;

/// The Gauss-Kronrod rules, named by the number of points of the Kronrod
/// extension.
#[derive(Clone, Copy, Debug, PartialEq, Eq, Structural)]
pub enum GaussKronrodRule {
    Gauss15,
    Gauss21,
    Gauss31,
    Gauss41,
    Gauss51,
    Gauss61,
}

/// Abscissae of the 15-point Kronrod rule.
pub const NODES_15: [u64; 8] = [
    0xfdd004ea684d8a,
    0xf2f8bc73e3114b,
    0xdd67c13dcdd9ee,
    0xbdd4fcdf1d0eaf,
    0x9609d024efd11f,
    0x67e577c467f587,
    0x353165125c18ed,
    0x0,
];

/// Weights of the 15-point Kronrod rule.
pub const KRONROD_WEIGHTS_15: [u64; 8] = [
    0x5df16d9f55d1c,
    0x1026cdaa7b61c4,
    0x1ad384a34814c6,
    0x2401da1e8dd182,
    0x2b43e4cdc8fab7,
    0x30bad0c3901d61,
    0x3455b797d939b0,
    0x35a09f210e1220,
];

/// Weights of the 7-point Gauss rule, at the places of its abscissae.
pub const GAUSS_WEIGHTS_15: [u64; 8] = [
    0x0,
    0x2125ed3f04daad,
    0x0,
    0x479ac5c4f61912,
    0x0,
    0x61bf9d3b8cacf6,
    0x0,
    0x6aff5f80f0be96,
];

/// Abscissae of the 21-point Kronrod rule.
pub const NODES_21: [u64; 11] = [
    0xfee36349395727,
    0xf951f0315796be,
    0xee1ecd25808e2f,
    0xdd74caf4e59796,
    0xc7e3aba7d3630f,
    0xadedc9146f0cbe,
    0x9010da00fe0901,
    0x6ef3002405ab6e,
    0x4b5d54a57a84dc,
    0x261ca0f123c4f4,
    0x0,
];

/// Weights of the 21-point Kronrod rule.
pub const KRONROD_WEIGHTS_21: [u64; 11] = [
    0x2fe6b7b795108,
    0x855bb5254a021,
    0xe047b810cccd1,
    0x1335ccd53722e5,
    0x17d711dddcb389,
    0x1c00cbfda8818f,
    0x1f9d2b8f5d2dde,
    0x227c4da2d291a7,
    0x248cf6c2d81c0a,
    0x25d23adfe43d6a,
    0x26421056f9a220,
];

/// Weights of the 10-point Gauss rule, at the places of its abscissae.
pub const GAUSS_WEIGHTS_21: [u64; 11] = [
    0x0,
    0x11115f8b62dc1f,
    0x0,
    0x26427190f1dfca,
    0x0,
    0x38160b3a017862,
    0x0,
    0x44eea9e9566ff8,
    0x0,
    0x4ba779c0535bbd,
    0x0,
];

/// Abscissae of the 31-point Kronrod rule.
pub const NODES_31: [u64; 16] = [
    0xff7d1422389117,
    0xfced13e1973684,
    0xf7bdbf811a6974,
    0xeff12627c5a23d,
    0xe5b320de47501a,
    0xd924110fffeb19,
    0xca58ddedd945b7,
    0xb97370c0d59e1e,
    0xa6a7b8f1accb64,
    0x922b3b78479d21,
    0x7c2e533437b213,
    0x64e71a495f5ad7,
    0x4c970f9a570416,
    0x338174c5de096b,
    0x19e4724daa6d9e,
    0x0,
];

/// Weights of the 31-point Kronrod rule.
pub const KRONROD_WEIGHTS_31: [u64; 16] = [
    0x1606b2430691f,
    0x3d78f92f5a202,
    0x6849a2298c0c3,
    0x90c7587a1aef6,
    0xb6a3be3ad3823,
    0xdb0f7177cdd5b,
    0xfdfdbe9be339d,
    0x11e1f5ae8e0460,
    0x13ac6bb18ffcb1,
    0x1544c38a8f82f5,
    0x16ac28ca83cf6d,
    0x17d7250d880bad,
    0x18bd93e7ca79c3,
    0x196370e3230056,
    0x19cc0d76f2b149,
    0x19f0c36a3b6312,
];

/// Weights of the 15-point Gauss rule, at the places of its abscissae.
pub const GAUSS_WEIGHTS_31: [u64; 16] = [
    0x0,
    0x7df71c89e8a47,
    0x0,
    0x12038260b5d026,
    0x0,
    0x1b6ec9635f1146,
    0x0,
    0x23bae7692c62c1,
    0x0,
    0x2a909e6150dda3,
    0x0,
    0x2fa83f4edb84ce,
    0x0,
    0x32cc67e3fa059c,
    0x0,
    0x33dc2aebf392fe,
];

/// Abscissae of the 41-point Kronrod rule.
pub const NODES_41: [u64; 21] = [
    0xffb539b9fc62dc,
    0xfe3dad0638e703,
    0xfb4419aa6a4a98,
    0xf6c6dd3debb4f7,
    0xf0d9c08ba4db35,
    0xe988320b9fec8d,
    0xe0d6bfc529e949,
    0xd6d05eaf7eb73b,
    0xcb87d5c7d28865,
    0xbf0f9b9a352a70,
    0xb17805e6503de5,
    0xa2d469fd3886d8,
    0x933c6781b28e3f,
    0x82c82e09fbffb6,
    0x718f5284610e18,
    0x5fab33c5594b11,
    0x4d377be51da1f5,
    0x3a502c6d251781,
    0x271126da668f89,
    0x13973df98b86b0,
    0x0,
];

/// Weights of the 41-point Kronrod rule.
pub const KRONROD_WEIGHTS_41: [u64; 21] = [
    0xc96e2d8d74d1,
    0x233a095c44a74,
    0x3be8a669fdc19,
    0x5382c253c1a27,
    0x6a03625624bb7,
    0x80271e7632475,
    0x95ea0f423b7a0,
    0xaaacfb0346eab,
    0xbe3270951055e,
    0xd0ab41ee93bd4,
    0xe2144345ec301,
    0xf21ecbd9a6446,
    0x100a0ae6494b3a,
    0x10da8941a25caa,
    0x1192f59d244d10,
    0x12309f6965eec2,
    0x12b223aa956842,
    0x1317dd02afd144,
    0x13615eb5b71c80,
    0x138d7ffbca307e,
    0x139c1ab089c2a2,
];

/// Weights of the 20-point Gauss rule, at the places of its abscissae.
pub const GAUSS_WEIGHTS_41: [u64; 21] = [
    0x0,
    0x4825a009d3a2c,
    0x0,
    0xa64daf529db40,
    0x0,
    0x100b467df7e475,
    0x0,
    0x15519fe196e24a,
    0x0,
    0x1a1817a317a821,
    0x0,
    0x1e41ff31573b48,
    0x0,
    0x21b658bb64dbfd,
    0x0,
    0x2460691e694a6b,
    0x0,
    0x2630336a58b324,
    0x0,
    0x271ad8921466e0,
    0x0,
];

/// Abscissae of the 51-point Kronrod rule.
pub const NODES_51: [u64; 26] = [
    0xffcfa42d134bf2,
    0xfedcd2528e17b6,
    0xfcefe9f0cd1de4,
    0xfa06a591da0ba7,
    0xf62c66560adfcf,
    0xf166c810635861,
    0xebb6153c0570a4,
    0xe51e321111a30b,
    0xdda8273cc5ae98,
    0xd55c7f019ebbaa,
    0xcc41750cbd2674,
    0xc25ed0a7ee3614,
    0xb7bf8a0b6dfc2b,
    0xac6ed874476ea5,
    0xa076a06c0d4513,
    0x93e1b7c17f6189,
    0x86bd40fb46887b,
    0x7916b4fe7a5f4b,
    0x6afa8951fedce2,
    0x5c75c9c9ac175e,
    0x4d9746a978050b,
    0x3e6e0f6228b979,
    0x2f083454781e28,
    0x1f740f7c98999e,
    0xfc16115c23692,
    0x0,
];

/// Weights of the 51-point Kronrod rule.
pub const KRONROD_WEIGHTS_51: [u64; 26] = [
    0x823ec4d278cf,
    0x16c81bc9fb9c8,
    0x26ce2e5db56be,
    0x3637313847071,
    0x450237a11d644,
    0x53b40a2c0d0fc,
    0x625840b291d46,
    0x7089f567cae72,
    0x7e201123002ec,
    0x8b45d1585c78b,
    0x98073b42bb4c7,
    0xa42eeffa36d84,
    0xaf9b6fb3f83ee,
    0xba614336c11be,
    0xc489563ca5840,
    0xcdeff7b5ed648,
    0xd67a772100d49,
    0xde366eca4711e,
    0xe52cad86057de,
    0xeb432e859778b,
    0xf0649704f1343,
    0xf49d50c992b58,
    0xf7f8384f5304f,
    0xfa61e3616849e,
    0xfbc936e24dbc1,
    0xfc3c2afa98a66,
];

/// Weights of the 25-point Gauss rule, at the places of its abscissae.
pub const GAUSS_WEIGHTS_51: [u64; 26] = [
    0x0,
    0x2eab437f06a48,
    0x0,
    0x6bf334d991bd2,
    0x0,
    0xa7afd13286e17,
    0x0,
    0xe0e3bf19cefdc,
    0x0,
    0x116af5d2993100,
    0x0,
    0x148419d7047213,
    0x0,
    0x174da0d03a8230,
    0x0,
    0x19bcb95550b7c7,
    0x0,
    0x1bc7f12e17567f,
    0x0,
    0x1d6759d2b4d1ad,
    0x0,
    0x1e94a725b474a6,
    0x0,
    0x1f4b47ded39736,
    0x0,
    0x1f8877426815c2,
];

/// Abscissae of the 61-point Kronrod rule.
pub const NODES_61: [u64; 31] = [
    0xffde35d607599b,
    0xff34694fb234b3,
    0xfddb876d421dba,
    0xfbd1ac939aad8b,
    0xf91e26bc589bbb,
    0xf5c3fe317bdae5,
    0xf1c2860b5f8b9d,
    0xed1b7241432b79,
    0xe7d3a6fcb39f44,
    0xe1ef7cbdf7941c,
    0xdb71cd5c0a55fc,
    0xd45e6bfb50b753,
    0xccbaf6a48e3f7b,
    0xc48d0fd17f4139,
    0xbbd9aa605dccd4,
    0xb2a6547ca27c55,
    0xa8f9c30bc96d24,
    0x9edacdce402166,
    0x944ff828f7b6aa,
    0x8960333e838aab,
    0x7e13332f629718,
    0x7270ce1c5faa6a,
    0x6680b256c61eb3,
    0x5a4adb5d4cbe3c,
    0x4dd7bdcb5aef36,
    0x412fe2b63ebbd3,
    0x345bc20f5c7161,
    0x276404c6c986b4,
    0x1a518e345e7929,
    0xd2d423870a09a,
    0x0,
];

/// Weights of the 61-point Kronrod rule.
pub const KRONROD_WEIGHTS_61: [u64; 31] = [
    0x5b07c868d5e5,
    0xfef71b4ea827,
    0x1b28cc077e804,
    0x25fbbd0dd422a,
    0x306d547da979d,
    0x3adbc0e48fe25,
    0x454ed69afac5c,
    0x4f8533d820652,
    0x59685abfd5ed0,
    0x6316459fa4371,
    0x6c95b3d3cf140,
    0x75c6ce312cd11,
    0x7e989bc708358,
    0x87178dc7c94f7,
    0x8f467e8ddc25c,
    0x9711f65fa8d4d,
    0x9e6dd068080ee,
    0xa55fc5c634f0f,
    0xabe88924b2002,
    0xb1fb4a4f20a0e,
    0xb78fb94f2deaa,
    0xbca89ca0d7a3f,
    0xc145a1b5be90e,
    0xc55e89c6052fd,
    0xc8ee59f1adc1e,
    0xcbf68efcd1ee9,
    0xce76707f31f51,
    0xd0696e158cce6,
    0xd1cdaf8dcf1dd,
    0xd2a43443a707b,
    0xd2ec232d0dc6a,
];

/// Weights of the 30-point Gauss rule, at the places of its abscissae.
pub const GAUSS_WEIGHTS_61: [u64; 31] = [
    0x0,
    0x20a34162de485,
    0x0,
    0x4ba37ed780065,
    0x0,
    0x75e6f42fbd97b,
    0x0,
    0x9eebe6f32a008,
    0x0,
    0xc641e18d8acf7,
    0x0,
    0xeb7df19b2d06f,
    0x0,
    0x10e3afe7b90638,
    0x0,
    0x12e1abeb620f4e,
    0x0,
    0x14ac6b18f8353b,
    0x0,
    0x163f10800ed9cb,
    0x0,
    0x179557743c7fbd,
    0x0,
    0x18ab9f1e859c52,
    0x0,
    0x197ef454512ac4,
    0x0,
    0x1a0d1997eea523,
    0x0,
    0x1a548d2c7c13ab,
    0x0,
];

impl GaussKronrodRule {
    /// The number of points of the Gauss rule; the Kronrod extension has twice
    /// as many and one more.
    pub open spec fn gauss_points(self) -> nat {
        match self {
            GaussKronrodRule::Gauss15 => 7,
            GaussKronrodRule::Gauss21 => 10,
            GaussKronrodRule::Gauss31 => 15,
            GaussKronrodRule::Gauss41 => 20,
            GaussKronrodRule::Gauss51 => 25,
            GaussKronrodRule::Gauss61 => 30,
        }
    }

    /// The number of points of the Kronrod extension.
    pub open spec fn points(self) -> nat {
        2 * self.gauss_points() + 1
    }

    /// The number of points of the Gauss rule.
    pub fn half_order(self) -> (n: usize)
        ensures
            n == self.gauss_points(),
    {
        match self {
            GaussKronrodRule::Gauss15 => 7,
            GaussKronrodRule::Gauss21 => 10,
            GaussKronrodRule::Gauss31 => 15,
            GaussKronrodRule::Gauss41 => 20,
            GaussKronrodRule::Gauss51 => 25,
            GaussKronrodRule::Gauss61 => 30,
        }
    }
}

/// The `j`-th table abscissa of a rule.
pub open spec fn table_node(rule: GaussKronrodRule, j: int) -> int {
    match rule {
        GaussKronrodRule::Gauss15 => NODES_15[j] as int,
        GaussKronrodRule::Gauss21 => NODES_21[j] as int,
        GaussKronrodRule::Gauss31 => NODES_31[j] as int,
        GaussKronrodRule::Gauss41 => NODES_41[j] as int,
        GaussKronrodRule::Gauss51 => NODES_51[j] as int,
        GaussKronrodRule::Gauss61 => NODES_61[j] as int,
    }
}

/// The Kronrod weight of the `j`-th table abscissa.
pub open spec fn table_kronrod_weight(rule: GaussKronrodRule, j: int) -> int {
    match rule {
        GaussKronrodRule::Gauss15 => KRONROD_WEIGHTS_15[j] as int,
        GaussKronrodRule::Gauss21 => KRONROD_WEIGHTS_21[j] as int,
        GaussKronrodRule::Gauss31 => KRONROD_WEIGHTS_31[j] as int,
        GaussKronrodRule::Gauss41 => KRONROD_WEIGHTS_41[j] as int,
        GaussKronrodRule::Gauss51 => KRONROD_WEIGHTS_51[j] as int,
        GaussKronrodRule::Gauss61 => KRONROD_WEIGHTS_61[j] as int,
    }
}

/// The Gauss weight of the `j`-th table abscissa.
pub open spec fn table_gauss_weight(rule: GaussKronrodRule, j: int) -> int {
    match rule {
        GaussKronrodRule::Gauss15 => GAUSS_WEIGHTS_15[j] as int,
        GaussKronrodRule::Gauss21 => GAUSS_WEIGHTS_21[j] as int,
        GaussKronrodRule::Gauss31 => GAUSS_WEIGHTS_31[j] as int,
        GaussKronrodRule::Gauss41 => GAUSS_WEIGHTS_41[j] as int,
        GaussKronrodRule::Gauss51 => GAUSS_WEIGHTS_51[j] as int,
        GaussKronrodRule::Gauss61 => GAUSS_WEIGHTS_61[j] as int,
    }
}

/// The `j`-th table abscissa of a rule, at most one.
pub fn node(rule: GaussKronrodRule, j: usize) -> (r: u64)
    requires
        j <= rule.gauss_points(),
    ensures
        r == table_node(rule, j as int),
        r <= TABLE_ONE,
{
    match rule {
        GaussKronrodRule::Gauss15 => NODES_15[j],
        GaussKronrodRule::Gauss21 => NODES_21[j],
        GaussKronrodRule::Gauss31 => NODES_31[j],
        GaussKronrodRule::Gauss41 => NODES_41[j],
        GaussKronrodRule::Gauss51 => NODES_51[j],
        GaussKronrodRule::Gauss61 => NODES_61[j],
    }
}

/// The Kronrod weight of the `j`-th table abscissa, at most one.
pub fn kronrod_weight(rule: GaussKronrodRule, j: usize) -> (r: u64)
    requires
        j <= rule.gauss_points(),
    ensures
        r == table_kronrod_weight(rule, j as int),
        r <= TABLE_ONE,
{
    match rule {
        GaussKronrodRule::Gauss15 => KRONROD_WEIGHTS_15[j],
        GaussKronrodRule::Gauss21 => KRONROD_WEIGHTS_21[j],
        GaussKronrodRule::Gauss31 => KRONROD_WEIGHTS_31[j],
        GaussKronrodRule::Gauss41 => KRONROD_WEIGHTS_41[j],
        GaussKronrodRule::Gauss51 => KRONROD_WEIGHTS_51[j],
        GaussKronrodRule::Gauss61 => KRONROD_WEIGHTS_61[j],
    }
}

/// The Gauss weight of the `j`-th table abscissa, at most one.
pub fn gauss_weight(rule: GaussKronrodRule, j: usize) -> (r: u64)
    requires
        j <= rule.gauss_points(),
    ensures
        r == table_gauss_weight(rule, j as int),
        r <= TABLE_ONE,
{
    match rule {
        GaussKronrodRule::Gauss15 => GAUSS_WEIGHTS_15[j],
        GaussKronrodRule::Gauss21 => GAUSS_WEIGHTS_21[j],
        GaussKronrodRule::Gauss31 => GAUSS_WEIGHTS_31[j],
        GaussKronrodRule::Gauss41 => GAUSS_WEIGHTS_41[j],
        GaussKronrodRule::Gauss51 => GAUSS_WEIGHTS_51[j],
        GaussKronrodRule::Gauss61 => GAUSS_WEIGHTS_61[j],
    }
}

} // verus!
