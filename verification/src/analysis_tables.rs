//! Tables that turn the samples of a Clenshaw-Curtis rule into the
//! coefficients of its interpolating polynomial.
//!
//! The polynomial of degree `n` through the `n + 1` samples of the rule of
//! degree `n` is a sum of Legendre polynomials, scaled so that the square root
//! of the sum of the squares of the coefficients is the norm of the polynomial
//! over `[-1, 1]`. A coefficient is a weighted sum of the samples. The matrix of
//! a rule holds, in its row `k`, the weights of the samples in the coefficient
//! of the polynomial of degree `k`, the samples counted by ascending abscissa,
//! as multiples of `2^-48`. The first row of every matrix sums to the square
//! root of two and every other row to zero, exactly: a constant has but its
//! first coefficient.
use crate::curtis_tables::tabulated;
use vstd::prelude::*;

verus! {

/// The number of binary places of the entries of the matrices.
pub const ANALYSIS_BITS: u32 = 48;

/// The number one in the unit of the entries.
pub const ANALYSIS_ONE: i128 = 0x1_0000_0000_0000;

/// The square root of two in the unit of the entries: the sum of the first row
/// of every matrix.
pub const ANALYSIS_ROOT_TWO: i64 = 0x16a09e667f3bd;

/// The matrix of the rule of degree 2, row after row.
pub const ANALYSIS_2: [i64; 9] = [
    0x3c56fbbbfdf5,
    0xf15beeeff7d3,
    0x3c56fbbbfdf5,
    -0x6882f5c030b1,
    0x0,
    0x6882f5c030b1,
    0x35f833b0c0c3,
    -0x6bf067618186,
    0x35f833b0c0c3,
];

/// The matrix of the rule of degree 4, row after row.
pub const ANALYSIS_4: [i64; 25] = [
    0xc11658bff97,
    0x608b2c5ffcbb,
    0x90d0c28ffb19,
    0x608b2c5ffcbb,
    0xc11658bff97,
    -0x14e6fdf33cf0,
    -0x763dc8239ae1,
    0x0,
    0x763dc8239ae1,
    0x14e6fdf33cf0,
    0x268cb7351bf9,
    0x1ed6f8f74994,
    -0x8ac76058cb1a,
    0x1ed6f8f74994,
    0x268cb7351bf9,
    -0x36bc2faacd41,
    0x4d6839487fe6,
    0x0,
    -0x4d6839487fe6,
    0x36bc2faacd41,
    0x1b957a64915a,
    -0x372af4c922b4,
    0x372af4c922b4,
    -0x372af4c922b4,
    0x1b957a64915a,
];

/// The matrix of the rule of degree 8, row after row.
pub const ANALYSIS_8: [i64; 81] = [
    0x2df92152479,
    0x1a77e93ec65e,
    0x32920b0db525,
    0x417a5965c8ce,
    0x474226d92229,
    0x417a5965c8ce,
    0x32920b0db525,
    0x1a77e93ec65e,
    0x2df92152479,
    -0x4fa0bb3d18f,
    -0x2a5adb07cec2,
    -0x3def9998bed7,
    -0x2b668a456594,
    0x0,
    0x2b668a456594,
    0x3def9998bed7,
    0x2a5adb07cec2,
    0x4fa0bb3d18f,
    0x6c68064dfae,
    0x2d7ba90ffdb4,
    0x1cf87d456426,
    -0x29beb1ac32d8,
    -0x4ef7ea1c1d60,
    -0x29beb1ac32d8,
    0x1cf87d456426,
    0x2d7ba90ffdb4,
    0x6c68064dfae,
    -0x84b0efad948,
    -0x27bbef9bbb96,
    0x16acc09e49ab,
    0x4bb342d9c258,
    0x0,
    -0x4bb342d9c258,
    -0x16acc09e49ab,
    0x27bbef9bbb96,
    0x84b0efad948,
    0xa9bf3ff4b99,
    0x1922c4721cd2,
    -0x3b0693548403,
    -0x116b875b5a34,
    0x5166c47ceb98,
    -0x116b875b5a34,
    -0x3b0693548403,
    0x1922c4721cd2,
    0xa9bf3ff4b99,
    -0xccb900d2eb1,
    -0x65d57f75466,
    0x3c5126914bfa,
    -0x3ea67c1c5d59,
    0x0,
    0x3ea67c1c5d59,
    -0x3c5126914bfa,
    0x65d57f75466,
    0xccb900d2eb1,
    0x1466abc9cecd,
    -0x1881795e3bf6,
    -0xed64e64394f,
    0x362e1626ae94,
    -0x4679f45c1038,
    0x362e1626ae94,
    -0xed64e64394f,
    -0x1881795e3bf6,
    0x1466abc9cecd,
    -0x1be40fd82bca,
    0x33891d34c189,
    -0x277192867612,
    0x1558c44bfc77,
    0x0,
    -0x1558c44bfc77,
    0x277192867612,
    -0x33891d34c189,
    0x1be40fd82bca,
    0xdf9062f2e5e,
    -0x1bf20c5e5cbc,
    0x1bf20c5e5cbd,
    -0x1bf20c5e5cbd,
    0x1bf20c5e5cbd,
    -0x1bf20c5e5cbd,
    0x1bf20c5e5cbd,
    -0x1bf20c5e5cbd,
    0xdf9062f2e5e,
];

/// The matrix of the rule of degree 16, row after row.
pub const ANALYSIS_16: [i64; 289] = [
    0xb5baade1dc,
    0x6c3b3813336,
    0xda9ec46a2cb,
    0x13b6c969a431,
    0x19275fefe8c3,
    0x1d8993870186,
    0x20d9aae57572,
    0x22d9467f14ef,
    0x238dd4f2524d,
    0x22d9467f14ef,
    0x20d9aae57572,
    0x1d8993870186,
    0x19275fefe8c3,
    0x13b6c969a431,
    0xda9ec46a2cb,
    0x6c3b3813336,
    0xb5baade1dc,
    -0x13ac3a4e578,
    -0xb7dc30d4d1e,
    -0x15dd65f7ccba,
    -0x1c641e2fff11,
    -0x1ece97593e8f,
    -0x1c6c5288ace3,
    -0x15c627ed7cb4,
    -0xbc68e3bac68,
    0x0,
    0xbc68e3bac68,
    0x15c627ed7cb4,
    0x1c6c5288ace3,
    0x1ece97593e8f,
    0x1c641e2fff11,
    0x15dd65f7ccba,
    0xb7dc30d4d1e,
    0x13ac3a4e578,
    0x19b4b5ea3a4,
    0xe3943e1f0a7,
    0x17e14bb941ee,
    0x17a24b1e53aa,
    0xe19974ae955,
    -0x27bafe0a4ff,
    -0x148d9eecab34,
    -0x228d49f1370e,
    -0x27b6494917ee,
    -0x228d49f1370e,
    -0x148d9eecab34,
    -0x27bafe0a4ff,
    0xe19974ae955,
    0x17a24b1e53aa,
    0x17e14bb941ee,
    0xe3943e1f0a7,
    0x19b4b5ea3a4,
    -0x1ea8b168fff,
    -0xfcef414e3a1,
    -0x153dcb3e8aa7,
    -0x9d70ea8df20,
    0xbb5fa2b23cc,
    0x1faa4d620cd5,
    0x25af2ff77e93,
    0x1948dca56921,
    0x0,
    -0x1948dca56921,
    -0x25af2ff77e93,
    -0x1faa4d620cd5,
    -0xbb5fa2b23cc,
    0x9d70ea8df20,
    0x153dcb3e8aa7,
    0xfcef414e3a1,
    0x1ea8b168fff,
    0x23843685ef2,
    0x1062b6590914,
    0xefaff809e07,
    -0x79d439f7e56,
    -0x1e8d26652d7a,
    -0x207a67656701,
    -0x7dddd5f1c36,
    0x18e92a965ddb,
    0x280715e1963e,
    0x18e92a965ddb,
    -0x7dddd5f1c36,
    -0x207a67656701,
    -0x1e8d26652d7a,
    -0x79d439f7e56,
    0xefaff809e07,
    0x1062b6590914,
    0x23843685ef2,
    -0x27ee3081e82,
    -0x10207adedf32,
    -0x63d5304dc97,
    0x167780fdebda,
    0x1f3ecd88fde4,
    0x426bb67b284,
    -0x1fcd179ddeab,
    -0x23071a9474b9,
    0x0,
    0x23071a9474b9,
    0x1fcd179ddeab,
    -0x426bb67b284,
    -0x1f3ecd88fde4,
    -0x167780fdebda,
    0x63d5304dc97,
    0x10207adedf32,
    0x27ee3081e82,
    0x2ce07baa294,
    0xf01466363e8,
    -0x36806b576c5,
    -0x1db68b7ff7b7,
    -0xd53c71edb92,
    0x1bd2ce77e82e,
    0x203de6904389,
    -0xb700f8008aa,
    -0x27fb34a3bef6,
    -0xb700f8008aa,
    0x203de6904389,
    0x1bd2ce77e82e,
    -0xd53c71edb92,
    -0x1db68b7ff7b7,
    -0x36806b576c5,
    0xf01466363e8,
    0x2ce07baa294,
    -0x318e9bdc1ab,
    -0xd3760a8a418,
    0xc85fbe62ec8,
    0x1acc1352795d,
    -0xc798fb6e3c1,
    -0x22fdf0b59fce,
    0x73783ca4ae6,
    0x2782f8fc8de0,
    0x0,
    -0x2782f8fc8de0,
    -0x73783ca4ae6,
    0x22fdf0b59fce,
    0xc798fb6e3c1,
    -0x1acc1352795d,
    -0xc85fbe62ec8,
    0xd3760a8a418,
    0x318e9bdc1ab,
    0x37788457372,
    0xaada3cb618e,
    -0x138137dc0616,
    -0xeed01d924ae,
    0x1f1fe9748ff6,
    0xac872caac77,
    -0x259795d7775f,
    -0x41faacf6161,
    0x282fe417e42e,
    -0x41faacf6161,
    -0x259795d7775f,
    0xac872caac77,
    0x1f1fe9748ff6,
    -0xeed01d924ae,
    -0x138137dc0616,
    0xaada3cb618e,
    0x37788457372,
    -0x3d3157bb7dc,
    -0x7b12d248224,
    0x1774b64b2ffe,
    -0x2069bc578e7,
    -0x1f780d0b0cde,
    0x170b1df68bae,
    0x1581ec47c648,
    -0x25ebde983592,
    0x0,
    0x25ebde983592,
    -0x1581ec47c648,
    -0x170b1df68bae,
    0x1f780d0b0cde,
    0x2069bc578e7,
    -0x1774b64b2ffe,
    0x7b12d248224,
    0x3d3157bb7dc,
    0x45932511b2f,
    0x408dc58410f,
    -0x176c2781e264,
    0x11f0ec8e5232,
    0xdab03894b90,
    -0x24b65a1021e5,
    0x15842d816641,
    0x128c852a86e9,
    -0x27d85fb5c5c2,
    0x128c852a86e9,
    0x15842d816641,
    -0x24b65a1021e5,
    0xdab03894b90,
    0x11f0ec8e5232,
    -0x176c2781e264,
    0x408dc58410f,
    0x45932511b2f,
    -0x4dccb8ab4f8,
    -0x36549e1d9b,
    0x13c5fa9fa102,
    -0x1bc72352237d,
    0xc2a908b360c,
    0x11b3b20899eb,
    -0x25f68a2646c5,
    0x1eb31d6e2749,
    0x0,
    -0x1eb31d6e2749,
    0x25f68a2646c5,
    -0x11b3b20899eb,
    -0xc2a908b360c,
    0x1bc72352237d,
    -0x13c5fa9fa102,
    0x36549e1d9b,
    0x4dccb8ab4f8,
    0x5d3b6058917,
    -0x489e0b96952,
    -0xc28b8e2951d,
    0x1b4a1c3f25b0,
    -0x1df11986c84e,
    0x102599f165fa,
    0x86e06f3850e,
    -0x1f707199023b,
    0x28c563245e52,
    -0x1f707199023b,
    0x86e06f3850e,
    0x102599f165fa,
    -0x1df11986c84e,
    0x1b4a1c3f25b0,
    -0xc28b8e2951d,
    -0x489e0b96952,
    0x5d3b6058917,
    -0x6c842652d2e,
    0x91bc1ab2d09,
    0x2acacc5925b,
    -0x1190d409c613,
    0x1e251a1963d5,
    -0x23a1e43fdffd,
    0x1f85544f4112,
    -0x12721a3c72ef,
    0x0,
    0x12721a3c72ef,
    -0x1f85544f4112,
    0x23a1e43fdffd,
    -0x1e251a1963d5,
    0x1190d409c613,
    -0x2acacc5925b,
    -0x91bc1ab2d09,
    0x6c842652d2e,
    0xa6e1a1d5d19,
    -0x12b85075db17,
    0xca00e6e8179,
    -0x380f722a557,
    -0x741765735a2,
    0x1203e3d1109b,
    -0x1b22fb1cecbe,
    0x213b3d24465b,
    -0x235f20e92574,
    0x213b3d24465b,
    -0x1b22fb1cecbe,
    0x1203e3d1109b,
    -0x741765735a2,
    -0x380f722a557,
    0xca00e6e8179,
    -0x12b85075db17,
    0xa6e1a1d5d19,
    -0xe10d58bc6e8,
    0x1b974a507c1b,
    -0x19fd7955fcd5,
    0x1763f7e746ab,
    -0x13e45937ff34,
    0xfa10855468f,
    -0xac3f58b2774,
    0x57cf9cd952c,
    0x0,
    -0x57cf9cd952c,
    0xac3f58b2774,
    -0xfa10855468f,
    0x13e45937ff34,
    -0x1763f7e746ab,
    0x19fd7955fcd5,
    -0x1b974a507c1b,
    0xe10d58bc6e8,
    0x7094bfd777d,
    -0xe1297faeefa,
    0xe1297faeefb,
    -0xe1297faeefb,
    0xe1297faeefb,
    -0xe1297faeefb,
    0xe1297faeefb,
    -0xe1297faeefb,
    0xe1297faeefb,
    -0xe1297faeefb,
    0xe1297faeefb,
    -0xe1297faeefb,
    0xe1297faeefb,
    -0xe1297faeefb,
    0xe1297faeefb,
    -0xe1297faeefb,
    0x7094bfd777d,
];

/// The rows 0 to 7 of the matrix of the rule of degree 32.
pub const ANALYSIS_32_LOWEST: [i64; 264] = [
    0x2d4c8ff0fb,
    0x1b34a2ae8ed,
    0x37b554c15a9,
    0x526c4532d52,
    0x6ce28533072,
    0x85fdc41de58,
    0x9e0219bca99,
    0xb45bfabd2d9,
    0xc9156fde6da,
    0xdbc8703e16e,
    0xec708f60894,
    0xfac15db88d7,
    0x106b684e2152,
    0x11016b505475,
    0x116e47220a51,
    0x11af6d466f43,
    0x11c5b045cf63,
    0x11af6d466f43,
    0x116e47220a51,
    0x11016b505475,
    0x106b684e2152,
    0xfac15db88d7,
    0xec708f60894,
    0xdbc8703e16e,
    0xc9156fde6da,
    0xb45bfabd2d9,
    0x9e0219bca99,
    0x85fdc41de58,
    0x6ce28533072,
    0x526c4532d52,
    0x37b554c15a9,
    0x1b34a2ae8ed,
    0x2d4c8ff0fb,
    -0x4e75d5c596,
    -0x2ee503eef59,
    -0x5ea2b8722a7,
    -0x889d0cc3ad8,
    -0xae3cfb94ee4,
    -0xccad0f74ac6,
    -0xe38e1da1c44,
    -0xf17b5b8d644,
    -0xf646ba18f19,
    -0xf17f719941e,
    -0xe3852c3f85c,
    -0xccbccc685c4,
    -0xae221efea77,
    -0x88cd89a18fe,
    -0x5e3d4ff8f1c,
    -0x3009fd0a52d,
    0x0,
    0x3009fd0a52d,
    0x5e3d4ff8f1c,
    0x88cd89a18fe,
    0xae221efea77,
    0xccbccc685c4,
    0xe3852c3f85c,
    0xf17f719941e,
    0xf646ba18f19,
    0xf17b5b8d644,
    0xe38e1da1c44,
    0xccad0f74ac6,
    0xae3cfb94ee4,
    0x889d0cc3ad8,
    0x5ea2b8722a7,
    0x2ee503eef59,
    0x4e75d5c596,
    0x6597581111,
    0x3beb63a21dd,
    0x757e507c570,
    0xa0f8674e4a1,
    0xbe070693fd8,
    0xc7b5515d348,
    0xbdc5eca1ccb,
    0x9fcbb94064b,
    0x707257a8471,
    0x32eaccb42d2,
    -0x1387ec321f5,
    -0x5d7e9d8f591,
    -0xa4a40c9e028,
    -0xe3571e4237a,
    -0x1142bc0898a8,
    -0x13348616888c,
    -0x13de1b913c38,
    -0x13348616888c,
    -0x1142bc0898a8,
    -0xe3571e4237a,
    -0xa4a40c9e028,
    -0x5d7e9d8f591,
    -0x1387ec321f5,
    0x32eaccb42d2,
    0x707257a8471,
    0x9fcbb94064b,
    0xbdc5eca1ccb,
    0xc7b5515d348,
    0xbe070693fd8,
    0xa0f8674e4a1,
    0x757e507c570,
    0x3beb63a21dd,
    0x6597581111,
    -0x7870c2c4da,
    -0x45d6b6b4011,
    -0x82e039c91b9,
    -0xa4a60db18d7,
    -0xa8c7415199d,
    -0x8ae52d231d2,
    -0x4f6fbb2714d,
    0x2522258d1d,
    0x5dff01e7c56,
    0xb63ada290b4,
    0xfd17e472e30,
    0x127685d79b5f,
    0x12d93a9e703f,
    0x10d7438a5e39,
    0xca37db96eeb,
    0x6c50e2cb24f,
    0x0,
    -0x6c50e2cb24f,
    -0xca37db96eeb,
    -0x10d7438a5e39,
    -0x12d93a9e703f,
    -0x127685d79b5f,
    -0xfd17e472e30,
    -0xb63ada290b4,
    -0x5dff01e7c56,
    -0x2522258d1d,
    0x4f6fbb2714d,
    0x8ae52d231d2,
    0xa8c7415199d,
    0xa4a60db18d7,
    0x82e039c91b9,
    0x45d6b6b4011,
    0x7870c2c4da,
    0x89400b7d76,
    0x4d8fbb98ce4,
    0x888b29a3f01,
    0x969cda857c1,
    0x7643bd24151,
    0x2a0e0c2ade5,
    -0x3bd552e4b2d,
    -0xa4696362dc5,
    -0xf4f993759b4,
    -0x118b1313feb4,
    -0x1034db6b1ce6,
    -0xb64ea6d327a,
    -0x3f479286cf9,
    0x497c9702783,
    0xc7ab4ebd627,
    0x12011e1e4dee,
    0x13fec3336392,
    0x12011e1e4dee,
    0xc7ab4ebd627,
    0x497c9702783,
    -0x3f479286cf9,
    -0xb64ea6d327a,
    -0x1034db6b1ce6,
    -0x118b1313feb4,
    -0xf4f993759b4,
    -0xa4696362dc5,
    -0x3bd552e4b2d,
    0x2a0e0c2ade5,
    0x7643bd24151,
    0x969cda857c1,
    0x888b29a3f01,
    0x4d8fbb98ce4,
    0x89400b7d76,
    -0x98571e18ee,
    -0x53906c62400,
    -0x873f817c7eb,
    -0x79b10357620,
    -0x302b54002fa,
    0x417c3299deb,
    0xb2a9d99da49,
    0xfa9512701a3,
    0xfa7229a2250,
    0xab9a7ccbb5b,
    0x20dcefaafaa,
    -0x7d3be5dae87,
    -0xfe3f76db65d,
    -0x138ac4af28ea,
    -0x1184fc98c41a,
    -0xa4d04115150,
    0x0,
    0xa4d04115150,
    0x1184fc98c41a,
    0x138ac4af28ea,
    0xfe3f76db65d,
    0x7d3be5dae87,
    -0x20dcefaafaa,
    -0xab9a7ccbb5b,
    -0xfa7229a2250,
    -0xfa9512701a3,
    -0xb2a9d99da49,
    -0x417c3299deb,
    0x302b54002fa,
    0x79b10357620,
    0x873f817c7eb,
    0x53906c62400,
    0x98571e18ee,
    0xa6cce55399,
    0x57fbd9f5f6e,
    0x7fb3ad3efa1,
    0x512aee8c4cd,
    -0x1dabd4ebe66,
    -0x9d4db9fcec9,
    -0xec113e5afb1,
    -0xdd79140c675,
    -0x6b84ef4d532,
    0x4012ef76e71,
    0xdf6528ded39,
    0x12c2ad309f5b,
    0x1015f975ab9f,
    0x6b378054677,
    -0x5ae7b6e217a,
    -0x10065c3a6333,
    -0x14055f7feeb8,
    -0x10065c3a6333,
    -0x5ae7b6e217a,
    0x6b378054677,
    0x1015f975ab9f,
    0x12c2ad309f5b,
    0xdf6528ded39,
    0x4012ef76e71,
    -0x6b84ef4d532,
    -0xdd79140c675,
    -0xec113e5afb1,
    -0x9d4db9fcec9,
    -0x1dabd4ebe66,
    0x512aee8c4cd,
    0x7fb3ad3efa1,
    0x57fbd9f5f6e,
    0xa6cce55399,
    -0xb4445f8ace,
    -0x5b08043f865,
    -0x727b9f77b81,
    -0x2124eaefa04,
    0x66e62dc5792,
    0xd334490880a,
    0xd4bbdae96b4,
    0x5ab66bd2bae,
    -0x6302e707fff,
    -0xfcd9e2a25b1,
    -0x1187b9d2a755,
    -0x9cec3d3a334,
    0x3a0071677b5,
    0xfae00929717,
    0x13bf34d9b4f4,
    0xd719c2c232c,
    0x0,
    -0xd719c2c232c,
    -0x13bf34d9b4f4,
    -0xfae00929717,
    -0x3a0071677b5,
    0x9cec3d3a334,
    0x1187b9d2a755,
    0xfcd9e2a25b1,
    0x6302e707fff,
    -0x5ab66bd2bae,
    -0xd4bbdae96b4,
    -0xd334490880a,
    -0x66e62dc5792,
    0x2124eaefa04,
    0x727b9f77b81,
    0x5b08043f865,
    0xb4445f8ace,
];

/// The rows 8 to 15 of the matrix of the rule of degree 32.
pub const ANALYSIS_32_LOWER: [i64; 264] = [
    0xc1bd945ffe,
    0x5cb18f3e899,
    0x60733d02e7c,
    -0x120205919df,
    -0x9ff8777f4d6,
    -0xd6818d40441,
    -0x74c2d870593,
    0x51890118db2,
    0xf76f4d7b589,
    0xfff913a5d83,
    0x579e6190d36,
    -0x98cae384e40,
    -0x12dbb7c35489,
    -0xfcbf947e681,
    -0x1ff9b9ebb11,
    0xd65d8c198e2,
    0x140a136f3df6,
    0xd65d8c198e2,
    -0x1ff9b9ebb11,
    -0xfcbf947e681,
    -0x12dbb7c35489,
    -0x98cae384e40,
    0x579e6190d36,
    0xfff913a5d83,
    0xf76f4d7b589,
    0x51890118db2,
    -0x74c2d870593,
    -0xd6818d40441,
    -0x9ff8777f4d6,
    -0x120205919df,
    0x60733d02e7c,
    0x5cb18f3e899,
    0xc1bd945ffe,
    -0xce8a99fd8e,
    -0x5d240aeca04,
    -0x4a5f1fc0faa,
    0x4391d05f3d2,
    0xc03068cd8d9,
    0xa67abce7809,
    -0x12f45ea3bad,
    -0xd89c3d1f48b,
    -0xfa55470b41f,
    -0x47517d4c2f3,
    0xb764581a2e4,
    0x12cd113783dc,
    0xac8dbf56c9d,
    -0x68778f4483f,
    -0x12f9f9a34395,
    -0x10125aed44f1,
    0x0,
    0x10125aed44f1,
    0x12f9f9a34395,
    0x68778f4483f,
    -0xac8dbf56c9d,
    -0x12cd113783dc,
    -0xb764581a2e4,
    0x47517d4c2f3,
    0xfa55470b41f,
    0xd89c3d1f48b,
    0x12f45ea3bad,
    -0xa67abce7809,
    -0xc03068cd8d9,
    -0x4391d05f3d2,
    0x4a5f1fc0faa,
    0x5d240aeca04,
    0xce8a99fd8e,
    0xdbc9028a08,
    0x5c4e06ab697,
    0x3159e74cf29,
    -0x6f45b236117,
    -0xc287c0d2adc,
    -0x4ed58c231ce,
    0x946744d0711,
    0xfcc76af8353,
    0x6a33827c226,
    -0xa5ccfe7eb10,
    -0x123096753abe,
    -0x828afb4d9d3,
    0xaa0be55c2bb,
    0x1394526032d6,
    0x966e893b8a5,
    -0xa4357b6ccb1,
    -0x14098d2900ea,
    -0xa4357b6ccb1,
    0x966e893b8a5,
    0x1394526032d6,
    0xaa0be55c2bb,
    -0x828afb4d9d3,
    -0x123096753abe,
    -0xa5ccfe7eb10,
    0x6a33827c226,
    0xfcc76af8353,
    0x946744d0711,
    -0x4ed58c231ce,
    -0xc287c0d2adc,
    -0x6f45b236117,
    0x3159e74cf29,
    0x5c4e06ab697,
    0xdbc9028a08,
    -0xe8879c2602,
    -0x5a5ea44c427,
    -0x16516a02758,
    0x91284c4ec22,
    0xa6d7ba51ac6,
    -0x1b9bba23731,
    -0xe392725fff6,
    -0xadbd805f085,
    0x645a025b976,
    0x1197b6f7cf88,
    0x8b9dd92d226,
    -0xb1ef30be877,
    -0x12e9ac98391e,
    -0x4d3281e01fd,
    0xf50df861402,
    0x1215c44b2d30,
    0x0,
    -0x1215c44b2d30,
    -0xf50df861402,
    0x4d3281e01fd,
    0x12e9ac98391e,
    0xb1ef30be877,
    -0x8b9dd92d226,
    -0x1197b6f7cf88,
    -0x645a025b976,
    0xadbd805f085,
    0xe392725fff6,
    0x1b9bba23731,
    -0xa6d7ba51ac6,
    -0x91284c4ec22,
    0x16516a02758,
    0x5a5ea44c427,
    0xe8879c2602,
    0xf61d742026,
    0x573b9232223,
    -0x57577ccb2d,
    -0xa671331029c,
    -0x714b7744b9f,
    0x7f576c5e4c1,
    0xe5d7908932e,
    0xf64527a966,
    -0xf7da9ee830e,
    -0xbf29a019f4c,
    0x883efd2757c,
    0x12a0395a3839,
    0x3d7cebd9b84,
    -0x10cb3db86421,
    -0xf5d43c1095d,
    0x6b66901f580,
    0x140cf6240dd2,
    0x6b66901f580,
    -0xf5d43c1095d,
    -0x10cb3db86421,
    0x3d7cebd9b84,
    0x12a0395a3839,
    0x883efd2757c,
    -0xbf29a019f4c,
    -0xf7da9ee830e,
    0xf64527a966,
    0xe5d7908932e,
    0x7f576c5e4c1,
    -0x714b7744b9f,
    -0xa671331029c,
    -0x57577ccb2d,
    0x573b9232223,
    0xf61d742026,
    -0x1034e67157b,
    -0x531d924b089,
    0x21055a4c4dd,
    0xad23818066e,
    0x2a528ac6c9d,
    -0xc4d5114ac95,
    -0x9a5447f428c,
    0x95fbe8ccc82,
    0xf9e50514db8,
    -0x27273eb7db4,
    -0x122e939c9e27,
    -0x66ccf0308e7,
    0xff9e16062d5,
    0xe9179f312e2,
    -0x953d44ac334,
    -0x1366faf6d8ef,
    0x0,
    0x1366faf6d8ef,
    0x953d44ac334,
    -0xe9179f312e2,
    -0xff9e16062d5,
    0x66ccf0308e7,
    0x122e939c9e27,
    0x27273eb7db4,
    -0xf9e50514db8,
    -0x95fbe8ccc82,
    0x9a5447f428c,
    0xc4d5114ac95,
    -0x2a528ac6c9d,
    -0xad23818066e,
    -0x21055a4c4dd,
    0x531d924b089,
    0x1034e67157b,
    0x111c8a70380,
    0x4de0ceb1731,
    -0x3b111af2d97,
    -0xa4e6ca215bd,
    0x235c2088bff,
    0xdb66606192c,
    0x1ad0f110512,
    -0xf754495c99b,
    -0x691825930a7,
    0xf09f4f8dbd7,
    0xbafb6de3641,
    -0xc9645043233,
    -0x100ce2a41c6e,
    0x8548e8b3959,
    0x13040a7d5498,
    -0x2eccafa4b99,
    -0x140a335d1a4e,
    -0x2eccafa4b99,
    0x13040a7d5498,
    0x8548e8b3959,
    -0x100ce2a41c6e,
    -0xc9645043233,
    0xbafb6de3641,
    0xf09f4f8dbd7,
    -0x691825930a7,
    -0xf754495c99b,
    0x1ad0f110512,
    0xdb66606192c,
    0x235c2088bff,
    -0xa4e6ca215bd,
    -0x3b111af2d97,
    0x4de0ceb1731,
    0x111c8a70380,
    -0x11fef8a7530,
    -0x47cc3d04127,
    0x52c6956152f,
    0x8e46049bb33,
    -0x6ba049edce7,
    -0xbdec601f3b4,
    0x6dc5e5578ab,
    0xe82ad5fb459,
    -0x655f382bc2f,
    -0x109f8e03bafe,
    0x5349795f586,
    0x124930c77b6b,
    -0x3b328ef9574,
    -0x136731420f44,
    0x1e9aa7b93bf,
    0x13fa18bc060b,
    0x0,
    -0x13fa18bc060b,
    -0x1e9aa7b93bf,
    0x136731420f44,
    0x3b328ef9574,
    -0x124930c77b6b,
    -0x5349795f586,
    0x109f8e03bafe,
    0x655f382bc2f,
    -0xe82ad5fb459,
    -0x6dc5e5578ab,
    0xbdec601f3b4,
    0x6ba049edce7,
    -0x8e46049bb33,
    -0x52c6956152f,
    0x47cc3d04127,
    0x11fef8a7530,
];

/// The rows 16 to 23 of the matrix of the rule of degree 32.
pub const ANALYSIS_32_UPPER: [i64; 264] = [
    0x12ff3334134,
    0x40ae42ca599,
    -0x66f3369c47b,
    -0x6b84e7b5c58,
    0xa3ad93a6bd5,
    0x732574ab3b9,
    -0xd1012375f15,
    -0x6faf41bd48a,
    0xf8a9c982e9d,
    0x6063698cb9f,
    -0x117390c5d40d,
    -0x4a913f43897,
    0x12e60e947080,
    0x2e95ddcc616,
    -0x13bf0270166a,
    -0x101878add54,
    0x140edecc3b4e,
    -0x101878add54,
    -0x13bf0270166a,
    0x2e95ddcc616,
    0x12e60e947080,
    -0x4a913f43897,
    -0x117390c5d40d,
    0x6063698cb9f,
    0xf8a9c982e9d,
    -0x6faf41bd48a,
    -0xd1012375f15,
    0x732574ab3b9,
    0xa3ad93a6bd5,
    -0x6b84e7b5c58,
    -0x66f3369c47b,
    0x40ae42ca599,
    0x12ff3334134,
    -0x13faf6baad1,
    -0x38e188e33ea,
    0x77137aa3579,
    0x3f688b09209,
    -0xc2acb25ceb4,
    -0xd1401faad1,
    0xeda1d6329a0,
    -0x3b96985276d,
    -0xfa2217630da,
    0x8fbe637586c,
    0xe2d475d4bd2,
    -0xde51cc0a093,
    -0xac212e2dcfa,
    0x11b6eb7805e8,
    0x5c9d1ffead4,
    -0x13c7eb54fa95,
    0x0,
    0x13c7eb54fa95,
    -0x5c9d1ffead4,
    -0x11b6eb7805e8,
    0xac212e2dcfa,
    0xde51cc0a093,
    -0xe2d475d4bd2,
    -0x8fbe637586c,
    0xfa2217630da,
    0x3b96985276d,
    -0xeda1d6329a0,
    0xd1401faad1,
    0xc2acb25ceb4,
    -0x3f688b09209,
    -0x77137aa3579,
    0x38e188e33ea,
    0x13faf6baad1,
    0x1521c9bcefa,
    0x301e24e37b3,
    -0x8229813e35c,
    -0xe2770e0a71,
    0xc4419bd9e1b,
    -0x5c7639ac6f6,
    -0xb9a1d34ffa5,
    0xcb68f20194e,
    0x694ca49fa81,
    -0x11712525d24c,
    0x1ba98b19564,
    0x11bb8eb87e65,
    -0xaa550ba33bd,
    -0xd37201cd581,
    0x1183322242bc,
    0x4dbf4aebf90,
    -0x140934bc7d74,
    0x4dbf4aebf90,
    0x1183322242bc,
    -0xd37201cd581,
    -0xaa550ba33bd,
    0x11bb8eb87e65,
    0x1ba98b19564,
    -0x11712525d24c,
    0x694ca49fa81,
    0xcb68f20194e,
    -0xb9a1d34ffa5,
    -0x5c7639ac6f6,
    0xc4419bd9e1b,
    -0xe2770e0a71,
    -0x8229813e35c,
    0x301e24e37b3,
    0x1521c9bcefa,
    -0x1644a9b02d1,
    -0x26db0e4a654,
    0x88272948b83,
    -0x2454c0ea727,
    -0xa7d3919c4b0,
    0xb01c3b2e829,
    0x46f24b95920,
    -0xfec6c85e175,
    0x654760aee97,
    0xd235d241100,
    -0x101909f5b20d,
    -0x2d121418f5f,
    0x12e753917322,
    -0xa0ba3f95b77,
    -0xc9e8785c450,
    0x12d4589bdbfd,
    0x0,
    -0x12d4589bdbfd,
    0xc9e8785c450,
    0xa0ba3f95b77,
    -0x12e753917322,
    0x2d121418f5f,
    0x101909f5b20d,
    -0xd235d241100,
    -0x654760aee97,
    0xfec6c85e175,
    -0x46f24b95920,
    -0xb01c3b2e829,
    0xa7d3919c4b0,
    0x2454c0ea727,
    -0x88272948b83,
    0x26db0e4a654,
    0x1644a9b02d1,
    0x17a78bfb156,
    0x1caa0e9f070,
    -0x884b5901169,
    0x53230583d0e,
    0x7245b75ba68,
    -0xda991da4e3a,
    0x4439969b5cb,
    0xbdd20de1e24,
    -0xf7f56e93505,
    0xbec4fa7744,
    0x102f7adc35ec,
    -0xf1c84266a87,
    -0x3c8d35ca4a1,
    0x130351c0d57e,
    -0xc8ec823ebd3,
    -0x8951ffebc99,
    0x1411d944b8c6,
    -0x8951ffebc99,
    -0xc8ec823ebd3,
    0x130351c0d57e,
    -0x3c8d35ca4a1,
    -0xf1c84266a87,
    0x102f7adc35ec,
    0xbec4fa7744,
    -0xf7f56e93505,
    0xbdd20de1e24,
    0x4439969b5cb,
    -0xda991da4e3a,
    0x7245b75ba68,
    0x53230583d0e,
    -0x884b5901169,
    0x1caa0e9f070,
    0x17a78bfb156,
    -0x1906d4e9f69,
    -0x122df5936b0,
    0x831e4375c35,
    -0x7abc979fd86,
    -0x2b41ad93c91,
    0xd159127830e,
    -0xb85ecd2d50d,
    -0x26997286257,
    0xf94910a001a,
    -0xe15704ed73f,
    -0x1e1863abdc9,
    0x110f542a4d40,
    -0x10022b98555e,
    -0xfd4cd27a09,
    0x11849d03f3f2,
    -0x1125e58415eb,
    0x0,
    0x1125e58415eb,
    -0x11849d03f3f2,
    0xfd4cd27a09,
    0x10022b98555e,
    -0x110f542a4d40,
    0x1e1863abdc9,
    0xe15704ed73f,
    -0xf94910a001a,
    0x26997286257,
    0xb85ecd2d50d,
    -0xd159127830e,
    0x2b41ad93c91,
    0x7abc979fd86,
    -0x831e4375c35,
    0x122df5936b0,
    0x1906d4e9f69,
    0x1acaab82bfc,
    0x6b26eaf441,
    -0x78055444089,
    0x96e4246bce9,
    -0x218e37d701a,
    -0x975ed422466,
    0xef1a77c5d3d,
    -0x82fa54f0119,
    -0x67ac959c32b,
    0x1111930b654b,
    -0xe0badec6689,
    -0x104d05553c4,
    0x1015a5446924,
    -0x127d6c755331,
    0x5c681e59fd5,
    0xbe486bc09ff,
    -0x1404f9e817b6,
    0xbe486bc09ff,
    0x5c681e59fd5,
    -0x127d6c755331,
    0x1015a5446924,
    -0x104d05553c4,
    -0xe0badec6689,
    0x1111930b654b,
    -0x67ac959c32b,
    -0x82fa54f0119,
    0xef1a77c5d3d,
    -0x975ed422466,
    -0x218e37d701a,
    0x96e4246bce9,
    -0x78055444089,
    0x6b26eaf441,
    0x1acaab82bfc,
    -0x1c8b202cefd,
    0x4da83a217b,
    0x6840a81c259,
    -0xa5fae6926e3,
    0x693ed2e3725,
    0x3993f4e9316,
    -0xd52564d68c0,
    0xf10c0203de9,
    -0x66b5488d3b5,
    -0x7913aaa204a,
    0x117be5468c63,
    -0x101996de2633,
    0x3b37ee3ccd4,
    0xbb8bca83c89,
    -0x13c575e72e35,
    0xed14d74932a,
    0x0,
    -0xed14d74932a,
    0x13c575e72e35,
    -0xbb8bca83c89,
    -0x3b37ee3ccd4,
    0x101996de2633,
    -0x117be5468c63,
    0x7913aaa204a,
    0x66b5488d3b5,
    -0xf10c0203de9,
    0xd52564d68c0,
    -0x3993f4e9316,
    -0x693ed2e3725,
    0xa5fae6926e3,
    -0x6840a81c259,
    -0x4da83a217b,
    0x1c8b202cefd,
];

/// The rows 24 to 31 of the matrix of the rule of degree 32.
pub const ANALYSIS_32_UPPERMOST: [i64; 264] = [
    0x1ef874df2c9,
    -0x11bb59798e1,
    -0x530e0a641c0,
    0xa5539e17445,
    -0x9f7e4cb0245,
    0x3075e5dc8cb,
    0x74a3f333087,
    -0xf2fa8b610b1,
    0xfa45b3d7f5f,
    -0x78e48c26ba8,
    -0x54a7f882b74,
    0x101bc2b53bbb,
    -0x12d4ba1bff11,
    0xb99bc197886,
    0x205f11974f5,
    -0xee2103a4ca7,
    0x141b18f38eec,
    -0xee2103a4ca7,
    0x205f11974f5,
    0xb99bc197886,
    -0x12d4ba1bff11,
    0x101bc2b53bbb,
    -0x54a7f882b74,
    -0x78e48c26ba8,
    0xfa45b3d7f5f,
    -0xf2fa8b610b1,
    0x74a3f333087,
    0x3075e5dc8cb,
    -0x9f7e4cb0245,
    0xa5539e17445,
    -0x530e0a641c0,
    -0x11bb59798e1,
    0x1ef874df2c9,
    -0x21627dc5d0f,
    0x1e6ea3dcb4f,
    0x3aa18a29d18,
    -0x965e870dd71,
    0xbd662eef9dd,
    -0x8f09e18c05f,
    0x1338f8fd793,
    0x8686240813b,
    -0xfb286348822,
    0x1126f70f562d,
    -0xb9b3c2f8df8,
    0xea95235368,
    0xab55ffa3e74,
    -0x12749484c57f,
    0x12fb7f0b8902,
    -0xbe69d0d6bfb,
    0x0,
    0xbe69d0d6bfb,
    -0x12fb7f0b8902,
    0x12749484c57f,
    -0xab55ffa3e74,
    -0xea95235368,
    0xb9b3c2f8df8,
    -0x1126f70f562d,
    0xfb286348822,
    -0x8686240813b,
    -0x1338f8fd793,
    0x8f09e18c05f,
    -0xbd662eef9dd,
    0x965e870dd71,
    -0x3aa18a29d18,
    -0x1e6ea3dcb4f,
    0x21627dc5d0f,
    0x2525de97886,
    -0x2d8d36f2e69,
    -0x1d35377fc6d,
    0x77aecda33ce,
    -0xbbae0d89178,
    0xc910e5fc394,
    -0x91e0eae9515,
    0x2051fedf1b9,
    0x6b92963f32f,
    -0xe5f6e8cde12,
    0x125af2160b7c,
    -0x112485d9a79d,
    0xace9bb6979f,
    -0x10eeb1c5c13,
    -0x9421a336dab,
    0x110bac520e74,
    -0x13ef98decb1e,
    0x110bac520e74,
    -0x9421a336dab,
    -0x10eeb1c5c13,
    0xace9bb6979f,
    -0x112485d9a79d,
    0x125af2160b7c,
    -0xe5f6e8cde12,
    0x6b92963f32f,
    0x2051fedf1b9,
    -0x91e0eae9515,
    0xc910e5fc394,
    -0xbbae0d89178,
    0x77aecda33ce,
    -0x1d35377fc6d,
    -0x2d8d36f2e69,
    0x2525de97886,
    -0x28e5df07ba1,
    0x3c3766827e4,
    -0x1592b19e6d,
    -0x4ea5e99e667,
    0x9d53787568c,
    -0xd38c2513fc8,
    0xdf52a3dd680,
    -0xb87c2e3470a,
    0x630e7ce5d0d,
    0x11496c99984,
    -0x8c904ac7db7,
    0xf3e2cebf658,
    -0x12fa84da4ef3,
    0x1311e754d745,
    -0xf5ef3bfa946,
    0x88f5f22ed05,
    0x0,
    -0x88f5f22ed05,
    0xf5ef3bfa946,
    -0x1311e754d745,
    0x12fa84da4ef3,
    -0xf3e2cebf658,
    0x8c904ac7db7,
    -0x11496c99984,
    -0x630e7ce5d0d,
    0xb87c2e3470a,
    -0xdf52a3dd680,
    0xd38c2513fc8,
    -0x9d53787568c,
    0x4ea5e99e667,
    0x1592b19e6d,
    -0x3c3766827e4,
    0x28e5df07ba1,
    0x303b96fe068,
    -0x517a6f69b97,
    0x270c9c7e255,
    0x179e3fde38d,
    -0x5fc6873210a,
    0xa4cfd270e2e,
    -0xda3c6eea83b,
    0xf5a7ad28e2b,
    -0xf0712d54432,
    0xc8d740ff4ad,
    -0x8254778df4a,
    0x25312078480,
    0x42a7612998d,
    -0xa760e6b6740,
    0xfb45fde9635,
    -0x132c632ad845,
    0x1462ce09b896,
    -0x132c632ad845,
    0xfb45fde9635,
    -0xa760e6b6740,
    0x42a7612998d,
    0x25312078480,
    -0x8254778df4a,
    0xc8d740ff4ad,
    -0xf0712d54432,
    0xf5a7ad28e2b,
    -0xda3c6eea83b,
    0xa4cfd270e2e,
    -0x5fc6873210a,
    0x179e3fde38d,
    0x270c9c7e255,
    -0x517a6f69b97,
    0x303b96fe068,
    -0x378d8642fb3,
    0x65ee410eab8,
    -0x4b3cf8b9435,
    0x21740cde0fc,
    0x139db145a6a,
    -0x4f1bf014345,
    0x8b88bdbc0c7,
    -0xc33e84ff1f7,
    0xf0eda2f0fa1,
    -0x11012c243630,
    0x11d5bc7a7b22,
    -0x116f29abd540,
    0xfca756ec391,
    -0xcff63dcc922,
    0x93e8e381e1a,
    -0x4cd537ecaa2,
    0x0,
    0x4cd537ecaa2,
    -0x93e8e381e1a,
    0xcff63dcc922,
    -0xfca756ec391,
    0x116f29abd540,
    -0x11d5bc7a7b22,
    0x11012c243630,
    -0xf0eda2f0fa1,
    0xc33e84ff1f7,
    -0x8b88bdbc0c7,
    0x4f1bf014345,
    -0x139db145a6a,
    -0x21740cde0fc,
    0x4b3cf8b9435,
    -0x65ee410eab8,
    0x378d8642fb3,
    0x544812400b7,
    -0xa438b8642ec,
    0x975d2a2a8f5,
    -0x827bf7f0842,
    0x66628b695c2,
    -0x44255507a25,
    0x1d152c65a16,
    0xd4da18fa38,
    -0x39621751bb9,
    0x65768d13d39,
    -0x8fd95b09187,
    0xb6e983ab197,
    -0xd926ba0cd33,
    0xf5402693fb4,
    -0x10a2158ce066,
    0x116fce707a5d,
    -0x11b5453238e2,
    0x116fce707a5d,
    -0x10a2158ce066,
    0xf5402693fb4,
    -0xd926ba0cd33,
    0xb6e983ab197,
    -0x8fd95b09187,
    0x65768d13d39,
    -0x39621751bb9,
    0xd4da18fa38,
    0x1d152c65a16,
    -0x44255507a25,
    0x66628b695c2,
    -0x827bf7f0842,
    0x975d2a2a8f5,
    -0xa438b8642ec,
    0x544812400b7,
    -0x70fce121be9,
    0xe0e33249fde,
    -0xdda23123770,
    0xd83ec4849df,
    -0xd0c63549a74,
    0xc74aeeb5ba5,
    -0xbbe45109d71,
    0xaeae77e3237,
    -0x9fc9f4eeb54,
    0x8f5b7f9db2d,
    -0x7d8b9a9fc0d,
    0x6a863002e96,
    -0x567a24ef394,
    0x4198e608ff4,
    -0x2c15ed96b91,
    0x16264497178,
    0x0,
    -0x16264497178,
    0x2c15ed96b91,
    -0x4198e608ff4,
    0x567a24ef394,
    -0x6a863002e96,
    0x7d8b9a9fc0d,
    -0x8f5b7f9db2d,
    0x9fc9f4eeb54,
    -0xaeae77e3237,
    0xbbe45109d71,
    -0xc74aeeb5ba5,
    0xd0c63549a74,
    -0xd83ec4849df,
    0xdda23123770,
    -0xe0e33249fde,
    0x70fce121be9,
];

/// The rows 32 to 32 of the matrix of the rule of degree 32.
pub const ANALYSIS_32_LAST: [i64; 33] = [
    0x38803499945,
    -0x7100693328a,
    0x7100693328a,
    -0x7100693328a,
    0x7100693328a,
    -0x7100693328a,
    0x7100693328a,
    -0x7100693328a,
    0x7100693328a,
    -0x7100693328a,
    0x7100693328a,
    -0x7100693328a,
    0x7100693328a,
    -0x7100693328a,
    0x7100693328a,
    -0x7100693328a,
    0x7100693328a,
    -0x7100693328a,
    0x7100693328a,
    -0x7100693328a,
    0x7100693328a,
    -0x7100693328a,
    0x7100693328a,
    -0x7100693328a,
    0x7100693328a,
    -0x7100693328a,
    0x7100693328a,
    -0x7100693328a,
    0x7100693328a,
    -0x7100693328a,
    0x7100693328a,
    -0x7100693328a,
    0x38803499945,
];

/// The weight of the `p`-th sample of the rule of a degree in the `k`-th
/// coefficient of its interpolating polynomial.
pub closed spec fn analysis_entry_of(degree: int, k: int, p: int) -> int {
    if degree == 2 {
        ANALYSIS_2[k * 3 + p] as int
    } else if degree == 4 {
        ANALYSIS_4[k * 5 + p] as int
    } else if degree == 8 {
        ANALYSIS_8[k * 9 + p] as int
    } else if degree == 16 {
        ANALYSIS_16[k * 17 + p] as int
    } else if k < 8 {
        ANALYSIS_32_LOWEST[k * 33 + p] as int
    } else if k < 16 {
        ANALYSIS_32_LOWER[(k - 8) * 33 + p] as int
    } else if k < 24 {
        ANALYSIS_32_UPPER[(k - 16) * 33 + p] as int
    } else if k < 32 {
        ANALYSIS_32_UPPERMOST[(k - 24) * 33 + p] as int
    } else {
        ANALYSIS_32_LAST[p] as int
    }
}

/// The weight of the `p`-th sample of the rule of a degree in the `k`-th
/// coefficient of its interpolating polynomial.
pub fn analysis_entry(degree: usize, k: usize, p: usize) -> (r: i64)
    requires
        tabulated(degree as int),
        k <= degree,
        p <= degree,
    ensures
        r == analysis_entry_of(degree as int, k as int, p as int),
{
    if degree == 2 {
        ANALYSIS_2[k * 3 + p]
    } else if degree == 4 {
        ANALYSIS_4[k * 5 + p]
    } else if degree == 8 {
        ANALYSIS_8[k * 9 + p]
    } else if degree == 16 {
        ANALYSIS_16[k * 17 + p]
    } else if k < 8 {
        ANALYSIS_32_LOWEST[k * 33 + p]
    } else if k < 16 {
        ANALYSIS_32_LOWER[(k - 8) * 33 + p]
    } else if k < 24 {
        ANALYSIS_32_UPPER[(k - 16) * 33 + p]
    } else if k < 32 {
        ANALYSIS_32_UPPERMOST[(k - 24) * 33 + p]
    } else {
        ANALYSIS_32_LAST[p]
    }
}

/// The sum of the first `j` entries of the row `k` of the matrix of a degree.
pub open spec fn row_sum(degree: int, k: int, j: nat) -> int
    decreases j,
{
    if j == 0 {
        0
    } else {
        row_sum(degree, k, (j - 1) as nat) + analysis_entry_of(degree, k, j - 1)
    }
}

/// The rows of the matrices of the degrees 2 and 4: no entry exceeds one, the
/// first row sums to the square root of two and every other row to zero.
pub proof fn lemma_lowest_rows(degree: int, k: int)
    requires
        degree == 2 || degree == 4,
        0 <= k <= degree,
    ensures
        row_sum(degree, k, (degree + 1) as nat) == if k == 0 {
            ANALYSIS_ROOT_TWO as int
        } else {
            0
        },
        forall|p: int|
            0 <= p <= degree ==> -ANALYSIS_ONE <= #[trigger] analysis_entry_of(degree, k, p)
                <= ANALYSIS_ONE,
{
    reveal_with_fuel(row_sum, 6);
}

} // verus!
