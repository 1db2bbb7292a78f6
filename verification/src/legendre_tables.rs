//! Node and weight tables of the Gauss-Legendre rules of one to twenty points.
//!
//! The rules are laid out one after the other. The part of the `n`-point rule
//! starts at `rule_offset(n)` and holds its non-negative abscissae on `[-1, 1]`
//! in ascending order, as multiples of `2^-56`, and beside each its weight. A
//! rule with an odd number of points starts with the abscissa zero. The weights
//! of a rule sum to two over the whole interval, exactly.
use vstd::prelude::*;

verus! {

/// The largest number of points for which a rule is tabulated.
pub const LARGEST_RULE: usize = 20;

/// Where the part of each rule starts in the tables, by the number of points
/// of the rule.
pub const LEGENDRE_OFFSETS: [usize; 21] = [
    0, 0, 1, 2, 4, 6, 9, 12, 16, 20, 25, 30, 36, 42, 49, 56, 64, 72, 81, 90, 100,
];

/// Where the part of the `n`-point rule starts in the tables.
pub open spec fn rule_offset_of(n: int) -> int {
    LEGENDRE_OFFSETS[n] as int
}

/// The number of table entries of the `n`-point rule.
pub open spec fn rule_length_of(n: int) -> int {
    (n + 1) / 2
}

/// The non-negative abscissae of the rules.
pub const LEGENDRE_NODES: [u64; 110] = [
    0x0,
    0x93cd3a2c8198e2,
    0x0,
    0xc64bf7a1fb923e,
    0x5708ff6774f7f1,
    0xdc736de7b1cc28,
    0x0,
    0x89d91feccdb827,
    0xe7fb670299d34a,
    0x3d1625a06ceb8a,
    0xa94504b2ae4af2,
    0xeeb652740500ee,
    0x0,
    0x67e577c467f587,
    0xbdd4fcdf1d0eaf,
    0xf2f8bc73e3114b,
    0x2ef5929e78e68a,
    0x86894ac19425a0,
    0xcbf255924fa0f1,
    0xf5d58e58566334,
    0x0,
    0x530245b922a999,
    0x9d05e903bfec63,
    0xd60622786814c2,
    0xf7d95975f90830,
    0x261ca0f123c4f4,
    0x6ef3002405ab6e,
    0xadedc9146f0cbe,
    0xdd74caf4e59796,
    0xf951f0315796be,
    0x0,
    0x4500c7bfad0b05,
    0x84e37be26c6709,
    0xbaeb3de90ca24e,
    0xe31688d7823a97,
    0xfa6d317ebf4da9,
    0x200f4bf1ec61c8,
    0x5e2a3482a2c675,
    0x965a782e03bfc5,
    0xc5185776c479b0,
    0xe7743a7fdc459c,
    0xfb478ec7217409,
    0x0,
    0x3aff50f21e5891,
    0x72d06bc231d1eb,
    0xa471019d80e307,
    0xcd3438c4e3c282,
    0xeae7ba8b864ef3,
    0xfbf36bb14b30e1,
    0x1ba97d36de76b0,
    0x51b159244b5c09,
    0x83e755aa7784af,
    0xaff26d84f06447,
    0xd3c377236ece1e,
    0xedade895ccf4f8,
    0xfc7d187eed585a,
    0x0,
    0x338174c5de096b,
    0x64e71a495f5ad7,
    0x922b3b78479d21,
    0xb97370c0d59e1e,
    0xd924110fffeb19,
    0xeff12627c5a23d,
    0xfced13e1973684,
    0x1852bd6676a9f9,
    0x48172b9908cdf0,
    0x754096690e9dc9,
    0x9e2d2336af45be,
    0xc1622eed23935b,
    0xdd9a01a8a72417,
    0xf1cfab30b7cd7e,
    0xfd4961326bc3f0,
    0x0,
    0x2db123aa60c446,
    0x59ea532959ce79,
    0x833fafe1c14dd2,
    0xa85d23185bac2b,
    0xc8114d401a4fb3,
    0xe1575a69ea86e7,
    0xf35f78931ac6a6,
    0xfd965ab6b1f09e,
    0x15b3d0b4884001,
    0x407b9d9da86b8e,
    0x6968862c92ab31,
    0x8f4d2424b7a3f0,
    0xb11266ed02db6f,
    0xcdbf9bb26b85ae,
    0xe4819861ef999b,
    0xf4b0e0dc24886b,
    0xfdd73702387b3c,
    0x0,
    0x290d43a2a7d6c7,
    0x510a58486e747c,
    0x76ee1bace362cd,
    0x99bd564b49cc7a,
    0xb8913d492d4c5f,
    0xd29d6d7fc453a0,
    0xe73539ad370858,
    0xf5d03392c58d51,
    0xfe0e5ffaa2808c,
    0x13973df98b86b0,
    0x3a502c6d251781,
    0x5fab33c5594b11,
    0x82c82e09fbffb6,
    0xa2d469fd3886d8,
    0xbf0f9b9a352a70,
    0xd6d05eaf7eb73b,
    0xe988320b9fec8d,
    0xf6c6dd3debb4f7,
    0xfe3dad0638e703,
];

/// The weights of the rules.
pub const LEGENDRE_WEIGHTS: [u64; 110] = [
    0x200000000000000,
    0x100000000000000,
    0xe38e38e38e38e4,
    0x8e38e38e38e38e,
    0xa6f2fc20612653,
    0x590d03df9ed9ad,
    0x91a2b3c4d5e6f8,
    0x7a876896b9056c,
    0x3ca73d86dc0718,
    0x77c935265517a1,
    0x5c5aded5e53070,
    0x2bdbec03c5b7ef,
    0x6aff5f80f0be96,
    0x61bf9d3b8cacf6,
    0x479ac5c4f61912,
    0x2125ed3f04daad,
    0x5cd8d82c664d0c,
    0x504f1428955855,
    0x38edf6a63a572b,
    0x19ea1d04ca0374,
    0x548a90fd9521a6,
    0x4ff5fa60e35446,
    0x42b761f209d41a,
    0x2e3ef5364457d5,
    0x14ce65f803eef8,
    0x4ba779c0535bbd,
    0x44eea9e9566ff8,
    0x38160b3a017862,
    0x26427190f1dfca,
    0x11115f8b62dc1f,
    0x45de6b21f81358,
    0x4347289be9643d,
    0x3bb296288dc0b8,
    0x2fb0b71b7fe331,
    0x202608fbdf119b,
    0xe404b932ddc93,
    0x3fc819cda9e04c,
    0x3bc62ab84ad56a,
    0x3402c7cd6356e4,
    0x28fae4b1e45b1e,
    0x1b60602bce6181,
    0xc13aecef536c7,
    0x3b887fa3c2b71e,
    0x39edb1cadd302c,
    0x35336eb7c14245,
    0x2d9af9994951a6,
    0x238d36e0acb9a9,
    0x1795464d0fbf51,
    0xa5d28e47a6760,
    0x371b882aa29c68,
    0x3487e2f2df5612,
    0x2f7f71c551eafb,
    0x283e777dc5a5e3,
    0x1f1bd74ef611c1,
    0x14853d8adc703d,
    0x8fd96c593faaa,
    0x33dc2aebf392fe,
    0x32cc67e3fa059c,
    0x2fa83f4edb84ce,
    0x2a909e6150dda3,
    0x23bae7692c62c1,
    0x1b6ec9635f1146,
    0x12038260b5d026,
    0x7df71c89e8a47,
    0x307fd5d01c9bf8,
    0x2ebf18efc1801e,
    0x2b4dd776b4ebf8,
    0x264bec3794797e,
    0x1fe7af2bad386a,
    0x185c4ee79cc258,
    0xfefd8d160932e,
    0x6f376ad2df084,
    0x2df034319002a8,
    0x2d3336a53e98ac,
    0x2b02511c5b1573,
    0x276f8b01e98e74,
    0x22984c0b1290d6,
    0x1ca46b78a575fa,
    0x15c4edd40005e6,
    0xe329880e9aefd,
    0x62e954b130666,
    0x2b4cea4b31b7b4,
    0x2a0e060d30b2ba,
    0x27996a34dc14e6,
    0x24012c8eecb02c,
    0x1f5fc72cc7c308,
    0x19d7567a3a5731,
    0x1390a2fc0485c6,
    0xcba17b9a3a864,
    0x588a0872a881d,
    0x293add4af9cde6,
    0x28b22e9f75c139,
    0x271bace29cbaf2,
    0x2481df7206ab61,
    0x20f6050a563c57,
    0x1c8fa1b5f341d9,
    0x176be3dac75c87,
    0x11ace735068375,
    0xb78f1f65aad5a,
    0x4fb729ff7e5fb,
    0x271ad8921466e0,
    0x2630336a58b324,
    0x2460691e694a6b,
    0x21b658bb64dbfd,
    0x1e41ff31573b48,
    0x1a1817a317a821,
    0x15519fe196e24a,
    0x100b467df7e475,
    0xa64daf529db40,
    0x4825a009d3a2c,
];

/// Where the part of the `n`-point rule starts in the tables.
pub fn rule_offset(n: usize) -> (r: usize)
    requires
        1 <= n <= LARGEST_RULE,
    ensures
        r == rule_offset_of(n as int),
        r + rule_length_of(n as int) <= 110,
{
    LEGENDRE_OFFSETS[n]
}

/// The `k`-th non-negative abscissa of the `n`-point rule, at most one.
pub fn legendre_node(n: usize, k: usize) -> (r: u64)
    requires
        1 <= n <= LARGEST_RULE,
        k < rule_length_of(n as int),
    ensures
        r == LEGENDRE_NODES[rule_offset_of(n as int) + k],
        r <= 0x100_0000_0000_0000,
{
    LEGENDRE_NODES[rule_offset(n) + k]
}

/// The weight of the `k`-th non-negative abscissa of the `n`-point rule, at
/// most two.
pub fn legendre_weight(n: usize, k: usize) -> (r: u64)
    requires
        1 <= n <= LARGEST_RULE,
        k < rule_length_of(n as int),
    ensures
        r == LEGENDRE_WEIGHTS[rule_offset_of(n as int) + k],
        r <= 0x200_0000_0000_0000,
{
    LEGENDRE_WEIGHTS[rule_offset(n) + k]
}

} // verus!
