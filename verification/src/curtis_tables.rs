//! Node and weight tables of the Clenshaw-Curtis rules.
//!
//! The rule of degree `n` samples `[-1, 1]` at the `n + 1` points
//! `cos(k pi / n)`. The rules of the degrees 2, 4, 8, 16 and 32 are nested: each
//! uses every second point of the next. The node table holds the non-negative
//! points of the rule of degree 32 in descending order, as multiples of
//! `2^-56`; the weight table holds, rule after rule, the weights of the points
//! from the end of the interval to its centre. The weights of a rule sum to two
//! over the whole interval, exactly.
use vstd::prelude::*;

verus! {

/// The number of rules above the lowest one: an interval is of level 0 to 3.
pub const HIGHEST_LEVEL: usize = 3;

/// The non-negative points of the rule of degree 32.
pub const CURTIS_NODES: [u64; 17] = [
    0x100000000000000,
    0xfec46d1e89292d,
    0xfb14be7fbae581,
    0xf4fa0ab6316ed3,
    0xec835e79946a31,
    0xe1c5978c05ed87,
    0xd4db3148750d18,
    0xc5e40358a8ba06,
    0xb504f333f9de65,
    0xa267992848eeb1,
    0x8e39d9cd734643,
    0x78ad74e01bd8ec,
    0x61f78a9abaa58b,
    0x4a5018bb567c17,
    0x31f17078d34c15,
    0x1917a6bc29b42c,
    0x0,
];

/// The weights of the rules of the degrees 2, 4, 8, 16 and 32.
pub const CURTIS_WEIGHTS: [u64; 36] = [
    0x55555555555555,
    0x155555555555556,
    0x11111111111111,
    0x88888888888889,
    0xcccccccccccccc,
    0x4104104104104,
    0x256e95dc72b64a,
    0x47847847847848,
    0x5c998aa5956a38,
    0x64c64c64c64c64,
    0x1010101010101,
    0x990fecc9469e0,
    0x1352cf616756ad,
    0x1be13bfab128df,
    0x2392a6af358f69,
    0x29c5af08b0ec21,
    0x2e7510e0608994,
    0x314896b08a01a1,
    0x3247ef1b021da8,
    0x401004010040,
    0x26797b60e4558,
    0x4ec8915cee07a,
    0x749049d70e624,
    0x99fc8650914e0,
    0xbd7e05d6926c7,
    0xdf7514adbbc51,
    0xff110a1f3310d,
    0x11c6016ec5f620,
    0x136d1ee93123e3,
    0x14e604f80afa77,
    0x1629f2102d034d,
    0x1738840c506be7,
    0x180caa1a8b6de5,
    0x18a69d26caa92f,
    0x1902bf9b3b67bb,
    0x19223b34bd9090,
];

/// The degree of the rule of a level: 4, 8, 16 or 32.
pub open spec fn degree_of(level: int) -> int {
    if level == 0 {
        4
    } else if level == 1 {
        8
    } else if level == 2 {
        16
    } else {
        32
    }
}

/// Where the weights of the rule of a degree start in the weight table.
pub open spec fn weights_start_of(degree: int) -> int {
    if degree == 2 {
        0
    } else if degree == 4 {
        2
    } else if degree == 8 {
        5
    } else if degree == 16 {
        10
    } else {
        19
    }
}

/// The distance of the `p`-th point of the rule of a degree from the centre of
/// `[-1, 1]`, the points counted by ascending abscissa.
pub open spec fn curtis_node_of(degree: int, p: int) -> int {
    let k = if p <= degree / 2 {
        p
    } else {
        degree - p
    };
    CURTIS_NODES[k * (32int / degree)] as int
}

/// The weight of the `p`-th point of the rule of a degree.
pub open spec fn curtis_weight_of(degree: int, p: int) -> int {
    let k = if p <= degree / 2 {
        p
    } else {
        degree - p
    };
    CURTIS_WEIGHTS[weights_start_of(degree) + k] as int
}

/// The degree of the rule of a level.
pub fn degree(level: usize) -> (r: usize)
    requires
        level <= HIGHEST_LEVEL,
    ensures
        r == degree_of(level as int),
{
    if level == 0 {
        4
    } else if level == 1 {
        8
    } else if level == 2 {
        16
    } else {
        32
    }
}

/// True for the degrees of the tabulated rules.
pub open spec fn tabulated(degree: int) -> bool {
    degree == 2 || degree == 4 || degree == 8 || degree == 16 || degree == 32
}

/// The distance of the `p`-th point of a rule from the centre, at most one.
pub fn curtis_node(degree: usize, p: usize) -> (r: u64)
    requires
        tabulated(degree as int),
        p <= degree,
    ensures
        r == curtis_node_of(degree as int, p as int),
        r <= 0x100_0000_0000_0000,
{
    let k = if p <= degree / 2 {
        p
    } else {
        degree - p
    };
    let stride: usize = 32 / degree;
    assert(k * stride <= 16) by (nonlinear_arith)
        requires
            (degree == 2 && stride == 16 && k <= 1) || (degree == 4 && stride == 8 && k <= 2) || (
            degree == 8 && stride == 4 && k <= 4) || (degree == 16 && stride == 2 && k <= 8) || (
            degree == 32 && stride == 1 && k <= 16),
    ;
    CURTIS_NODES[k * stride]
}

/// The weight of the `p`-th point of a rule, at most two.
pub fn curtis_weight(degree: usize, p: usize) -> (r: u64)
    requires
        tabulated(degree as int),
        p <= degree,
    ensures
        r == curtis_weight_of(degree as int, p as int),
        r <= 0x200_0000_0000_0000,
{
    let k = if p <= degree / 2 {
        p
    } else {
        degree - p
    };
    let start: usize = if degree == 2 {
        0
    } else if degree == 4 {
        2
    } else if degree == 8 {
        5
    } else if degree == 16 {
        10
    } else {
        19
    };
    CURTIS_WEIGHTS[start + k]
}

} // verus!
