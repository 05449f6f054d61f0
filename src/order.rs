//! Perturbative orders: coupling exponents, their selection, and the `asNaM` notation that
//! selects them on the command line.

use crate::args::ArgError;
use crate::text::{is_digit, parse_unsigned, parse_unsigned_spec};
use vstd::prelude::*;

verus! {

/// Coupling powers for each grid.
#[derive(Clone, Copy, Debug, PartialEq, Eq, Structural)]
pub struct Order {
    /// Exponent of the strong coupling.
    pub alphas: u32,
    /// Exponent of the electromagnetic coupling.
    pub alpha: u32,
    /// Exponent of the logarithm of the scale factor of the renomalization scale.
    pub logxir: u32,
    /// Exponent of the logarithm of the scale factor of the factorization scale.
    pub logxif: u32,
}

impl Order {
    /// Constructor.
    pub fn new(alphas: u32, alpha: u32, logxir: u32, logxif: u32) -> (r: Order)
        ensures
            r == (Order { alphas, alpha, logxir, logxif }),
    {
        Order { alphas, alpha, logxir, logxif }
    }
}

/// Whether `order` is chosen by the `(alphas, alpha)` selectors: every order is chosen when there
/// are none, otherwise those whose two coupling exponents equal one selector.
pub open spec fn order_selected(order: Order, selectors: Seq<(u32, u32)>) -> bool {
    selectors.len() == 0 || exists|j: int|
        0 <= j < selectors.len() && #[trigger] selectors[j] == (order.alphas, order.alpha)
}

/// For each of `orders`, whether it is chosen by `selectors` (pairs of the exponents of the strong
/// and the electromagnetic coupling).
pub fn order_mask(orders: &[Order], selectors: &[(u32, u32)]) -> (r: Vec<bool>)
    ensures
        r@.len() == orders@.len(),
        forall|i: int| 0 <= i < orders@.len() ==> r@[i] == order_selected(orders@[i], selectors@),
{
    let mut mask: Vec<bool> = Vec::new();
    let mut i: usize = 0;
    while i < orders.len()
        invariant
            i <= orders@.len(),
            mask@.len() == i,
            forall|k: int| 0 <= k < i ==> mask@[k] == order_selected(orders@[k], selectors@),
        decreases orders@.len() - i,
    {
        let order = orders[i];
        let mut chosen = selectors.len() == 0;
        let mut j: usize = 0;
        while j < selectors.len()
            invariant
                j <= selectors@.len(),
                chosen == (selectors@.len() == 0 || exists|l: int|
                    0 <= l < j && #[trigger] selectors@[l] == (order.alphas, order.alpha)),
            decreases selectors@.len() - j,
        {
            if selectors[j].0 == order.alphas && selectors[j].1 == order.alpha {
                chosen = true;
            }
            j = j + 1;
        }
        mask.push(chosen);
        i = i + 1;
    }
    mask
}

/// How the results of a convolution are reported.
#[derive(Clone, Copy, Debug, PartialEq, Eq, Structural)]
pub enum ConvoluteMode {
    /// Bin-integrated: each result multiplied by its bin's normalization.
    Integrated,
    /// Differential: the results as the grid gives them.
    Normal,
}

/// Whether the bin `index` is chosen by `bins`: every bin is chosen when `bins` is empty,
/// otherwise the bins that it lists.
pub fn bin_selected(bins: &[usize], index: usize) -> (r: bool)
    ensures
        r == (bins@.len() == 0 || bins@.contains(index)),
{
    if bins.len() == 0 {
        return true;
    }
    let mut k: usize = 0;
    while k < bins.len()
        invariant
            k <= bins@.len(),
            forall|j: int| 0 <= j < k ==> bins@[j] != index,
        decreases bins@.len() - k,
    {
        if bins[k] == index {
            return true;
        }
        k = k + 1;
    }
    false
}

/// Whether the non-ASCII character `c` is numeric in Unicode's sense, as `char::is_numeric`
/// decides.
pub uninterp spec fn numeric_non_ascii(c: char) -> bool;

/// Whether `c` is numeric: of the ASCII characters the decimal digits are.
pub open spec fn numeric_char(c: char) -> bool {
    if (c as u32) < 128 {
        is_digit(c)
    } else {
        numeric_non_ascii(c)
    }
}

/// Relies on `char::is_numeric`: whether `c` has one of Unicode's numeric general categories. Of
/// the ASCII characters only the decimal digits have one.
#[verifier::external_body]
fn is_numeric(c: char) -> (r: bool)
    ensures
        (c as u32) < 128 ==> r == is_digit(c),
        (c as u32) >= 128 ==> r == numeric_non_ascii(c),
{
    c.is_numeric()
}

/// The number of consecutive numeric characters of `s` from position `from` on.
pub open spec fn numeric_run(s: Seq<char>, from: int) -> int
    decreases s.len() - from,
{
    if 0 <= from < s.len() && numeric_char(s[from]) {
        1 + numeric_run(s, from + 1)
    } else {
        0
    }
}

/// The exponent written from position `from` of `s` on: the run of numeric characters there, read
/// as a `u32`.
pub open spec fn exponent_at(s: Seq<char>, from: int) -> Option<int> {
    parse_unsigned_spec(s.subrange(from, from + numeric_run(s, from)), u32::MAX as int)
}

/// Whether the `a` at position `k` of `s` starts the strong coupling `as`.
pub open spec fn is_strong_at(s: Seq<char>, k: int) -> bool {
    k + 1 < s.len() && s[k + 1] == 's'
}

/// The exponents `(alphas, alpha)` after reading the couplings that start before position `i` of
/// `s`, or `None` once one of their exponents could not be read. A later coupling of the same kind
/// overrides an earlier one.
pub open spec fn exponents_upto(s: Seq<char>, i: int) -> Option<(int, int)>
    decreases i,
{
    if i <= 0 {
        Some((0, 0))
    } else {
        let prev = exponents_upto(s, i - 1);
        if s[i - 1] != 'a' {
            prev
        } else {
            match prev {
                None => None,
                Some((alphas, alpha)) => if is_strong_at(s, i - 1) {
                    match exponent_at(s, i + 1) {
                        Some(v) => Some((v, alpha)),
                        None => None,
                    }
                } else {
                    match exponent_at(s, i) {
                        Some(v) => Some((alphas, v)),
                        None => None,
                    }
                },
            }
        }
    }
}

/// The number of `a` characters of `s` before position `i`.
pub open spec fn count_a(s: Seq<char>, i: int) -> int
    decreases i,
{
    if i <= 0 {
        0
    } else {
        count_a(s, i - 1) + if s[i - 1] == 'a' {
            1int
        } else {
            0int
        }
    }
}

/// Reads the numeric run of `s` that starts at position `from` as a `u32`.
fn parse_exponent(s: &str, from: usize) -> (r: Option<u32>)
    requires
        from <= s@.len(),
    ensures
        match exponent_at(s@, from as int) {
            Some(v) => r is Some && r->0 as int == v,
            None => r is None,
        },
{
    let n = s.unicode_len();
    let mut end: usize = from;
    while end < n && is_numeric(s.get_char(end))
        invariant
            n == s@.len(),
            from <= end <= n,
            numeric_run(s@, from as int) == (end - from) + numeric_run(s@, end as int),
        decreases n - end,
    {
        end = end + 1;
    }
    let digits = s.substring_char(from, end);
    match parse_unsigned(digits, u32::MAX as u64) {
        Some(v) => Some(v as u32),
        None => None,
    }
}

/// Parses an order given as `asNaM`: the exponent `N` of the strong coupling and the exponent `M`
/// of the electromagnetic one, each optional and zero where it is not given.
pub fn parse_order(order: &str) -> (r: Result<(u32, u32), ArgError>)
    ensures
        count_a(order@, order@.len() as int) > 2 ==> (r matches Err(ArgError::TooManyCouplings(
            o,
        )) && o@ == order@),
        count_a(order@, order@.len() as int) <= 2 ==> match exponents_upto(
            order@,
            order@.len() as int,
        ) {
            Some((alphas, alpha)) => r == Ok::<(u32, u32), ArgError>((alphas as u32, alpha as u32)),
            None => (r matches Err(ArgError::InvalidOrder(o)) && o@ == order@),
        },
{
    let n = order.unicode_len();
    let mut count: usize = 0;
    let mut i: usize = 0;
    while i < n
        invariant
            n == order@.len(),
            i <= n,
            count == count_a(order@, i as int),
            count <= i,
        decreases n - i,
    {
        if order.get_char(i) == 'a' {
            count = count + 1;
        }
        i = i + 1;
    }
    if count > 2 {
        return Err(ArgError::TooManyCouplings(String::from_str(order)));
    }
    let mut alphas: u32 = 0;
    let mut alpha: u32 = 0;
    let mut i: usize = 0;
    while i < n
        invariant
            n == order@.len(),
            i <= n,
            count_a(order@, n as int) <= 2,
            exponents_upto(order@, i as int) == Some((alphas as int, alpha as int)),
        decreases n - i,
    {
        if order.get_char(i) == 'a' {
            if i + 1 < n && order.get_char(i + 1) == 's' {
                match parse_exponent(order, i + 2) {
                    Some(v) => alphas = v,
                    None => {
                        proof {
                            lemma_exponents_stay_none(order@, i as int + 1, n as int);
                        }
                        return Err(ArgError::InvalidOrder(String::from_str(order)));
                    },
                }
            } else {
                match parse_exponent(order, i + 1) {
                    Some(v) => alpha = v,
                    None => {
                        proof {
                            lemma_exponents_stay_none(order@, i as int + 1, n as int);
                        }
                        return Err(ArgError::InvalidOrder(String::from_str(order)));
                    },
                }
            }
        }
        i = i + 1;
    }
    Ok((alphas, alpha))
}

/// Once an exponent could not be read, no later coupling makes the order readable.
proof fn lemma_exponents_stay_none(s: Seq<char>, i: int, j: int)
    requires
        0 <= i <= j,
        exponents_upto(s, i) is None,
    ensures
        exponents_upto(s, j) is None,
    decreases j - i,
{
    if i < j {
        lemma_exponents_stay_none(s, i, j - 1);
    }
}

} // verus!
