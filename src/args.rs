//! Parsing of command-line arguments: PDF specifications, integer ranges and positive counts.

use crate::text::{
    after_first, before_first, find_char, is_first_index, is_last_index, lacks,
    lemma_first_index_unique, parse_i32, parse_i32_spec, parse_unsigned, parse_unsigned_spec,
    rfind_char,
};
use vstd::prelude::*;

verus! {

/// Why a command-line argument was refused.
#[derive(Debug)]
pub enum ArgError {
    /// The given piece of the argument is not an unsigned integer.
    NotAnInteger(String),
    /// The order holds more than two couplings.
    TooManyCouplings(String),
    /// The exponent of a coupling in the order is not an integer.
    InvalidOrder(String),
}

/// Returns the label of a PDF specification `name=label`: the text after the first `=`, or the
/// whole specification when it holds no `=`. The label itself may hold `=`.
pub fn pdf_label(pdf: &str) -> (r: &str)
    ensures
        r@ == after_first(pdf@, '='),
{
    let n = pdf.unicode_len();
    match find_char(pdf, '=') {
        Some(k) => {
            proof {
                lemma_first_index_unique(pdf@, '=', k as int);
            }
            pdf.substring_char(k + 1, n)
        },
        None => pdf,
    }
}

/// Returns the name of a PDF specification `name=label`: the text before the first `=`, or the
/// whole specification when it holds no `=`.
pub fn pdf_name(pdf: &str) -> (r: &str)
    ensures
        r@ == before_first(pdf@, '='),
{
    match find_char(pdf, '=') {
        Some(k) => {
            proof {
                lemma_first_index_unique(pdf@, '=', k as int);
            }
            pdf.substring_char(0, k)
        },
        None => pdf,
    }
}

/// Splits the name of a PDF-set specification `set/member=label` into the set and, where a `/`
/// is given, the member number. Returns `None` when the text after the last `/` is not a member
/// number.
pub fn split_pdfset(pdfset: &str) -> (r: Option<(&str, Option<usize>)>)
    ensures
        ({
            let name = before_first(pdfset@, '=');
            &&& lacks(name, '/') ==> (r matches Some((set, member)) && set@ == name && member
                is None)
            &&& forall|k: int|
                is_last_index(name, '/', k) ==> match parse_unsigned_spec(
                    name.subrange(k + 1, name.len() as int),
                    usize::MAX as int,
                ) {
                    Some(m) => (r matches Some((set, member)) && set@ == name.subrange(0, k)
                        && member == Some(m as usize)),
                    None => r is None,
                }
        }),
{
    let name = pdf_name(pdfset);
    let n = name.unicode_len();
    match rfind_char(name, '/') {
        Some(k) => {
            let member = name.substring_char(k + 1, n);
            match parse_unsigned(member, usize::MAX as u64) {
                Some(m) => Some((name.substring_char(0, k), Some(m as usize))),
                None => None,
            }
        },
        None => Some((name, None)),
    }
}

/// Returns the PDF-set name of a specification `set/member=label`: the text before the first `/`
/// of its name, or the whole name when it holds no `/`.
pub fn set_name(pdfset: &str) -> (r: &str)
    ensures
        ({
            let name = before_first(pdfset@, '=');
            &&& lacks(name, '/') ==> r@ == name
            &&& forall|k: int| is_first_index(name, '/', k) ==> r@ == name.subrange(0, k)
        }),
{
    let name = pdf_name(pdfset);
    match find_char(name, '/') {
        Some(k) => name.substring_char(0, k),
        None => name,
    }
}

/// The PDG identifier of the hadron that a PDF set describes, from the set's `Particle` entry: a
/// set without one describes a proton (2212). Returns `None` when the entry is not an `i32`.
pub fn pdf_pdg_id(particle: Option<&str>) -> (r: Option<i32>)
    ensures
        match particle {
            None => r == Some(2212i32),
            Some(p) => match parse_i32_spec(p@) {
                Some(v) => r is Some && r->0 as int == v,
                None => r is None,
            },
        },
{
    match particle {
        None => Some(2212),
        Some(p) => parse_i32(p),
    }
}

/// The unsigned integer that `s` denotes, as `str::parse::<usize>` reads it.
pub open spec fn usize_of(s: Seq<char>) -> Option<int> {
    parse_unsigned_spec(s, usize::MAX as int)
}

/// Parses an inclusive integer range `left-right`, or a single integer `value` as the range
/// `value..=value`.
pub fn try_parse_integer_range(range: &str) -> (r: Result<core::ops::RangeInclusive<usize>, ArgError>)
    ensures
        lacks(range@, '-') ==> match usize_of(range@) {
            Some(v) => r is Ok && r->Ok_0@.start == v && r->Ok_0@.end == v && !r->Ok_0@.exhausted,
            None => (r matches Err(ArgError::NotAnInteger(p)) && p@ == range@),
        },
        forall|k: int|
            is_first_index(range@, '-', k) ==> {
                let left = range@.subrange(0, k);
                let right = range@.subrange(k + 1, range@.len() as int);
                match (usize_of(left), usize_of(right)) {
                    (Some(a), Some(b)) => r is Ok && r->Ok_0@.start == a && r->Ok_0@.end == b
                        && !r->Ok_0@.exhausted,
                    (None, _) => (r matches Err(ArgError::NotAnInteger(p)) && p@ == left),
                    (Some(_), None) => (r matches Err(ArgError::NotAnInteger(p)) && p@ == right),
                }
            },
{
    let max = usize::MAX as u64;
    match find_char(range, '-') {
        Some(at) => {
            let n = range.unicode_len();
            let left = range.substring_char(0, at);
            let right = range.substring_char(at + 1, n);
            match parse_unsigned(left, max) {
                Some(a) => match parse_unsigned(right, max) {
                    Some(b) => Ok(core::ops::RangeInclusive::new(a as usize, b as usize)),
                    None => Err(ArgError::NotAnInteger(String::from_str(right))),
                },
                None => Err(ArgError::NotAnInteger(String::from_str(left))),
            }
        },
        None => match parse_unsigned(range, max) {
            Some(v) => Ok(core::ops::RangeInclusive::new(v as usize, v as usize)),
            None => Err(ArgError::NotAnInteger(String::from_str(range))),
        },
    }
}

/// Accepts `argument` when it is an unsigned integer other than zero; otherwise returns the
/// message ``The value `argument` is not positive and non-zero``.
pub fn validate_pos_non_zero(argument: &str) -> (r: Result<(), String>)
    ensures
        match usize_of(argument@) {
            Some(v) if v != 0 => r is Ok,
            _ => r is Err && r->Err_0@ == "The value `"@ + argument@ + "` is not positive and non-zero"@,
        },
{
    if let Some(v) = parse_unsigned(argument, usize::MAX as u64) {
        if v != 0 {
            return Ok(());
        }
    }
    let msg = String::from_str("The value `");
    let msg = msg.concat(argument);
    let msg = msg.concat("` is not positive and non-zero");
    Err(msg)
}

} // verus!
