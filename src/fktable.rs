//! The section structure of legacy FK-table files. A file is a sequence of lines: section markers,
//! the grid description, version and grid information, a flavour map, theory information, the
//! x-grid and finally the fast kernel, one line per bin and x-grid point. [`FkTableReader`] takes
//! the lines one at a time, checks their order and form, and says what each contributes to the grid
//! that is built from them.

use crate::order::Order;
use crate::pids::Basis;
use crate::text::{
    parse_unsigned, parse_unsigned_spec, split_at_space, split_once_space, split_whitespace,
    str_equals, views_of, words,
};
use vstd::prelude::*;

verus! {

/// The sections of an FK-table file, in the order in which they come.
#[derive(Clone, Copy, Debug, PartialEq, Eq, Structural)]
pub enum FkTableSection {
    Sof,
    GridDesc,
    VersionInfo,
    GridInfo,
    FlavourMap,
    TheoryInfo,
    Xgrid,
    FastKernel,
}

/// Why an FK-table file was refused.
#[derive(Clone, Copy, Debug, PartialEq, Eq, Structural)]
pub enum FkTableError {
    /// A section marker follows a section other than the one that precedes it.
    SectionOutOfOrder,
    /// The number of x-grid values differs from the `*NX:` entry.
    XGridLengthMismatch,
    /// The `*HADRONIC:` entry is neither `0` nor `1`.
    UnsupportedHadronic,
    /// The grid information holds a key other than `*HADRONIC:`, `*NDATA:`, `*NX:`, `*SETNAME:`.
    UnsupportedKey,
    /// A flavour-map entry is neither `0` nor `1`.
    UnsupportedFlavour,
    /// The flavour map enables a flavour beyond the evolution basis.
    FlavourMapTooLong,
    /// A number that should be an unsigned integer is not one, or is too large.
    InvalidInteger,
    /// A fast-kernel line lacks its bin or x-grid indices.
    MissingColumns,
    /// A fast-kernel line belongs to a bin before the one of the line above it.
    BinDecreases,
    /// A bin or x-grid index lies outside the grid.
    IndexOutOfRange,
    /// A fast-kernel line holds fewer values than there are channels.
    ValueCountMismatch,
    /// The file ends before its fast-kernel section.
    Incomplete,
}

/// The evolution basis in which FK-tables are written.
pub open spec fn fk_basis() -> Seq<i32> {
    seq![22, 100, 21, 200, 203, 208, 215, 224, 235, 103, 108, 115, 124, 135]
}

/// The section that a marker line opens, if `line` is one.
pub open spec fn marker(line: Seq<char>) -> Option<FkTableSection> {
    if line == "{GridDesc___________________________________________________"@ {
        Some(FkTableSection::GridDesc)
    } else if line == "_VersionInfo________________________________________________"@ {
        Some(FkTableSection::VersionInfo)
    } else if line == "_GridInfo___________________________________________________"@ {
        Some(FkTableSection::GridInfo)
    } else if line == "{FlavourMap_________________________________________________"@ {
        Some(FkTableSection::FlavourMap)
    } else if line == "_TheoryInfo_________________________________________________"@ {
        Some(FkTableSection::TheoryInfo)
    } else if line == "{xGrid______________________________________________________"@ {
        Some(FkTableSection::Xgrid)
    } else if line == "{FastKernel_________________________________________________"@ {
        Some(FkTableSection::FastKernel)
    } else {
        None
    }
}

/// The section that must come right before `s`.
pub open spec fn preceding(s: FkTableSection) -> FkTableSection {
    match s {
        FkTableSection::Sof => FkTableSection::Sof,
        FkTableSection::GridDesc => FkTableSection::Sof,
        FkTableSection::VersionInfo => FkTableSection::GridDesc,
        FkTableSection::GridInfo => FkTableSection::VersionInfo,
        FkTableSection::FlavourMap => FkTableSection::GridInfo,
        FkTableSection::TheoryInfo => FkTableSection::FlavourMap,
        FkTableSection::Xgrid => FkTableSection::TheoryInfo,
        FkTableSection::FastKernel => FkTableSection::Xgrid,
    }
}

/// What the reader has learnt from the lines so far.
pub struct ReaderState {
    pub section: FkTableSection,
    pub dis_pid: i32,
    pub hadronic: bool,
    pub ndata: u16,
    pub nx1: usize,
    pub flavor_mask: Seq<bool>,
    pub nx_grid: usize,
    pub last_bin: usize,
}

/// What one line contributes to the grid.
pub enum LineOutcome {
    /// Nothing.
    Skip,
    /// The text of the fitting scale `Q0`.
    Q0(Seq<char>),
    /// The text of the next x-grid value.
    XGridValue(Seq<char>),
    /// The fast kernel starts: the grid has these channels, x-grid sizes, orders, bins, basis and
    /// initial states.
    Start {
        lumi: Seq<(i32, i32)>,
        nx1: usize,
        nx2: usize,
        orders: Seq<Order>,
        bins: u16,
        basis: Basis,
        initial_state_1: i32,
        initial_state_2: Option<i32>,
    },
    /// A fast-kernel line: the bin finished before it (if any), its bin and x-grid indices, and the
    /// text of its value for each channel.
    Kernel { flush: Option<usize>, bin: usize, x1: usize, x2: usize, values: Seq<Seq<char>> },
}

/// The channels that the flavour map `mask` enables among its first `i` entries: pairs of basis
/// flavours for a hadronic table, a basis flavour and `dis_pid` otherwise.
pub open spec fn lumi_of_mask(mask: Seq<bool>, hadronic: bool, dis_pid: i32, i: int) -> Seq<
    (i32, i32),
>
    decreases i,
{
    if i <= 0 {
        seq![]
    } else {
        let prev = lumi_of_mask(mask, hadronic, dis_pid, i - 1);
        if mask[i - 1] {
            prev.push(
                if hadronic {
                    (fk_basis()[(i - 1) / 14], fk_basis()[(i - 1) % 14])
                } else {
                    (fk_basis()[i - 1], dis_pid)
                },
            )
        } else {
            prev
        }
    }
}

/// Whether every flavour that `mask` enables lies in the basis (or, hadronic, its pairs).
pub open spec fn mask_fits(mask: Seq<bool>, hadronic: bool) -> bool {
    forall|i: int| 0 <= i < mask.len() && #[trigger] mask[i] ==> i < if hadronic {
        196int
    } else {
        14int
    }
}

/// The number of enabled entries among the first `i` of `mask`.
pub open spec fn count_enabled(mask: Seq<bool>, i: int) -> int
    decreases i,
{
    if i <= 0 {
        0
    } else {
        count_enabled(mask, i - 1) + if mask[i - 1] {
            1int
        } else {
            0int
        }
    }
}

/// The words `t[off + j]` with `j < i` whose flavour `mask[j]` is enabled.
pub open spec fn enabled_values(t: Seq<Seq<char>>, off: int, mask: Seq<bool>, i: int) -> Seq<
    Seq<char>,
>
    decreases i,
{
    if i <= 0 {
        seq![]
    } else {
        let prev = enabled_values(t, off, mask, i - 1);
        if mask[i - 1] {
            prev.push(t[off + i - 1])
        } else {
            prev
        }
    }
}

/// The effect of a section marker that opens `next`.
pub open spec fn enter_step(st: ReaderState, next: FkTableSection) -> (
    ReaderState,
    Result<LineOutcome, FkTableError>,
) {
    if st.section != preceding(next) {
        (st, Err(FkTableError::SectionOutOfOrder))
    } else if next == FkTableSection::FastKernel {
        if st.nx1 != st.nx_grid {
            (st, Err(FkTableError::XGridLengthMismatch))
        } else if !mask_fits(st.flavor_mask, st.hadronic) {
            (st, Err(FkTableError::FlavourMapTooLong))
        } else {
            (
                ReaderState { section: next, ..st },
                Ok(
                    LineOutcome::Start {
                        lumi: lumi_of_mask(
                            st.flavor_mask,
                            st.hadronic,
                            st.dis_pid,
                            st.flavor_mask.len() as int,
                        ),
                        nx1: st.nx1,
                        nx2: if st.hadronic {
                            st.nx1
                        } else {
                            1
                        },
                        orders: seq![Order { alphas: 0, alpha: 0, logxir: 0, logxif: 0 }],
                        bins: st.ndata,
                        basis: Basis::Evol,
                        initial_state_1: 2212,
                        initial_state_2: if st.hadronic {
                            None
                        } else {
                            Some(st.dis_pid)
                        },
                    },
                ),
            )
        }
    } else {
        (ReaderState { section: next, ..st }, Ok(LineOutcome::Skip))
    }
}

/// The effect of a line of the grid information.
pub open spec fn grid_info_step(st: ReaderState, line: Seq<char>) -> (
    ReaderState,
    Result<LineOutcome, FkTableError>,
) {
    match split_at_space(line) {
        None => (st, Ok(LineOutcome::Skip)),
        Some((key, value)) => if key == "*HADRONIC:"@ {
            if value == "0"@ {
                (ReaderState { hadronic: false, ..st }, Ok(LineOutcome::Skip))
            } else if value == "1"@ {
                (ReaderState { hadronic: true, ..st }, Ok(LineOutcome::Skip))
            } else {
                (st, Err(FkTableError::UnsupportedHadronic))
            }
        } else if key == "*NDATA:"@ {
            match parse_unsigned_spec(value, u16::MAX as int) {
                Some(v) => (ReaderState { ndata: v as u16, ..st }, Ok(LineOutcome::Skip)),
                None => (st, Err(FkTableError::InvalidInteger)),
            }
        } else if key == "*NX:"@ {
            match parse_unsigned_spec(value, usize::MAX as int) {
                Some(v) => (ReaderState { nx1: v as usize, ..st }, Ok(LineOutcome::Skip)),
                None => (st, Err(FkTableError::InvalidInteger)),
            }
        } else if key == "*SETNAME:"@ {
            (st, Ok(LineOutcome::Skip))
        } else {
            (st, Err(FkTableError::UnsupportedKey))
        },
    }
}

/// Whether `w` is a flavour-map entry.
pub open spec fn is_flag(w: Seq<char>) -> bool {
    w == "0"@ || w == "1"@
}

/// The effect of a line of the flavour map: its words, each `0` or `1`, extend the map.
pub open spec fn flavour_step(st: ReaderState, line: Seq<char>) -> (
    ReaderState,
    Result<LineOutcome, FkTableError>,
) {
    let t = words(line);
    if forall|j: int| 0 <= j < t.len() ==> is_flag(#[trigger] t[j]) {
        (
            ReaderState {
                flavor_mask: st.flavor_mask + t.map_values(|w: Seq<char>| w == "1"@),
                ..st
            },
            Ok(LineOutcome::Skip),
        )
    } else {
        (st, Err(FkTableError::UnsupportedFlavour))
    }
}

/// The effect of a line of the theory information: `*Q0: value` gives the fitting scale.
pub open spec fn theory_outcome(line: Seq<char>) -> LineOutcome {
    match split_at_space(line) {
        Some((key, value)) => if key == "*Q0:"@ {
            LineOutcome::Q0(value)
        } else {
            LineOutcome::Skip
        },
        None => LineOutcome::Skip,
    }
}

/// The index in column `col` of the words `t`: missing, not an integer, or its value.
pub open spec fn column(t: Seq<Seq<char>>, col: int) -> Result<int, FkTableError> {
    if t.len() <= col {
        Err(FkTableError::MissingColumns)
    } else {
        match parse_unsigned_spec(t[col], usize::MAX as int) {
            Some(v) => Ok(v),
            None => Err(FkTableError::InvalidInteger),
        }
    }
}

/// The effect of a fast-kernel line `bin x1 [x2] values...`, with `x2` only in hadronic tables.
pub open spec fn kernel_step(st: ReaderState, line: Seq<char>) -> (
    ReaderState,
    Result<LineOutcome, FkTableError>,
) {
    let t = words(line);
    let off: int = if st.hadronic {
        3
    } else {
        2
    };
    match column(t, 0) {
        Err(e) => (st, Err(e)),
        Ok(bin) => match column(t, 1) {
            Err(e) => (st, Err(e)),
            Ok(x1) => match if st.hadronic {
                column(t, 2)
            } else {
                Ok(0int)
            } {
                Err(e) => (st, Err(e)),
                Ok(x2) => {
                    let nx2: int = if st.hadronic {
                        st.nx1 as int
                    } else {
                        1
                    };
                    let n = if t.len() - off < st.flavor_mask.len() {
                        t.len() - off
                    } else {
                        st.flavor_mask.len() as int
                    };
                    let values = enabled_values(t, off, st.flavor_mask, n);
                    if bin < st.last_bin {
                        (st, Err(FkTableError::BinDecreases))
                    } else if bin >= st.ndata || x1 >= st.nx1 || x2 >= nx2 {
                        (st, Err(FkTableError::IndexOutOfRange))
                    } else if values.len() != count_enabled(
                        st.flavor_mask,
                        st.flavor_mask.len() as int,
                    ) {
                        (st, Err(FkTableError::ValueCountMismatch))
                    } else {
                        (
                            ReaderState { last_bin: bin as usize, ..st },
                            Ok(
                                LineOutcome::Kernel {
                                    flush: if bin > st.last_bin {
                                        Some(st.last_bin)
                                    } else {
                                        None
                                    },
                                    bin: bin as usize,
                                    x1: x1 as usize,
                                    x2: x2 as usize,
                                    values,
                                },
                            ),
                        )
                    }
                },
            },
        },
    }
}

/// The effect of one line of an FK-table file.
pub open spec fn step(st: ReaderState, line: Seq<char>) -> (
    ReaderState,
    Result<LineOutcome, FkTableError>,
) {
    match marker(line) {
        Some(next) => enter_step(st, next),
        None => match st.section {
            FkTableSection::GridInfo => grid_info_step(st, line),
            FkTableSection::FlavourMap => flavour_step(st, line),
            FkTableSection::TheoryInfo => (st, Ok(theory_outcome(line))),
            FkTableSection::Xgrid => (
                ReaderState {
                    nx_grid: if st.nx_grid < usize::MAX {
                        (st.nx_grid + 1) as usize
                    } else {
                        st.nx_grid
                    },
                    ..st
                },
                Ok(LineOutcome::XGridValue(line)),
            ),
            FkTableSection::FastKernel => kernel_step(st, line),
            _ => (st, Ok(LineOutcome::Skip)),
        },
    }
}

/// Reads an FK-table file line by line.
pub struct FkTableReader {
    /// The section that the lines belong to.
    pub section: FkTableSection,
    /// The identifier of the lepton of a deep-inelastic (not hadronic) table.
    pub dis_pid: i32,
    /// Whether both initial states are hadrons.
    pub hadronic: bool,
    /// The number of bins.
    pub ndata: u16,
    /// The number of x-grid points, as the grid information states it.
    pub nx1: usize,
    /// Which flavours (or pairs of flavours) take part.
    pub flavor_mask: Vec<bool>,
    /// The number of x-grid values read so far.
    pub nx_grid: usize,
    /// The bin of the last fast-kernel line.
    pub last_bin: usize,
}

/// The start of the fast kernel: what the grid to be filled looks like. Its bin limits are
/// `0, 1, ..., bins`; its metadata names its basis under `lumi_id_types` and its initial states
/// under `initial_state_1` and, where given, `initial_state_2`.
pub struct FkTableStart {
    /// The perturbative orders: FK-tables have the single order `(0, 0, 0, 0)`.
    pub orders: Vec<Order>,
    /// The number of bins.
    pub bins: u16,
    /// The basis of the channels: always the evolution basis.
    pub basis: Basis,
    /// The first initial state: a proton.
    pub initial_state_1: i32,
    /// The second initial state: the lepton of a deep-inelastic table, none for a hadronic one.
    pub initial_state_2: Option<i32>,
    /// The channels, each a pair of identifiers of the evolution basis (or a basis identifier and
    /// the lepton of a deep-inelastic table) with factor one.
    pub lumi: Vec<(i32, i32)>,
    /// The number of points of the first x-grid.
    pub nx1: usize,
    /// The number of points of the second x-grid: that of the first for a hadronic table, one
    /// otherwise.
    pub nx2: usize,
}

/// A fast-kernel line.
pub struct FkKernelLine {
    /// The bin whose subgrids are complete, once the lines move on to a later bin.
    pub flush: Option<usize>,
    /// The bin of this line.
    pub bin: usize,
    /// The index into the first x-grid.
    pub x1: usize,
    /// The index into the second x-grid.
    pub x2: usize,
    /// The text of the value of each channel.
    pub values: Vec<String>,
}

/// What one line contributes to the grid.
pub enum FkLine {
    /// Nothing.
    Skip,
    /// The text of the fitting scale `Q0`.
    Q0(String),
    /// The text of the next x-grid value.
    XGridValue(String),
    /// The fast kernel starts.
    Start(FkTableStart),
    /// A fast-kernel line.
    Kernel(FkKernelLine),
}

/// The view of each of `v`.
pub open spec fn string_views(v: Seq<String>) -> Seq<Seq<char>> {
    v.map_values(|w: String| w@)
}

impl FkLine {
    /// Whether this line's contribution is `o`.
    pub open spec fn is(&self, o: LineOutcome) -> bool {
        match (self, o) {
            (FkLine::Skip, LineOutcome::Skip) => true,
            (FkLine::Q0(v), LineOutcome::Q0(w)) => v@ == w,
            (FkLine::XGridValue(v), LineOutcome::XGridValue(w)) => v@ == w,
            (
                FkLine::Start(h),
                LineOutcome::Start {
                    lumi,
                    nx1,
                    nx2,
                    orders,
                    bins,
                    basis,
                    initial_state_1,
                    initial_state_2,
                },
            ) => h.lumi@ == lumi && h.nx1 == nx1 && h.nx2 == nx2 && h.orders@ == orders && h.bins
                == bins && h.basis == basis && h.initial_state_1 == initial_state_1
                && h.initial_state_2 == initial_state_2,
            (FkLine::Kernel(k), LineOutcome::Kernel { flush, bin, x1, x2, values }) => k.flush
                == flush && k.bin == bin && k.x1 == x1 && k.x2 == x2 && string_views(k.values@)
                == values,
            _ => false,
        }
    }
}

impl View for FkTableReader {
    type V = ReaderState;

    open spec fn view(&self) -> ReaderState {
        ReaderState {
            section: self.section,
            dis_pid: self.dis_pid,
            hadronic: self.hadronic,
            ndata: self.ndata,
            nx1: self.nx1,
            flavor_mask: self.flavor_mask@,
            nx_grid: self.nx_grid,
            last_bin: self.last_bin,
        }
    }
}

/// The section that `line` opens, if it is a marker.
fn marker_of(line: &str) -> (r: Option<FkTableSection>)
    ensures
        r == marker(line@),
{
    if str_equals(line, "{GridDesc___________________________________________________") {
        Some(FkTableSection::GridDesc)
    } else if str_equals(line, "_VersionInfo________________________________________________") {
        Some(FkTableSection::VersionInfo)
    } else if str_equals(line, "_GridInfo___________________________________________________") {
        Some(FkTableSection::GridInfo)
    } else if str_equals(line, "{FlavourMap_________________________________________________") {
        Some(FkTableSection::FlavourMap)
    } else if str_equals(line, "_TheoryInfo_________________________________________________") {
        Some(FkTableSection::TheoryInfo)
    } else if str_equals(line, "{xGrid______________________________________________________") {
        Some(FkTableSection::Xgrid)
    } else if str_equals(line, "{FastKernel_________________________________________________") {
        Some(FkTableSection::FastKernel)
    } else {
        None
    }
}

/// The section that must come right before `s`.
fn preceding_section(s: FkTableSection) -> (r: FkTableSection)
    ensures
        r == preceding(s),
{
    match s {
        FkTableSection::Sof => FkTableSection::Sof,
        FkTableSection::GridDesc => FkTableSection::Sof,
        FkTableSection::VersionInfo => FkTableSection::GridDesc,
        FkTableSection::GridInfo => FkTableSection::VersionInfo,
        FkTableSection::FlavourMap => FkTableSection::GridInfo,
        FkTableSection::TheoryInfo => FkTableSection::FlavourMap,
        FkTableSection::Xgrid => FkTableSection::TheoryInfo,
        FkTableSection::FastKernel => FkTableSection::Xgrid,
    }
}

/// The evolution basis in which FK-tables are written.
const FK_BASIS: [i32; 14] = [22, 100, 21, 200, 203, 208, 215, 224, 235, 103, 108, 115, 124, 135];

/// The `i`-th flavour of the evolution basis.
fn basis_flavour(i: usize) -> (r: i32)
    requires
        i < 14,
    ensures
        r == fk_basis()[i as int],
{
    let basis = FK_BASIS;
    assert(basis@ == fk_basis());
    basis[i]
}

/// Checks that every enabled flavour of `mask` lies in the basis and lists the channels.
fn lumi_from_mask(mask: &Vec<bool>, hadronic: bool, dis_pid: i32) -> (r: Option<Vec<(i32, i32)>>)
    ensures
        mask_fits(mask@, hadronic) ==> (r matches Some(l) && l@ == lumi_of_mask(
            mask@,
            hadronic,
            dis_pid,
            mask@.len() as int,
        )),
        !mask_fits(mask@, hadronic) ==> r is None,
{
    let limit: usize = if hadronic {
        196
    } else {
        14
    };
    let mut lumi: Vec<(i32, i32)> = Vec::new();
    let mut i: usize = 0;
    while i < mask.len()
        invariant
            i <= mask@.len(),
            limit == if hadronic {
                196int
            } else {
                14int
            },
            forall|j: int| 0 <= j < i && #[trigger] mask@[j] ==> j < limit,
            lumi@ == lumi_of_mask(mask@, hadronic, dis_pid, i as int),
        decreases mask@.len() - i,
    {
        if mask[i] {
            if i >= limit {
                return None;
            }
            let entry = if hadronic {
                (basis_flavour(i / 14), basis_flavour(i % 14))
            } else {
                (basis_flavour(i), dis_pid)
            };
            lumi.push(entry);
        }
        i = i + 1;
    }
    Some(lumi)
}

/// The number of enabled entries of `mask`.
fn count_enabled_flavours(mask: &Vec<bool>) -> (r: usize)
    ensures
        r == count_enabled(mask@, mask@.len() as int),
{
    let mut n: usize = 0;
    let mut i: usize = 0;
    while i < mask.len()
        invariant
            i <= mask@.len(),
            n == count_enabled(mask@, i as int),
            n <= i,
        decreases mask@.len() - i,
    {
        if mask[i] {
            n = n + 1;
        }
        i = i + 1;
    }
    n
}

/// Reads column `col` of the words `t` as an index.
fn read_column(t: &Vec<&str>, col: usize) -> (r: Result<usize, FkTableError>)
    ensures
        match column(views_of(t@), col as int) {
            Ok(v) => r is Ok && r->Ok_0 as int == v,
            Err(e) => r == Err::<usize, FkTableError>(e),
        },
{
    if t.len() <= col {
        return Err(FkTableError::MissingColumns);
    }
    assert(views_of(t@)[col as int] == t@[col as int]@);
    match parse_unsigned(t[col], usize::MAX as u64) {
        Some(v) => Ok(v as usize),
        None => Err(FkTableError::InvalidInteger),
    }
}

impl FkTableReader {
    /// A reader at the start of a file; `dis_pid` is the lepton of a deep-inelastic table.
    pub fn new(dis_pid: i32) -> (r: FkTableReader)
        ensures
            r@ == (ReaderState {
                section: FkTableSection::Sof,
                dis_pid,
                hadronic: false,
                ndata: 0,
                nx1: 0,
                flavor_mask: seq![],
                nx_grid: 0,
                last_bin: 0,
            }),
    {
        let r = FkTableReader {
            section: FkTableSection::Sof,
            dis_pid,
            hadronic: false,
            ndata: 0,
            nx1: 0,
            flavor_mask: Vec::new(),
            nx_grid: 0,
            last_bin: 0,
        };
        assert(r@.flavor_mask =~= seq![]);
        r
    }

    fn enter(&mut self, next: FkTableSection) -> (r: Result<FkLine, FkTableError>)
        ensures
            ({
                let (st, res) = enter_step(old(self)@, next);
                &&& final(self)@ == st
                &&& match res {
                    Ok(o) => r matches Ok(line) && line.is(o),
                    Err(e) => r == Err::<FkLine, FkTableError>(e),
                }
            }),
    {
        if self.section != preceding_section(next) {
            return Err(FkTableError::SectionOutOfOrder);
        }
        if next == FkTableSection::FastKernel {
            if self.nx1 != self.nx_grid {
                return Err(FkTableError::XGridLengthMismatch);
            }
            match lumi_from_mask(&self.flavor_mask, self.hadronic, self.dis_pid) {
                Some(lumi) => {
                    self.section = next;
                    let nx2 = if self.hadronic {
                        self.nx1
                    } else {
                        1
                    };
                    let orders = vec![Order { alphas: 0, alpha: 0, logxir: 0, logxif: 0 }];
                    assert(orders@ =~= seq![Order { alphas: 0, alpha: 0, logxir: 0, logxif: 0 }]);
                    let initial_state_2 = if self.hadronic {
                        None
                    } else {
                        Some(self.dis_pid)
                    };
                    Ok(
                        FkLine::Start(
                            FkTableStart {
                                orders,
                                bins: self.ndata,
                                basis: Basis::Evol,
                                initial_state_1: 2212,
                                initial_state_2,
                                lumi,
                                nx1: self.nx1,
                                nx2,
                            },
                        ),
                    )
                },
                None => Err(FkTableError::FlavourMapTooLong),
            }
        } else {
            self.section = next;
            Ok(FkLine::Skip)
        }
    }

    fn grid_info_line(&mut self, line: &str) -> (r: Result<FkLine, FkTableError>)
        ensures
            ({
                let (st, res) = grid_info_step(old(self)@, line@);
                &&& final(self)@ == st
                &&& match res {
                    Ok(o) => r matches Ok(l) && l.is(o),
                    Err(e) => r == Err::<FkLine, FkTableError>(e),
                }
            }),
    {
        match split_once_space(line) {
            None => Ok(FkLine::Skip),
            Some((key, value)) => {
                if str_equals(key, "*HADRONIC:") {
                    if str_equals(value, "0") {
                        self.hadronic = false;
                        Ok(FkLine::Skip)
                    } else if str_equals(value, "1") {
                        self.hadronic = true;
                        Ok(FkLine::Skip)
                    } else {
                        Err(FkTableError::UnsupportedHadronic)
                    }
                } else if str_equals(key, "*NDATA:") {
                    match parse_unsigned(value, u16::MAX as u64) {
                        Some(v) => {
                            self.ndata = v as u16;
                            Ok(FkLine::Skip)
                        },
                        None => Err(FkTableError::InvalidInteger),
                    }
                } else if str_equals(key, "*NX:") {
                    match parse_unsigned(value, usize::MAX as u64) {
                        Some(v) => {
                            self.nx1 = v as usize;
                            Ok(FkLine::Skip)
                        },
                        None => Err(FkTableError::InvalidInteger),
                    }
                } else if str_equals(key, "*SETNAME:") {
                    Ok(FkLine::Skip)
                } else {
                    Err(FkTableError::UnsupportedKey)
                }
            },
        }
    }

    fn flavour_line(&mut self, line: &str) -> (r: Result<FkLine, FkTableError>)
        ensures
            ({
                let (st, res) = flavour_step(old(self)@, line@);
                &&& final(self)@ == st
                &&& match res {
                    Ok(o) => r matches Ok(l) && l.is(o),
                    Err(e) => r == Err::<FkLine, FkTableError>(e),
                }
            }),
    {
        let t = split_whitespace(line);
        let ghost tv = views_of(t@);
        let mut flags: Vec<bool> = Vec::new();
        let mut j: usize = 0;
        while j < t.len()
            invariant
                j <= t@.len(),
                tv == views_of(t@),
                tv == words(line@),
                flags@.len() == j,
                forall|k: int| 0 <= k < j ==> is_flag(#[trigger] tv[k]),
                forall|k: int| 0 <= k < j ==> #[trigger] flags@[k] == (tv[k] == "1"@),
            decreases t@.len() - j,
        {
            assert(tv[j as int] == t@[j as int]@);
            if str_equals(t[j], "1") {
                flags.push(true);
            } else if str_equals(t[j], "0") {
                flags.push(false);
            } else {
                return Err(FkTableError::UnsupportedFlavour);
            }
            j = j + 1;
        }
        let ghost before = self.flavor_mask@;
        let mut k: usize = 0;
        while k < flags.len()
            invariant
                k <= flags@.len(),
                self.flavor_mask@ == before + flags@.subrange(0, k as int),
                self.section == old(self).section,
                self.dis_pid == old(self).dis_pid,
                self.hadronic == old(self).hadronic,
                self.ndata == old(self).ndata,
                self.nx1 == old(self).nx1,
                self.nx_grid == old(self).nx_grid,
                self.last_bin == old(self).last_bin,
                before == old(self).flavor_mask@,
            decreases flags@.len() - k,
        {
            self.flavor_mask.push(flags[k]);
            assert(flags@.subrange(0, k + 1) =~= flags@.subrange(0, k as int).push(flags@[k as int]));
            k = k + 1;
        }
        assert(flags@.subrange(0, flags@.len() as int) =~= tv.map_values(|w: Seq<char>| w == "1"@));
        Ok(FkLine::Skip)
    }

    fn kernel_line(&mut self, line: &str) -> (r: Result<FkLine, FkTableError>)
        ensures
            ({
                let (st, res) = kernel_step(old(self)@, line@);
                &&& final(self)@ == st
                &&& match res {
                    Ok(o) => r matches Ok(l) && l.is(o),
                    Err(e) => r == Err::<FkLine, FkTableError>(e),
                }
            }),
    {
        let t = split_whitespace(line);
        let ghost tv = views_of(t@);
        let bin = match read_column(&t, 0) {
            Ok(v) => v,
            Err(e) => return Err(e),
        };
        let x1 = match read_column(&t, 1) {
            Ok(v) => v,
            Err(e) => return Err(e),
        };
        let x2: usize = if self.hadronic {
            match read_column(&t, 2) {
                Ok(v) => v,
                Err(e) => return Err(e),
            }
        } else {
            0
        };
        let off: usize = if self.hadronic {
            3
        } else {
            2
        };
        let nx2: usize = if self.hadronic {
            self.nx1
        } else {
            1
        };
        if bin < self.last_bin {
            return Err(FkTableError::BinDecreases);
        }
        if bin >= self.ndata as usize || x1 >= self.nx1 || x2 >= nx2 {
            return Err(FkTableError::IndexOutOfRange);
        }
        let avail = t.len() - off;
        let n = if avail < self.flavor_mask.len() {
            avail
        } else {
            self.flavor_mask.len()
        };
        let mut values: Vec<String> = Vec::new();
        let mut i: usize = 0;
        while i < n
            invariant
                i <= n,
                n <= self.flavor_mask@.len(),
                off + n <= t@.len(),
                off + n <= usize::MAX,
                tv == views_of(t@),
                string_views(values@) == enabled_values(tv, off as int, self.flavor_mask@, i as int),
            decreases n - i,
        {
            if self.flavor_mask[i] {
                let ghost before = values@;
                let v = String::from_str(t[off + i]);
                values.push(v);
                assert(tv[off + i] == t@[off + i]@);
                assert(string_views(values@) =~= string_views(before).push(v@));
            }
            i = i + 1;
        }
        if values.len() != count_enabled_flavours(&self.flavor_mask) {
            return Err(FkTableError::ValueCountMismatch);
        }
        let flush = if bin > self.last_bin {
            Some(self.last_bin)
        } else {
            None
        };
        self.last_bin = bin;
        Ok(FkLine::Kernel(FkKernelLine { flush, bin, x1, x2, values }))
    }

    /// Takes the next line of the file: checks it against what came before and says what it
    /// contributes to the grid.
    pub fn read_line(&mut self, line: &str) -> (r: Result<FkLine, FkTableError>)
        ensures
            ({
                let (st, res) = step(old(self)@, line@);
                &&& final(self)@ == st
                &&& match res {
                    Ok(o) => r matches Ok(l) && l.is(o),
                    Err(e) => r == Err::<FkLine, FkTableError>(e),
                }
            }),
    {
        match marker_of(line) {
            Some(next) => self.enter(next),
            None => match self.section {
                FkTableSection::GridInfo => self.grid_info_line(line),
                FkTableSection::FlavourMap => self.flavour_line(line),
                FkTableSection::TheoryInfo => Ok(theory_line(line)),
                FkTableSection::Xgrid => {
                    if self.nx_grid < usize::MAX {
                        self.nx_grid = self.nx_grid + 1;
                    }
                    Ok(FkLine::XGridValue(String::from_str(line)))
                },
                FkTableSection::FastKernel => self.kernel_line(line),
                _ => Ok(FkLine::Skip),
            },
        }
    }

    /// Ends the file: returns the bin whose subgrids the last fast-kernel lines filled. Fails when
    /// the file ended before its fast kernel, or when that bin lies outside the grid.
    pub fn finish(&self) -> (r: Result<usize, FkTableError>)
        ensures
            self.section != FkTableSection::FastKernel ==> r == Err::<usize, FkTableError>(
                FkTableError::Incomplete,
            ),
            self.section == FkTableSection::FastKernel ==> r == if self.last_bin < self.ndata {
                Ok::<usize, FkTableError>(self.last_bin)
            } else {
                Err(FkTableError::IndexOutOfRange)
            },
    {
        if self.section != FkTableSection::FastKernel {
            Err(FkTableError::Incomplete)
        } else if self.last_bin < self.ndata as usize {
            Ok(self.last_bin)
        } else {
            Err(FkTableError::IndexOutOfRange)
        }
    }
}

/// The contribution of a line of the theory information.
fn theory_line(line: &str) -> (r: FkLine)
    ensures
        r.is(theory_outcome(line@)),
{
    match split_once_space(line) {
        Some((key, value)) => if str_equals(key, "*Q0:") {
            FkLine::Q0(String::from_str(value))
        } else {
            FkLine::Skip
        },
        None => FkLine::Skip,
    }
}

} // verus!
