use pineappl::fktable::{FkLine, FkTableError, FkTableReader, FkTableSection};
use pineappl::order::Order;
use pineappl::pids::Basis;

const GRID_DESC: &str = "{GridDesc___________________________________________________";
const VERSION_INFO: &str = "_VersionInfo________________________________________________";
const GRID_INFO: &str = "_GridInfo___________________________________________________";
const FLAVOUR_MAP: &str = "{FlavourMap_________________________________________________";
const THEORY_INFO: &str = "_TheoryInfo_________________________________________________";
const X_GRID: &str = "{xGrid______________________________________________________";
const FAST_KERNEL: &str = "{FastKernel_________________________________________________";

fn read_all(reader: &mut FkTableReader, lines: &[&str]) -> Result<Vec<FkLine>, FkTableError> {
    lines.iter().map(|line| reader.read_line(line)).collect()
}

fn dis_header(ndata: &str, nx: &str) -> Vec<String> {
    vec![
        GRID_DESC.to_string(),
        "a deep-inelastic table".to_string(),
        VERSION_INFO.to_string(),
        "*CODE: test".to_string(),
        GRID_INFO.to_string(),
        "*SETNAME: TEST".to_string(),
        "*HADRONIC: 0".to_string(),
        format!("*NDATA: {ndata}"),
        format!("*NX: {nx}"),
        FLAVOUR_MAP.to_string(),
        "0 1 1 0 0 0 0".to_string(),
        "0 0 0 0 0 0 0".to_string(),
        THEORY_INFO.to_string(),
        "*Q0: 1.65".to_string(),
        "*PTO: 2".to_string(),
        X_GRID.to_string(),
        "0.1".to_string(),
        "0.5".to_string(),
        FAST_KERNEL.to_string(),
    ]
}

#[test]
fn deep_inelastic_table() {
    let header = dis_header("2", "2");
    let header: Vec<&str> = header.iter().map(String::as_str).collect();
    let mut reader = FkTableReader::new(11);
    let lines = read_all(&mut reader, &header).unwrap();

    let q0: Vec<&String> = lines
        .iter()
        .filter_map(|l| match l {
            FkLine::Q0(v) => Some(v),
            _ => None,
        })
        .collect();
    assert_eq!(q0, vec!["1.65"]);
    let xs: Vec<&String> = lines
        .iter()
        .filter_map(|l| match l {
            FkLine::XGridValue(v) => Some(v),
            _ => None,
        })
        .collect();
    assert_eq!(xs, vec!["0.1", "0.5"]);
    match lines.last().unwrap() {
        FkLine::Start(start) => {
            assert_eq!(start.lumi, vec![(100, 11), (21, 11)]);
            assert_eq!((start.nx1, start.nx2), (2, 1));
            assert_eq!(start.orders, vec![Order::new(0, 0, 0, 0)]);
            assert_eq!(start.bins, 2);
            assert_eq!(start.basis, Basis::Evol);
            assert_eq!(start.basis.lumi_id_types(), "evol");
            assert_eq!(start.initial_state_1, 2212);
            assert_eq!(start.initial_state_2, Some(11));
        }
        _ => panic!("expected the start of the fast kernel"),
    }
    assert_eq!(reader.section, FkTableSection::FastKernel);
    assert_eq!(reader.flavor_mask.len(), 14);
    assert!(!reader.hadronic);
    assert_eq!(reader.ndata, 2);

    match reader.read_line("0 1 9 1.5 2.5 7 7 7 7 7 7 7 7 7 7").unwrap() {
        FkLine::Kernel(k) => {
            assert_eq!((k.flush, k.bin, k.x1, k.x2), (None, 0, 1, 0));
            assert_eq!(k.values, vec!["1.5", "2.5"]);
        }
        _ => panic!("expected a kernel line"),
    }
    match reader.read_line("1  0\t9 3.0 4.0").unwrap() {
        FkLine::Kernel(k) => {
            assert_eq!((k.flush, k.bin, k.x1, k.x2), (Some(0), 1, 0, 0));
            assert_eq!(k.values, vec!["3.0", "4.0"]);
        }
        _ => panic!("expected a kernel line"),
    }
    assert_eq!(reader.finish().unwrap(), 1);
}

#[test]
fn hadronic_table() {
    let mut mask = vec!["0"; 196];
    mask[0] = "1"; // (22, 22)
    mask[14 + 2] = "1"; // (100, 21)
    let mask = mask.join(" ");
    let lines = vec![
        GRID_DESC, VERSION_INFO, GRID_INFO, "*HADRONIC: 1", "*NDATA: 1", "*NX: 1", FLAVOUR_MAP,
        &mask, THEORY_INFO, X_GRID, "0.25", FAST_KERNEL,
    ];
    let mut reader = FkTableReader::new(11);
    let out = read_all(&mut reader, &lines).unwrap();
    match out.last().unwrap() {
        FkLine::Start(start) => {
            assert_eq!(start.lumi, vec![(22, 22), (100, 21)]);
            assert_eq!((start.nx1, start.nx2), (1, 1));
            assert_eq!(start.orders, vec![Order::new(0, 0, 0, 0)]);
            assert_eq!(start.bins, 1);
            assert_eq!(start.initial_state_1, 2212);
            assert_eq!(start.initial_state_2, None);
        }
        _ => panic!("expected the start of the fast kernel"),
    }
    let mut kernel = vec!["0", "0", "0"];
    let mut values = vec!["0"; 196];
    values[0] = "5";
    values[16] = "6";
    kernel.extend(values);
    match reader.read_line(&kernel.join(" ")).unwrap() {
        FkLine::Kernel(k) => {
            assert_eq!((k.flush, k.bin, k.x1, k.x2), (None, 0, 0, 0));
            assert_eq!(k.values, vec!["5", "6"]);
        }
        _ => panic!("expected a kernel line"),
    }
    assert_eq!(reader.read_line("0 0 1").err(), Some(FkTableError::IndexOutOfRange));
    assert_eq!(reader.read_line("0 0").err(), Some(FkTableError::MissingColumns));
    assert_eq!(reader.read_line("0 0 0 5").err(), Some(FkTableError::ValueCountMismatch));
}

#[test]
fn sections_out_of_order() {
    let mut reader = FkTableReader::new(11);
    assert_eq!(reader.read_line(VERSION_INFO).err(), Some(FkTableError::SectionOutOfOrder));
    assert_eq!(reader.finish().err(), Some(FkTableError::Incomplete));
    reader.read_line(GRID_DESC).unwrap();
    assert_eq!(reader.read_line(GRID_DESC).err(), Some(FkTableError::SectionOutOfOrder));
}

#[test]
fn malformed_grid_information() {
    let mut reader = FkTableReader::new(11);
    read_all(&mut reader, &[GRID_DESC, VERSION_INFO, GRID_INFO]).unwrap();
    assert_eq!(reader.read_line("*HADRONIC: 2").err(), Some(FkTableError::UnsupportedHadronic));
    assert_eq!(reader.read_line("*NDATA: 70000").err(), Some(FkTableError::InvalidInteger));
    assert_eq!(reader.read_line("*NX: x").err(), Some(FkTableError::InvalidInteger));
    assert_eq!(reader.read_line("*FOO: 1").err(), Some(FkTableError::UnsupportedKey));
    assert!(matches!(reader.read_line("no-space-here"), Ok(FkLine::Skip)));
    reader.read_line(FLAVOUR_MAP).unwrap();
    assert_eq!(reader.read_line("0 1 2").err(), Some(FkTableError::UnsupportedFlavour));
}

#[test]
fn x_grid_length_must_match() {
    let header = dis_header("1", "3");
    let header: Vec<&str> = header.iter().map(String::as_str).collect();
    let mut reader = FkTableReader::new(11);
    let n = header.len();
    read_all(&mut reader, &header[..n - 1]).unwrap();
    assert_eq!(
        reader.read_line(header[n - 1]).err(),
        Some(FkTableError::XGridLengthMismatch)
    );
}

#[test]
fn bins_must_not_decrease() {
    let header = dis_header("3", "2");
    let header: Vec<&str> = header.iter().map(String::as_str).collect();
    let mut reader = FkTableReader::new(11);
    read_all(&mut reader, &header).unwrap();
    reader.read_line("2 0 0 1 1").unwrap();
    assert_eq!(reader.read_line("1 0 0 1 1").err(), Some(FkTableError::BinDecreases));
    assert_eq!(reader.read_line("3 0 0 1 1").err(), Some(FkTableError::IndexOutOfRange));
    assert_eq!(reader.read_line("x 0 0 1 1").err(), Some(FkTableError::InvalidInteger));
}

#[test]
fn flavour_beyond_the_basis() {
    let header = dis_header("1", "2");
    let mut header: Vec<&str> = header.iter().map(String::as_str).collect();
    header[11] = "0 0 0 0 0 0 0 1";
    let mut reader = FkTableReader::new(11);
    let n = header.len();
    read_all(&mut reader, &header[..n - 1]).unwrap();
    assert_eq!(
        reader.read_line(header[n - 1]).err(),
        Some(FkTableError::FlavourMapTooLong)
    );
}

#[test]
fn empty_table_has_no_bin() {
    let header = dis_header("0", "2");
    let header: Vec<&str> = header.iter().map(String::as_str).collect();
    let mut reader = FkTableReader::new(11);
    read_all(&mut reader, &header).unwrap();
    assert_eq!(reader.finish().err(), Some(FkTableError::IndexOutOfRange));
}
