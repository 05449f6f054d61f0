use pineappl::args::ArgError;
use pineappl::order::{bin_selected, order_mask, parse_order, ConvoluteMode, Order};

#[test]
fn orders_in_coupling_notation() {
    assert_eq!(parse_order("a2").unwrap(), (0, 2));
    assert_eq!(parse_order("as1").unwrap(), (1, 0));
    assert_eq!(parse_order("as1a2").unwrap(), (1, 2));
    assert_eq!(parse_order("a3as2").unwrap(), (2, 3));
    assert_eq!(parse_order("").unwrap(), (0, 0));
    assert_eq!(parse_order("as12a0").unwrap(), (12, 0));
}

#[test]
fn wrong_order_notation() {
    match parse_order("a2a2as2") {
        Err(ArgError::TooManyCouplings(o)) => assert_eq!(o, "a2a2as2"),
        _ => panic!("expected too many couplings"),
    }
    match parse_order("asx") {
        Err(ArgError::InvalidOrder(o)) => assert_eq!(o, "asx"),
        _ => panic!("expected an invalid order"),
    }
    assert!(matches!(parse_order("a"), Err(ArgError::InvalidOrder(_))));
    assert!(matches!(parse_order("as99999999999"), Err(ArgError::InvalidOrder(_))));
}

#[test]
fn order_selection() {
    let orders = vec![
        Order::new(2, 0, 0, 0),
        Order::new(3, 0, 0, 0),
        Order::new(2, 1, 0, 0),
        Order::new(3, 0, 1, 0),
    ];
    assert_eq!(order_mask(&orders, &[]), vec![true, true, true, true]);
    assert_eq!(order_mask(&orders, &[(3, 0)]), vec![false, true, false, true]);
    assert_eq!(order_mask(&orders, &[(2, 1), (2, 0)]), vec![true, false, true, false]);
    assert_eq!(order_mask(&orders, &[(5, 5)]), vec![false, false, false, false]);
    let order = Order::new(1, 2, 3, 4);
    assert_eq!((order.alphas, order.alpha, order.logxir, order.logxif), (1, 2, 3, 4));
}

#[test]
fn bin_selection() {
    assert!(bin_selected(&[], 7));
    assert!(bin_selected(&[1, 3, 5, 6, 7], 5));
    assert!(!bin_selected(&[1, 3, 5, 6, 7], 4));
    assert_ne!(ConvoluteMode::Integrated, ConvoluteMode::Normal);
}
