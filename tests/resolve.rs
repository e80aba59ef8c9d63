use portscan::range::{parsear_rango, ScanError};

#[test]
fn single_port() {
    assert_eq!(parsear_rango("80"), Ok(vec![80]));
    assert_eq!(parsear_rango("0"), Ok(vec![0]));
    assert_eq!(parsear_rango("65535"), Ok(vec![65535]));
    assert_eq!(parsear_rango("080"), Ok(vec![80]));
}

#[test]
fn ascending_range() {
    assert_eq!(parsear_rango("20-22"), Ok(vec![20, 21, 22]));
    assert_eq!(parsear_rango("7-7"), Ok(vec![7]));
    let all = parsear_rango("0-65535").unwrap();
    assert_eq!(all.len(), 65536);
    assert_eq!(all[0], 0);
    assert_eq!(all[65535], 65535);
    assert!(all.windows(2).all(|w| w[0] + 1 == w[1]));
}

#[test]
fn inverted_range_is_empty() {
    assert_eq!(parsear_rango("1-0"), Ok(vec![]));
    assert_eq!(parsear_rango("1-0"), parsear_rango("1-0"));
    assert_eq!(parsear_rango("65535-0"), Ok(vec![]));
}

#[test]
fn malformed_specs_rejected() {
    for s in ["abc", "1-2-3", "", "-", "-5", "5-", "1--2", "8O", " 80", "80 ", "+80", "1-a"] {
        assert_eq!(parsear_rango(s), Err(ScanError::InvalidPortSpec), "spec {:?}", s);
    }
}

#[test]
fn out_of_range_numbers_rejected() {
    assert_eq!(parsear_rango("65536"), Err(ScanError::InvalidPortSpec));
    assert_eq!(parsear_rango("1-70000"), Err(ScanError::InvalidPortSpec));
    assert_eq!(parsear_rango("99999999999999999999"), Err(ScanError::InvalidPortSpec));
    assert_eq!(parsear_rango("00000000000000000080"), Ok(vec![80]));
}
