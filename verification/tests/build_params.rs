use jenkins_remote::build_param::BuildParam;
use jenkins_remote::error::ClientError;
use jenkins_remote::jenkins::Signal;
use jenkins_remote::text::decimal_string;

#[test]
fn a_number_is_one_build() {
    assert_eq!(BuildParam::from_str("5"), Ok(BuildParam::Once(5)));
    assert_eq!(BuildParam::from_str("0"), Ok(BuildParam::Once(0)));
    assert_eq!(BuildParam::from_str("007"), Ok(BuildParam::Once(7)));
    assert_eq!(BuildParam::from_str("+12"), Ok(BuildParam::Once(12)));
}

#[test]
fn two_dots_leave_the_end_out() {
    assert_eq!(BuildParam::from_str("1..5"), Ok(BuildParam::Range(1, 5)));
    assert_eq!(BuildParam::from_str("5..3"), Ok(BuildParam::Range(5, 3)));
}

#[test]
fn the_equals_sign_takes_the_end_in() {
    assert_eq!(BuildParam::from_str("1..=5"), Ok(BuildParam::Range(1, 6)));
    assert_eq!(BuildParam::from_str("4..=4"), Ok(BuildParam::Range(4, 5)));
}

#[test]
fn malformed_selectors_are_rejected() {
    assert_eq!(BuildParam::from_str(""), Err(ClientError::InvalidBuildSpec));
    assert_eq!(BuildParam::from_str("abc"), Err(ClientError::InvalidBuildSpec));
    assert_eq!(BuildParam::from_str("5.."), Err(ClientError::InvalidBuildSpec));
    assert_eq!(BuildParam::from_str("..5"), Err(ClientError::InvalidBuildSpec));
    assert_eq!(BuildParam::from_str("1..=x"), Err(ClientError::InvalidBuildSpec));
    assert_eq!(BuildParam::from_str("-1"), Err(ClientError::InvalidBuildSpec));
    assert_eq!(BuildParam::from_str("1...5"), Err(ClientError::InvalidBuildSpec));
    assert_eq!(BuildParam::from_str("1..2..3"), Err(ClientError::InvalidBuildSpec));
    assert_eq!(BuildParam::from_str("1 .. 5"), Err(ClientError::InvalidBuildSpec));
    assert_eq!(BuildParam::from_str("+"), Err(ClientError::InvalidBuildSpec));
}

#[test]
fn numbers_stop_at_sixty_four_bits() {
    assert_eq!(
        BuildParam::from_str("18446744073709551615"),
        Ok(BuildParam::Once(u64::MAX))
    );
    assert_eq!(
        BuildParam::from_str("18446744073709551616"),
        Err(ClientError::InvalidBuildSpec)
    );
    assert_eq!(
        BuildParam::from_str("0..18446744073709551615"),
        Ok(BuildParam::Range(0, u64::MAX))
    );
    assert_eq!(
        BuildParam::from_str("0..=18446744073709551615"),
        Err(ClientError::InvalidBuildSpec)
    );
    assert_eq!(
        BuildParam::from_str("0..=18446744073709551614"),
        Ok(BuildParam::Range(0, u64::MAX))
    );
}

#[test]
fn numerals_read_back() {
    for n in [0u64, 9, 10, 99, 100, 12345, u64::MAX] {
        let text = decimal_string(n);
        assert_eq!(text, format!("{}", n));
        assert_eq!(BuildParam::from_str(&text), Ok(BuildParam::Once(n)));
    }
}

#[test]
fn signals_by_name_and_number() {
    assert_eq!(Signal::from_str("HUP"), Ok(Signal::Hup));
    assert_eq!(Signal::from_str("1"), Ok(Signal::Hup));
    assert_eq!(Signal::from_str("TERM"), Ok(Signal::Term));
    assert_eq!(Signal::from_str("15"), Ok(Signal::Term));
    assert_eq!(Signal::from_str("KILL"), Ok(Signal::Kill));
    assert_eq!(Signal::from_str("9"), Ok(Signal::Kill));
    assert_eq!(Signal::from_str("INT"), Err("INT".to_string()));
    assert_eq!(Signal::from_str("term"), Err("term".to_string()));
    assert_eq!(Signal::from_str(""), Err(String::new()));
}
