use easyofd_signature::stamppos::side::Side;

#[test]
fn display_and_parse() {
    for side in Side::all().iter() {
        let s = side.to_string();
        let parsed: Side = s.parse().unwrap();
        assert_eq!(parsed, *side);
    }
}

#[test]
fn is_horizontal() {
    assert!(Side::Left.is_horizontal());
    assert!(Side::Right.is_horizontal());
    assert!(!Side::Top.is_horizontal());
    assert!(!Side::Bottom.is_horizontal());
}

#[test]
fn is_vertical() {
    assert!(Side::Top.is_vertical());
    assert!(Side::Bottom.is_vertical());
    assert!(!Side::Left.is_vertical());
    assert!(!Side::Right.is_vertical());
}

#[test]
fn parse_case_insensitive() {
    assert_eq!("left".parse::<Side>().unwrap(), Side::Left);
    assert_eq!("RIGHT".parse::<Side>().unwrap(), Side::Right);
    assert!("unknown".parse::<Side>().is_err());
}

#[test]
fn all_contains_four() {
    assert_eq!(Side::all().len(), 4);
}

#[test]
fn parse_error_names_the_text() {
    assert_eq!("Lft".parse::<Side>().unwrap_err(), "未知的骑缝章方向: Lft");
    assert!("lEFT".parse::<Side>().is_err());
}
