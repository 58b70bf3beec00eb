use easyofd_signature::sign_id_parser::{NumberFormatAtomicSignId, SignIdParser, StandFormatAtomicSignId};
use easyofd_signature::sign_id_provider::{
    parse_sign_id_number, NumberSignIdProvider, SignIdProvider, StandardSignIdProvider,
};

#[test]
fn sign_id_parser_standard() {
    assert_eq!(SignIdParser::parse_standard("s001"), Some(1));
    assert_eq!(SignIdParser::parse_standard("s010"), Some(10));
    assert_eq!(SignIdParser::parse_standard("s100"), Some(100));
    assert_eq!(SignIdParser::parse_standard("abc"), None);
}

#[test]
fn sign_id_parser_number() {
    assert_eq!(SignIdParser::parse_number("1"), Some(1));
    assert_eq!(SignIdParser::parse_number("42"), Some(42));
    assert_eq!(SignIdParser::parse_number("abc"), None);
}

#[test]
fn number_format_atomic_id() {
    let mut provider = NumberFormatAtomicSignId::new();
    assert_eq!(provider.next_id(), "1");
    assert_eq!(provider.next_id(), "2");
    assert_eq!(provider.next_id(), "3");
}

#[test]
fn number_format_atomic_id_set_max() {
    let mut provider = NumberFormatAtomicSignId::new();
    provider.set_current_max(10);
    assert_eq!(provider.next_id(), "11");
}

#[test]
fn number_format_atomic_id_with_start() {
    let mut provider = NumberFormatAtomicSignId::with_start(100);
    assert_eq!(provider.next_id(), "100");
    assert_eq!(provider.next_id(), "101");
}

#[test]
fn stand_format_atomic_id() {
    let mut provider = StandFormatAtomicSignId::new();
    assert_eq!(provider.next_id(), "s001");
    assert_eq!(provider.next_id(), "s002");
    assert_eq!(provider.next_id(), "s003");
}

#[test]
fn stand_format_atomic_id_width() {
    let mut provider = StandFormatAtomicSignId::new().with_width(5);
    assert_eq!(provider.next_id(), "s00001");
}

#[test]
fn stand_format_atomic_id_set_max() {
    let mut provider = StandFormatAtomicSignId::new();
    provider.set_current_max(99);
    assert_eq!(provider.next_id(), "s100");
}

#[test]
fn test_standard_sign_id_provider_new() {
    let mut provider = StandardSignIdProvider::new();
    assert_eq!(provider.get(), "s001");
}

#[test]
fn test_standard_sign_id_provider_increment() {
    let mut provider = StandardSignIdProvider::new();
    assert_eq!(provider.get(), "s001");
    assert_eq!(provider.increment_and_get(), "s002");
    assert_eq!(provider.increment_and_get(), "s003");
    assert_eq!(provider.get(), "s004");
}

#[test]
fn test_standard_sign_id_provider_set_max() {
    let mut provider = StandardSignIdProvider::new();
    provider.set_current_max_sign_id("s005");
    assert_eq!(provider.get(), "s006");
    assert_eq!(provider.increment_and_get(), "s007");
}

#[test]
fn test_standard_sign_id_provider_parse() {
    let provider = StandardSignIdProvider::new();
    assert_eq!(provider.parse_id("s001").unwrap(), 1);
    assert_eq!(provider.parse_id("s010").unwrap(), 10);
    assert!(provider.parse_id("abc").is_err());
}

#[test]
fn test_standard_sign_id_provider_width() {
    let mut provider = StandardSignIdProvider::new().with_width(5);
    assert_eq!(provider.get(), "s00001");
}

#[test]
fn test_number_sign_id_provider() {
    let mut provider = NumberSignIdProvider::new();
    assert_eq!(provider.get(), "1");
    assert_eq!(provider.increment_and_get(), "2");
    assert_eq!(provider.increment_and_get(), "3");
}

#[test]
fn test_number_sign_id_provider_set_max() {
    let mut provider = NumberSignIdProvider::new();
    provider.set_current_max_sign_id("10");
    assert_eq!(provider.get(), "11");
}

#[test]
fn test_parse_sign_id_number() {
    assert_eq!(parse_sign_id_number("s001"), Some(1));
    assert_eq!(parse_sign_id_number("s010"), Some(10));
    assert_eq!(parse_sign_id_number("s100"), Some(100));
    assert_eq!(parse_sign_id_number("abc"), None);
}

#[test]
fn parse_id_error_messages() {
    let standard = StandardSignIdProvider::new();
    assert_eq!(standard.parse_id("abc").unwrap_err(), "无法解析签章 ID: abc");
    let number = NumberSignIdProvider::new();
    assert_eq!(number.parse_id("x1").unwrap_err(), "无法解析签章 ID: invalid digit found in string");
    assert_eq!(number.parse_id("4294967296").unwrap_err(), "无法解析签章 ID: number too large to fit in target type");
    assert_eq!(number.parse_id("+7").unwrap(), 7);
}

#[test]
fn standard_id_wider_than_width_is_not_cut() {
    let mut provider = StandFormatAtomicSignId::new();
    provider.set_current_max(12344);
    assert_eq!(provider.next_id(), "s12345");
}

#[test]
fn issued_ids_read_back() {
    let mut std_ids = StandFormatAtomicSignId::new().with_width(5);
    std_ids.set_current_max(41);
    let id = std_ids.next_id();
    assert_eq!(id, "s00042");
    assert_eq!(SignIdParser::parse_standard(&id), Some(42));
    let mut num_ids = NumberFormatAtomicSignId::with_start(4_000_000_000);
    let id = num_ids.next_id();
    assert_eq!(SignIdParser::parse_number(&id), Some(4_000_000_000));
    assert_eq!(SignIdParser::parse_standard("s0000000007"), Some(7));
}
