use pingoo::ip::{Ipv4Addr, Ipv6Addr};
use pingoo::rules::{is_match, CidrV4, CidrV6, ExpressionValue, Rule};
use pingoo::ruleset::{
    check_functions, compile_expression, compiled_program, validate_expression, Action,
    CompileOutcome, Error,
};

fn reason(err: Error) -> String {
    match err {
        Error::ExpressionIsNotValid(reason) => reason,
        _ => panic!("another error"),
    }
}

fn rule(expression: Option<bool>) -> Rule<bool> {
    Rule {
        name: "rule".to_owned(),
        expression,
        actions: vec![Action::Block {}],
        cidr_v4: None,
        cidr_v6: None,
    }
}

#[test]
fn v4_block_holds_its_addresses() {
    let block = CidrV4::new(Ipv4Addr::new(10, 1, 2, 3), 8);
    assert!(block.contains(Ipv4Addr::new(10, 255, 0, 1)));
    assert!(!block.contains(Ipv4Addr::new(11, 1, 2, 3)));
    assert_eq!(8, block.prefix);
    assert_eq!(Ipv4Addr::new(10, 1, 2, 3), block.network);

    let block = CidrV4::new(Ipv4Addr::new(192, 168, 1, 128), 25);
    assert!(block.contains(Ipv4Addr::new(192, 168, 1, 200)));
    assert!(!block.contains(Ipv4Addr::new(192, 168, 1, 127)));
}

#[test]
fn v4_block_extremes() {
    let all = CidrV4::new(Ipv4Addr::new(1, 2, 3, 4), 0);
    assert!(all.contains(Ipv4Addr::new(255, 255, 255, 255)));
    let one = CidrV4::new(Ipv4Addr::new(1, 2, 3, 4), 32);
    assert!(one.contains(Ipv4Addr::new(1, 2, 3, 4)));
    assert!(!one.contains(Ipv4Addr::new(1, 2, 3, 5)));
}

#[test]
fn v6_block_holds_its_addresses() {
    let network = Ipv6Addr::from_bits(0x2001_0db8_0000_0000_0000_0000_0000_0001);
    let block = CidrV6::new(network, 32);
    assert!(block.contains(Ipv6Addr::from_bits(0x2001_0db8_ffff_0000_0000_0000_0000_0000)));
    assert!(!block.contains(Ipv6Addr::from_bits(0x2001_0db9_0000_0000_0000_0000_0000_0001)));
    let all = CidrV6::new(network, 0);
    assert!(all.contains(Ipv6Addr::from_bits(u128::MAX)));
    let one = CidrV6::new(network, 128);
    assert!(one.contains(network));
    assert!(!one.contains(Ipv6Addr::from_bits(network.to_bits() + 1)));
}

#[test]
fn blocks_nest() {
    let outer = CidrV4::new(Ipv4Addr::new(10, 0, 0, 0), 8);
    let inner = CidrV4::new(Ipv4Addr::new(10, 7, 0, 0), 16);
    for last in 0..=255 {
        let ip = Ipv4Addr::new(10, 7, 9, last);
        assert!(inner.contains(ip));
        assert!(outer.contains(ip));
    }
    assert!(outer.contains(Ipv4Addr::new(10, 8, 0, 0)));
    assert!(!inner.contains(Ipv4Addr::new(10, 8, 0, 0)));
}

#[test]
fn copied_blocks_hold_the_same_addresses() {
    let block = CidrV4::new(Ipv4Addr::new(10, 1, 2, 3), 8).clone();
    assert!(block.contains(Ipv4Addr::new(10, 255, 0, 1)));
    assert!(!block.contains(Ipv4Addr::new(11, 1, 2, 3)));
    let block = CidrV6::new(Ipv6Addr::from_bits(1 << 127), 1).clone();
    assert!(block.contains(Ipv6Addr::from_bits(u128::MAX)));
    assert!(!block.contains(Ipv6Addr::from_bits(1)));
}

#[test]
fn addresses_keep_their_bits() {
    assert_eq!(0x0102_0304, Ipv4Addr::new(1, 2, 3, 4).to_bits());
    assert_eq!(Ipv4Addr::new(1, 2, 3, 4), Ipv4Addr::from_bits(0x0102_0304));
}

#[test]
fn only_true_matches() {
    assert!(is_match(Ok(ExpressionValue::Bool(true))));
    assert!(!is_match(Ok(ExpressionValue::Bool(false))));
    assert!(!is_match(Ok(ExpressionValue::Other)));
    assert!(!is_match(Err("no such variable".to_owned())));
}

#[test]
fn rule_matches_by_its_expression() {
    let execute = |expression: &bool, ctx: &bool| Ok(ExpressionValue::Bool(*expression && *ctx));
    assert!(rule(Some(true)).match_request(&true, execute));
    assert!(!rule(Some(true)).match_request(&false, execute));
    assert!(!rule(Some(false)).match_request(&true, execute));
    let fail = |_: &bool, _: &bool| Err("no such variable".to_owned());
    assert!(!rule(Some(true)).match_request(&true, fail));
    assert!(rule(None).match_request(&true, fail));
}

#[test]
fn compiled_program_says_what_went_wrong() {
    assert_eq!(7, compiled_program(CompileOutcome::Compiled(7)).unwrap());
    let refused: CompileOutcome<u8> = CompileOutcome::Rejected("unexpected )".to_owned());
    assert_eq!("unexpected )", reason(compiled_program(refused).unwrap_err()));
    let panicked: CompileOutcome<u8> = CompileOutcome::Panicked;
    assert_eq!("invalid input", reason(compiled_program(panicked).unwrap_err()));
}

#[test]
fn expression_reaches_the_compiler() {
    let compile = |expression: &str| CompileOutcome::Compiled(expression.to_owned());
    assert_eq!("1 == 1", compile_expression("1 == 1", compile).unwrap());
    let refuse = |_: &str| -> CompileOutcome<u8> { CompileOutcome::Rejected("no".to_owned()) };
    assert_eq!("no", reason(compile_expression("1 ==", refuse).unwrap_err()));
}

#[test]
fn validation_refuses_what_may_not_run() {
    let compile = |expression: &str| CompileOutcome::Compiled(expression.to_owned());
    let none = |_: &String| vec!["contains".to_owned(), "in".to_owned()];
    let with_in = |_: &String| vec!["contains".to_owned(), "@in".to_owned()];
    assert!(validate_expression("1 == 1", compile, none).is_ok());
    assert_eq!(
        "expression is empty",
        reason(validate_expression("", compile, none).unwrap_err())
    );
    assert_eq!(
        "unknown operator: in",
        reason(validate_expression("1 in [1]", compile, with_in).unwrap_err())
    );
    let refuse = |_: &str| -> CompileOutcome<String> { CompileOutcome::Rejected("no".to_owned()) };
    assert_eq!("no", reason(validate_expression("1 ==", refuse, none).unwrap_err()));
    let panic = |_: &str| -> CompileOutcome<String> { CompileOutcome::Panicked };
    assert_eq!("invalid input", reason(validate_expression("((", panic, none).unwrap_err()));
}

#[test]
fn only_the_in_operator_is_refused() {
    assert!(check_functions(&vec![]).is_ok());
    assert!(check_functions(&vec!["length".to_owned()]).is_ok());
    let functions = vec!["@in".to_owned(), "length".to_owned()];
    assert_eq!("unknown operator: in", reason(check_functions(&functions).unwrap_err()));
}

#[test]
fn rule_errors_say_what_is_wrong() {
    let text = || "x".to_owned();
    assert_eq!("x", Error::Unspecified(text()).message());
    assert_eq!("Expression is not valid: x", Error::ExpressionIsNotValid(text()).message());
    assert_eq!("x", Error::ParseIntError(text()).message());
    assert_eq!("x", Error::AddrParseError(text()).message());
    assert_eq!(
        "invalid CIDR format, expected <network>/<prefix>, got: x",
        Error::InvalidCidrFormatError(text()).message()
    );
}

#[test]
fn server_errors_say_what_is_wrong() {
    let text = || "x".to_owned();
    assert_eq!("x", pingoo::error::Error::Config(text()).message());
    assert_eq!("error loading config: x", pingoo::error::Error::Unspecified(text()).message());
    assert_eq!("x", pingoo::error::Error::Tls(text()).message());
    assert_eq!("x", pingoo::error::Error::IO(text()).message());
    let listening = pingoo::error::Error::Listening {
        listener: "http".to_owned(),
        address: "0.0.0.0:80".to_owned(),
        err: "denied".to_owned(),
    };
    assert_eq!("error listening http on 0.0.0.0:80: denied", listening.message());
}
