use assembl_really::machine::register::RegisterName;
use assembl_really::parser::token::Token;

#[test]
fn token_from_str_parses_register_name() -> Result<(), String> {
    let t1 = Token::from_str("eax")?;
    let t2 = Token::from_str("bp")?;
    
    assert_eq!(t1, Token::Register(RegisterName::Eax));
    assert_eq!(t2, Token::Register(RegisterName::Bp));

    Ok(())
}

#[test]
fn token_from_str_parses_string_value() -> Result<(), String> {
    let t1 = Token::from_str("\"Hello World\"")?;
    let t2 = Token::from_str("\"Welcome\"")?;
    let t3 = Token::from_str("\"123\"")?;

    assert_eq!(t1, Token::String("Hello World".to_string()));
    assert_eq!(t2, Token::String("Welcome".to_string()));
    assert_eq!(t3, Token::String("123".to_string()));

    Ok(())
}

#[test]
fn token_from_str_err_on_invalid_string_value() {
    let t1 = Token::from_str("D\"og");
    let t2 = Token::from_str("\"Do\"g");

    assert!(t1.err() == Some("Could not parse `D\"og` as a string value.".to_string()));
    assert!(t2.err() == Some("Could not parse `\"Do\"g` as a string value.".to_string()));
}

#[test]
fn token_from_str_parses_hexadecimal_value() -> Result<(), String> {
    let t1 = Token::from_str("0x0")?;
    let t2 = Token::from_str("0xa")?;
    let t3 = Token::from_str("0x1a35e")?;
    
    assert_eq!(t1, Token::Numeric(0x0));
    assert_eq!(t2, Token::Numeric(0xa));
    assert_eq!(t3, Token::Numeric(0x1a35e));

    Ok(())
}

#[test]
fn token_from_str_err_on_invalid_hexadecimal_value() {
    let t1 = Token::from_str("0x");
    let t2 = Token::from_str("0xq4");

    assert!(t1.err() == Some("Could not parse `0x` as a hexadecimal value.".to_string()));
    assert!(t2.err() == Some("Could not parse `0xq4` as a hexadecimal value.".to_string()));
}

#[test]
fn token_from_str_parses_binary_value() -> Result<(), String> {
    let t1 = Token::from_str("0b0")?;
    let t2 = Token::from_str("0b11010110")?;
    let t3 = Token::from_str("0b1010111010001001")?;

    assert_eq!(t1, Token::Numeric(0b0));
    assert_eq!(t2, Token::Numeric(0b11010110));
    assert_eq!(t3, Token::Numeric(0b1010111010001001));

    Ok(())
}

#[test]
fn token_from_str_err_on_invalid_binary_value() {
    let t1 = Token::from_str("0b");
    let t2 = Token::from_str("0b21");

    assert!(t1.err() == Some("Could not parse `0b` as a binary value.".to_string()));
    assert!(t2.err() == Some("Could not parse `0b21` as a binary value.".to_string()));
}

#[test]
fn token_from_str_parses_decimal_value() -> Result<(), String> {
    let t1 = Token::from_str("0")?;
    let t2 = Token::from_str("10")?;
    let t3 = Token::from_str("219384")?;

    assert_eq!(t1, Token::Numeric(0));
    assert_eq!(t2, Token::Numeric(10));
    assert_eq!(t3, Token::Numeric(219_384));

    Ok(())
}

#[test]
fn token_from_str_err_on_invalid_decimal_value() {
    let t1 = Token::from_str("1_000");
    let t2 = Token::from_str("11.4");
    let t3 = Token::from_str("6r");

    assert!(t1.err() == Some("Could not parse `1_000` as a decimal value.".to_string()));
    assert!(t2.err() == Some("Could not parse `11.4` as a decimal value.".to_string()));
    assert!(t3.err() == Some("Could not parse `6r` as a decimal value.".to_string()));
}

#[test]
fn token_from_str_parses_identifier_name() -> Result<(), String> {
    let t1 = Token::from_str("asmr::io::println")?;
    let t2 = Token::from_str("msg1")?;
    let t3 = Token::from_str(".loop")?;

    assert_eq!(t1, Token::Identifier("asmr::io::println".to_string()));
    assert_eq!(t2, Token::Identifier("msg1".to_string()));
    assert_eq!(t3, Token::Identifier(".loop".to_string()));

    Ok(())
}

#[test]
fn token_from_str_err_on_invalid_identifier_name() {
    let t1 = Token::from_str("question mark");
    let t2 = Token::from_str("#seven");

    assert!(t1.err() == Some("Could not parse token `question mark`. Was this meant to be an identifier? Identifiers must be strictly [a-z, A-Z, 0-9, _, ., :] and must start with [a-z, A-Z. _, .].".to_string()));
    assert!(t2.err() == Some("Could not parse token `#seven`. Was this meant to be an identifier? Identifiers must be strictly [a-z, A-Z, 0-9, _, ., :] and must start with [a-z, A-Z. _, .].".to_string()));
}
