use treelang::scanner::Scanner;
use treelang::token::TokenType;
use treelang::token::Token;
use treelang::numerics::{dbl_add_bits, dbl_mul_bits, dbl_div_bits, dbl_eq_bits, dbl_lt_bits};
use treelang::expr::ExprLiteral;
use treelang::environment::Environment;

#[test]
fn handle_one_char_tokens() {
    let sources = "(())".to_string();
    let mut scan = Scanner::new(sources);
    let res = scan.scan_tokens().unwrap();
    assert_eq!(res.len(), 5);
    assert_eq!(res[0].token_type, TokenType::LeftParen);
    assert_eq!(res[4].token_type, TokenType::Eof);
}

#[test]
fn handle_two_char_tokens() {
    let sources = "! != > >= < <= == =".to_string();
    let mut scan = Scanner::new(sources);
    let res = scan.scan_tokens();
    match res {
        Ok(_) => {}
        Err(st) => {
            println!("print is -> {}", st);
        }
    }
}

#[test]
fn handle_equal_char_tokens() {
    let sources = " qweqew \"123\" //aaa".to_string();
    let mut scan = Scanner::new(sources);
    let res = scan.scan_tokens();
    match res {
        Ok(_) => {}
        Err(st) => {
            println!("print is -> {}", st);
        }
    }
}

#[test]
fn handle_equal_string_tokens() {
    let sources = ">= \"1234\" ==".to_string();
    let mut scan = Scanner::new(sources);
    let res = scan.scan_tokens();
    match res {
        Ok(_) => {}
        Err(st) => {
            println!("print is -> {}", st);
        }
    }
}

#[test]
fn handle_equal_iden_tokens() {
    let sources = ">= _abc = 1.123 ==".to_string();
    let mut scan = Scanner::new(sources);
    let res = scan.scan_tokens();
    match res {
        Ok(_) => {}
        Err(st) => {
            println!("print is -> {}", st);
        }
    }
}

#[test]
fn handle_equal_keyword_tokens() {
    let sources = ">= var nil iff if".to_string();
    let mut scan = Scanner::new(sources);
    let res = scan.scan_tokens();
    match res {
        Ok(_) => {}
        Err(st) => {
            println!("print is -> {}", st);
        }
    }
}

#[test]
fn handle_real_sentence() {
    let sources = "var num = 10.0 \n while true { num >= 1.0 }".to_string();
    let mut scan = Scanner::new(sources);
    let res = scan.scan_tokens().unwrap();
    assert_eq!(res.len(), 12);
    assert_eq!(res[0].token_type, TokenType::Var);
    assert_eq!(res[1].token_type, TokenType::Identifier);
    assert_eq!(res[2].token_type, TokenType::Equal);
    assert_eq!(res[3].token_type, TokenType::Number);
    assert_eq!(res[4].token_type, TokenType::While);
    assert_eq!(res[5].token_type, TokenType::True);
    assert_eq!(res[6].token_type, TokenType::LeftBrace);
    assert_eq!(res[7].token_type, TokenType::Identifier);
    assert_eq!(res[8].token_type, TokenType::GreaterEqual);
    assert_eq!(res[9].token_type, TokenType::Number);
    assert_eq!(res[10].token_type, TokenType::RightBrace);
    assert_eq!(res[11].token_type, TokenType::Eof);
}

#[test]
fn handle_two_sentence() {
    let sources = "var num = 10.0; \n while true { num >= 1.0 }".to_string();
    let mut scan = Scanner::new(sources);
    let res = scan.scan_tokens();
    match res {
        Ok(v) => {
            assert_eq!(v[2].token_type, TokenType::Equal);
        }
        Err(st) => {
            println!("print is -> {}", st);
        }
    }
}

#[test]
fn unterminated_string_reports_error() {
    let sources = "\"abc".to_string();
    let mut scan = Scanner::new(sources);
    let res = scan.scan_tokens();
    assert!(res.is_err());
    assert!(res.unwrap_err().contains("Unterminated String Error!"));
}

#[test]
fn scanning_twice_gives_identical_tokens() {
    let src = "let a = 1.5; print a + 2.0;".to_string();
    let t1 = Scanner::new(src.clone()).scan_tokens().unwrap();
    let t2 = Scanner::new(src).scan_tokens().unwrap();
    assert_eq!(t1, t2);
}

#[test]
fn number_without_fraction_is_an_error() {
    let mut scan = Scanner::new("let a = 10;".to_string());
    let res = scan.scan_tokens();
    assert!(res.is_err());
    assert!(res.unwrap_err().contains("digit Error!"));
}

#[test]
fn arithmetic_wrappers_match_hardware_doubles() {
    let a = 1.5f64.to_bits();
    let b = 2.25f64.to_bits();
    assert_eq!(dbl_add_bits(a, b), (1.5f64 + 2.25f64).to_bits());
    assert_eq!(dbl_mul_bits(a, b), (1.5f64 * 2.25f64).to_bits());
    assert_eq!(dbl_div_bits(a, b), (1.5f64 / 2.25f64).to_bits());
    assert!(dbl_lt_bits(a, b));
    assert!(!dbl_eq_bits(a, b));
}

#[test]
fn value_equality_follows_kinds() {
    let one = ExprLiteral::NumberLiteral(1.0f64.to_bits());
    let one_too = ExprLiteral::NumberLiteral(1.0f64.to_bits());
    let s = ExprLiteral::StringLiteral("1".to_string());
    assert!(one.is_equal(&one_too));
    assert!(!one.is_equal(&s));
    assert!(ExprLiteral::Nil.is_equal(&ExprLiteral::Nil));
    assert!(!ExprLiteral::True.is_equal(&ExprLiteral::False));
}

#[test]
fn environment_defines_shadows_and_assigns() {
    let mut env = Environment::new();
    let name = Token::new(TokenType::Identifier, "a".to_string(), None, 1);
    env.define(0, "a".to_string(), ExprLiteral::NumberLiteral(1.0f64.to_bits()));
    let inner = env.push_scope(0);
    env.define(inner, "a".to_string(), ExprLiteral::NumberLiteral(2.0f64.to_bits()));
    let v_inner = env.get(inner, &name).unwrap();
    assert!(v_inner.is_equal(&ExprLiteral::NumberLiteral(2.0f64.to_bits())));
    let v_outer = env.get(0, &name).unwrap();
    assert!(v_outer.is_equal(&ExprLiteral::NumberLiteral(1.0f64.to_bits())));
    env.assign(inner, &name, ExprLiteral::NumberLiteral(3.0f64.to_bits())).unwrap();
    assert!(env.get(inner, &name).unwrap().is_equal(&ExprLiteral::NumberLiteral(3.0f64.to_bits())));
    let missing = Token::new(TokenType::Identifier, "zz".to_string(), None, 1);
    let e = env.get(0, &missing);
    assert!(e.is_err());
    assert!(e.unwrap_err().contains("Undefined variable zz."));
}
