use oni2_assets::block_parser::{BlockParser, TokenError};
use oni2_assets::tokenizer::tokenize;

fn f(text: &str) -> f32 {
    text.parse::<f32>().expect("float text")
}

#[test]
fn tokenizer_handles_all_flavors() {
    let src = r#"
            PRELOAD_LAYOUT "uitest"
            # line comment
            ; also line comment
            // double-slash comment
            CAMERA_INIT ( -1.5 1.5 3.0 ) , ( 0 0 0 ) , 60
            "quoted multi word"
        "#;
    let toks = tokenize(src);
    assert!(toks.contains(&"PRELOAD_LAYOUT".to_string()));
    assert!(toks.contains(&"uitest".to_string()));
    assert!(toks.iter().any(|t| t == "("));
    assert!(toks.iter().any(|t| t == ")"));
    assert!(toks.iter().any(|t| t == ","));
    assert!(toks.contains(&"-1.5".to_string()));
    assert!(!toks.iter().any(|t| t.contains("line comment")));
    assert!(!toks.iter().any(|t| t.contains("double-slash")));
    assert!(toks.contains(&"quoted multi word".to_string()));
}

#[test]
fn primitives_read_values() {
    let src = r#"KEY 42 3.14 ( 1 2 3 )"#;
    let mut p = BlockParser::new(src);
    assert!(p.check_token("KEY"));
    assert_eq!(p.get_int().unwrap(), 42);
    assert!((f(&p.get_float().unwrap()) - 3.14).abs() < 1e-4);
    p.get_delimiter("(").unwrap();
    let v = p.get_vec3().unwrap();
    assert_eq!([f(&v[0]), f(&v[1]), f(&v[2])], [1.0, 2.0, 3.0]);
    p.get_delimiter(")").unwrap();
}

#[test]
fn quoted_strings_drop_quotes() {
    let src = r#"LAYOUT "Main Menu Layout""#;
    let mut p = BlockParser::new(src);
    assert!(p.check_token("LAYOUT"));
    assert_eq!(p.get_token().unwrap(), "Main Menu Layout");
}

#[test]
fn tokenizer_exact_token_sequence() {
    assert_eq!(
        tokenize("a{b}(c),d \"x y\" e#comment\nf;g\nh//i\nj"),
        vec!["a", "{", "b", "}", "(", "c", ")", ",", "d", "x y", "e", "f", "h", "j"]
    );
    assert!(tokenize("").is_empty());
    assert!(tokenize("   \n\t ").is_empty());
}

#[test]
fn unterminated_quote_runs_to_end() {
    assert_eq!(tokenize("K \"open ended"), vec!["K", "open ended"]);
}

#[test]
fn primitive_errors() {
    let mut p = BlockParser::new("x");
    assert!(matches!(p.get_int(), Err(TokenError::ExpectedInt(_))));
    assert!(matches!(p.get_token(), Err(TokenError::UnexpectedEof)));
    let mut p = BlockParser::new("y");
    assert!(matches!(p.get_float(), Err(TokenError::ExpectedFloat(_))));
    let mut p = BlockParser::new("y");
    assert!(matches!(
        p.get_delimiter("("),
        Err(TokenError::ExpectedDelimiter { .. })
    ));
}

#[test]
fn key_value_readers() {
    let mut p = BlockParser::new("Speed 2.5 Count 7 Name \"Bob\" Pos 1 x 3 }");
    assert_eq!(p.read_float("Speed", "0"), "2.5");
    assert_eq!(p.read_i32("Count", 0), 7);
    assert_eq!(p.read_string("Name", "none"), "Bob");
    let v = p.read_vec3("Pos", ["9".to_string(), "9".to_string(), "9".to_string()]);
    assert_eq!(v, ["1".to_string(), "0".to_string(), "3".to_string()]);
    assert_eq!(p.read_i32("Missing", -4), -4);
    assert!(p.endblock());
    assert!(p.endblock());
}

#[test]
fn start_skips_to_block_and_brace() {
    let mut p = BlockParser::new("a b Target { k }");
    assert!(p.start("Target"));
    assert_eq!(p.peek(), Some("k"));
    let mut p = BlockParser::new("a b");
    assert!(!p.start("Target"));
    assert_eq!(p.peek(), None);
    let mut p = BlockParser::new("a Target");
    assert!(!p.start_if_peek("Target"));
    assert_eq!(p.peek(), Some("a"));
}
