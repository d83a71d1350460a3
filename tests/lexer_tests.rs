use hlsl_lexer::{
    FloatLiteral, ILexer, ILexerTraverser, ISourceFile, Lexer, LexerTraverser, PreProcessorDefinition,
    SourceFile,
    SourceText, SyntaxTokenType,
};

fn lex_text(text: &str) -> Lexer {
    let mut source_file = SourceFile::from_text(text);
    let lex = Lexer::from_file(&mut source_file);
    assert!(source_file.get_text().reached_eof());
    lex
}

fn kinds(text: &str) -> Vec<SyntaxTokenType> {
    lex_text(text).get_tokens().iter().map(|t| t.token_type.clone()).collect()
}

fn float_value(value: &FloatLiteral) -> f64 {
    match value {
        FloatLiteral::Decimal { text } => text.parse().unwrap_or(0.0),
        FloatLiteral::NotANumber => f64::NAN,
        FloatLiteral::Infinity => f64::INFINITY,
    }
}

fn integer_literal_test(text: &str, value: i128) {
    let lex = lex_text(text);
    let tokens = lex.get_tokens();

    assert_eq!(tokens.len(), 2);
    let token = tokens[0].clone();

    assert_eq!(token.token_type, SyntaxTokenType::IntegerLiteralToken { value: value });
}

#[test]
fn integer_literal_tests() {
    integer_literal_test("42", 42);
    integer_literal_test("052", 42);
    integer_literal_test("0x2a", 0x2a);
    integer_literal_test("0X2A", 0x2A);
    integer_literal_test("42u", 42);
    integer_literal_test("42U", 42);
    integer_literal_test("42l", 42);
    integer_literal_test("42L", 42);
    integer_literal_test("42ul", 42);
    integer_literal_test("42UL", 42);
    integer_literal_test("42lu", 42);
}

fn float_literal_test(text: &str, value: f64) {
    let lex = lex_text(text);
    let tokens = lex.get_tokens();

    assert_eq!(tokens.len(), 2);
    let token = tokens[0].clone();

    match token.token_type {
        SyntaxTokenType::FloatLiteralToken { value: v } => {
            let v = float_value(&v);
            assert!(v == value || v.is_infinite() || v.is_nan())
        }
        _ => assert!(false),
    }
}

#[test]
fn float_literal_tests() {
    float_literal_test("1.0", 1.0);
    float_literal_test("1.0f", 1.0);
    float_literal_test("1.#IND", f64::NAN);
    float_literal_test("1.#INF", f64::INFINITY);
}

#[test]
fn special_float_spellings_are_exact() {
    assert_eq!(
        kinds("1.#IND"),
        vec![
            SyntaxTokenType::FloatLiteralToken { value: FloatLiteral::NotANumber },
            SyntaxTokenType::EndOfFileToken
        ]
    );
    assert_eq!(
        kinds("1.#INF"),
        vec![
            SyntaxTokenType::FloatLiteralToken { value: FloatLiteral::Infinity },
            SyntaxTokenType::EndOfFileToken
        ]
    );
    // any other `#` ends the literal
    assert_eq!(
        kinds("1.#X"),
        vec![
            SyntaxTokenType::FloatLiteralToken {
                value: FloatLiteral::Decimal { text: "1.".to_string() }
            },
            SyntaxTokenType::BadToken,
            SyntaxTokenType::IdentifierToken { text: "X".to_string() },
            SyntaxTokenType::EndOfFileToken
        ]
    );
}

#[test]
fn float_text_is_kept() {
    let decimal = |t: &str| SyntaxTokenType::FloatLiteralToken {
        value: FloatLiteral::Decimal { text: t.to_string() },
    };
    assert_eq!(kinds("1.0f")[0], decimal("1.0"));
    assert_eq!(kinds("2.5e-3")[0], decimal("2.5e-3"));
    assert_eq!(kinds("3e+2")[0], decimal("3e+2"));
    assert_eq!(kinds(".5"), vec![decimal(".5"), SyntaxTokenType::EndOfFileToken]);
    assert_eq!(float_value(&FloatLiteral::Decimal { text: "2.5e-3".to_string() }), 0.0025);
    assert_eq!(float_value(&FloatLiteral::Decimal { text: "1e".to_string() }), 0.0);
}

#[test]
fn integer_edge_cases() {
    assert_eq!(kinds("0")[0], SyntaxTokenType::IntegerLiteralToken { value: 0 });
    assert_eq!(kinds("09")[0], SyntaxTokenType::IntegerLiteralToken { value: 9 });
    assert_eq!(kinds("0xff")[0], SyntaxTokenType::IntegerLiteralToken { value: 255 });
    assert_eq!(kinds("0xFFull").len(), 2);
    assert_eq!(kinds("0xFFull")[0], SyntaxTokenType::IntegerLiteralToken { value: 255 });
    assert_eq!(kinds("7llu"), vec![SyntaxTokenType::IntegerLiteralToken { value: 7 }, SyntaxTokenType::EndOfFileToken]);
    // prefix with no digits
    assert_eq!(kinds("0x")[0], SyntaxTokenType::IntegerLiteralToken { value: 0 });
    // the largest value that fits, and one past it
    assert_eq!(
        kinds("170141183460469231731687303715884105727")[0],
        SyntaxTokenType::IntegerLiteralToken { value: i128::MAX }
    );
    assert_eq!(
        kinds("170141183460469231731687303715884105728")[0],
        SyntaxTokenType::IntegerLiteralToken { value: 0 }
    );
}

#[test]
fn swizzle_after_number() {
    assert_eq!(
        kinds("1.x"),
        vec![
            SyntaxTokenType::IntegerLiteralToken { value: 1 },
            SyntaxTokenType::DotToken,
            SyntaxTokenType::IdentifierToken { text: "x".to_string() },
            SyntaxTokenType::EndOfFileToken
        ]
    );
    assert_eq!(
        kinds("v.r"),
        vec![
            SyntaxTokenType::IdentifierToken { text: "v".to_string() },
            SyntaxTokenType::DotToken,
            SyntaxTokenType::IdentifierToken { text: "r".to_string() },
            SyntaxTokenType::EndOfFileToken
        ]
    );
}

#[test]
fn longest_match() {
    assert_eq!(kinds("&&"), vec![SyntaxTokenType::AmpersandAmpersandToken, SyntaxTokenType::EndOfFileToken]);
    assert_eq!(kinds("<<="), vec![SyntaxTokenType::LessThanLessThanEqualsToken, SyntaxTokenType::EndOfFileToken]);
    assert_eq!(kinds("::"), vec![SyntaxTokenType::ColonColonToken, SyntaxTokenType::EndOfFileToken]);
    assert_eq!(kinds(">>="), vec![SyntaxTokenType::GreaterThanGreaterThanEqualsToken, SyntaxTokenType::EndOfFileToken]);
    assert_eq!(kinds("&="), vec![SyntaxTokenType::AmpersandEqualsToken, SyntaxTokenType::EndOfFileToken]);
    assert_eq!(kinds("+++"), vec![SyntaxTokenType::PlusPlusToken, SyntaxTokenType::PlusToken, SyntaxTokenType::EndOfFileToken]);
    assert_eq!(kinds("<="), vec![SyntaxTokenType::LessThanEqualsToken, SyntaxTokenType::EndOfFileToken]);
    assert_eq!(kinds("<<"), vec![SyntaxTokenType::LessThanLessThanToken, SyntaxTokenType::EndOfFileToken]);
    assert_eq!(kinds("<"), vec![SyntaxTokenType::LessThanToken, SyntaxTokenType::EndOfFileToken]);
    assert_eq!(kinds("^="), vec![SyntaxTokenType::CaretEqualsToken, SyntaxTokenType::EndOfFileToken]);
    assert_eq!(kinds("!=="), vec![SyntaxTokenType::ExclamationEqualsToken, SyntaxTokenType::EqualsToken, SyntaxTokenType::EndOfFileToken]);
    assert_eq!(kinds("==="), vec![SyntaxTokenType::EqualsEqualsToken, SyntaxTokenType::EqualsToken, SyntaxTokenType::EndOfFileToken]);
    assert_eq!(kinds("-="), vec![SyntaxTokenType::MinusEqualsToken, SyntaxTokenType::EndOfFileToken]);
    assert_eq!(kinds("|| |"), vec![SyntaxTokenType::BarBarToken, SyntaxTokenType::BarToken, SyntaxTokenType::EndOfFileToken]);
}

#[test]
fn end_to_end() {
    assert_eq!(
        kinds("void main() {}"),
        vec![
            SyntaxTokenType::VoidKeyword,
            SyntaxTokenType::IdentifierToken { text: "main".to_string() },
            SyntaxTokenType::OpenParenToken,
            SyntaxTokenType::CloseParenToken,
            SyntaxTokenType::OpenBraceToken,
            SyntaxTokenType::CloseBraceToken,
            SyntaxTokenType::EndOfFileToken
        ]
    );
}

#[test]
fn identifiers_and_keywords() {
    assert_eq!(
        kinds("float4 $x _y1 return"),
        vec![
            SyntaxTokenType::IdentifierToken { text: "float4".to_string() },
            SyntaxTokenType::BadToken,
            SyntaxTokenType::IdentifierToken { text: "x".to_string() },
            SyntaxTokenType::IdentifierToken { text: "_y1".to_string() },
            SyntaxTokenType::ReturnKeyword,
            SyntaxTokenType::EndOfFileToken
        ]
    );
    assert_eq!(kinds("a$b")[0], SyntaxTokenType::IdentifierToken { text: "a$b".to_string() });
    assert_eq!(kinds("float")[0], SyntaxTokenType::FloatKeyword);
}

#[test]
fn string_literals_keep_their_text() {
    assert_eq!(
        kinds(r#""a\"b" "x""y""#),
        vec![
            SyntaxTokenType::StringLiteralToken { value: r#"a\"b"#.to_string() },
            SyntaxTokenType::StringLiteralToken { value: r#"x"y"#.to_string() },
            SyntaxTokenType::EndOfFileToken
        ]
    );
    // unterminated
    assert_eq!(kinds("\"abc"), vec![SyntaxTokenType::StringLiteralToken { value: "abc".to_string() }, SyntaxTokenType::EndOfFileToken]);
    assert_eq!(kinds("\"\""), vec![SyntaxTokenType::StringLiteralToken { value: String::new() }, SyntaxTokenType::EndOfFileToken]);
}

#[test]
fn character_literals() {
    assert_eq!(kinds("'a'"), vec![SyntaxTokenType::CharacterLiteralToken { value: 'a' }, SyntaxTokenType::EndOfFileToken]);
    // unclosed: accepted anyway
    assert_eq!(
        kinds("'ab"),
        vec![SyntaxTokenType::CharacterLiteralToken { value: 'a' }, SyntaxTokenType::IdentifierToken { text: "b".to_string() }, SyntaxTokenType::EndOfFileToken]
    );
    // illegal: the value is the offending byte, which is scanned again
    assert_eq!(
        kinds("'\\"),
        vec![SyntaxTokenType::CharacterLiteralToken { value: '\\' }, SyntaxTokenType::BadToken, SyntaxTokenType::EndOfFileToken]
    );
}

#[test]
fn whitespace_is_skipped_and_every_byte_consumed() {
    let text = "  a  +\t1 ";
    let mut source = SourceText::from_str(text);
    let lex = Lexer::from_text(&mut source);
    assert_eq!(source.get_char_index(), text.len());
    assert!(source.reached_eof());
    assert!(lex.get_tokens().iter().all(|t| t.token_type != SyntaxTokenType::WhiteSpace));
    assert_eq!(lex.get_tokens().len(), 5);
}

#[test]
fn lexing_is_total() {
    let bytes: Vec<u8> = (1u8..=255).collect();
    let mut source = SourceText::from_bytes(bytes);
    let lex = Lexer::from_text(&mut source);
    assert!(source.reached_eof());
    let tokens = lex.get_tokens();
    assert_eq!(tokens.last().unwrap().token_type, SyntaxTokenType::EndOfFileToken);
    let eofs = tokens.iter().filter(|t| t.token_type == SyntaxTokenType::EndOfFileToken).count();
    assert_eq!(eofs, 1);

    assert_eq!(kinds(""), vec![SyntaxTokenType::EndOfFileToken]);
    assert_eq!(kinds("@"), vec![SyntaxTokenType::BadToken, SyntaxTokenType::EndOfFileToken]);
}

#[test]
fn null_byte_ends_the_text() {
    let mut source = SourceText::from_bytes(vec![b'a', 0, b'b']);
    let lex = Lexer::from_text(&mut source);
    assert_eq!(source.get_char_index(), 1);
    assert_eq!(lex.get_tokens().len(), 2);
}

#[test]
fn cursor_reads_past_the_end() {
    let mut source = SourceText::from_str("ab");
    assert_eq!(source.current_char(), 'a');
    assert_eq!(source.peek(), 'b');
    assert_eq!(source.peek_at(2), '\0');
    assert_eq!(source.peek_at(usize::MAX), '\0');
    source.next_char();
    source.next_char();
    assert!(source.reached_eof());
    assert_eq!(source.current_char(), '\0');
    source.next_char();
    assert_eq!(source.get_char_index(), 2);
    source.prev_char();
    assert_eq!(source.current_char(), 'b');
}

#[test]
fn traversal_sentinel() {
    let lex = lex_text("a b");
    let mut traverser = LexerTraverser::new(lex, Vec::new());
    assert_eq!(traverser.peek(1).token_type, SyntaxTokenType::IdentifierToken { text: "b".to_string() });
    assert_eq!(traverser.peek(usize::MAX).token_type, SyntaxTokenType::EndOfFileToken);
    assert_eq!(traverser.next_token().token_type, SyntaxTokenType::IdentifierToken { text: "a".to_string() });
    assert_eq!(traverser.next_token().token_type, SyntaxTokenType::IdentifierToken { text: "b".to_string() });
    for _ in 0..5 {
        assert_eq!(traverser.next_token().token_type, SyntaxTokenType::EndOfFileToken);
    }
    assert_eq!(traverser.peek(0).token_type, SyntaxTokenType::EndOfFileToken);
}

#[test]
fn letters_and_numerals_beyond_ascii() {
    // bytes read as Latin-1 characters: 0xC3 is a letter, 0xB2 a numeral
    let mut source = SourceText::from_bytes(vec![0xC3, b'a', 0xB2, b' ', 0xD7]);
    let lex = Lexer::from_text(&mut source);
    let kinds: Vec<SyntaxTokenType> = lex.get_tokens().iter().map(|t| t.token_type.clone()).collect();
    assert_eq!(
        kinds,
        vec![
            SyntaxTokenType::IdentifierToken { text: "\u{c3}a\u{b2}".to_string() },
            SyntaxTokenType::BadToken,
            SyntaxTokenType::EndOfFileToken
        ]
    );
}

#[test]
fn definitions_are_stored_in_order() {
    let lex = lex_text("x");
    let before = vec![PreProcessorDefinition::NonFunction { name: "A".to_string(), value: "1".to_string() }];
    let mut traverser = LexerTraverser::new(lex, before);
    traverser.add_internal_definition(PreProcessorDefinition::Function {
        name: "F".to_string(),
        args: "x".to_string(),
        value: "x".to_string(),
    });
    traverser.add_internal_definition(PreProcessorDefinition::NonFunction {
        name: "B".to_string(),
        value: "2".to_string(),
    });
    assert_eq!(traverser.get_pre_file_definitions().len(), 1);
    let inside = traverser.get_internal_file_definitions();
    assert_eq!(inside.len(), 2);
    assert!(matches!(&inside[0], PreProcessorDefinition::Function { name, .. } if name == "F"));
    assert!(matches!(&inside[1], PreProcessorDefinition::NonFunction { name, .. } if name == "B"));
}

#[test]
fn leading_space_shifts_by_one() {
    for text in ["void main() {}", "<<= 1.0f", "\"s\" 'c' 0x1F", "", "x\0y"] {
        let mut plain = SourceText::from_str(text);
        let spaced_text = format!(" {}", text);
        let mut spaced = SourceText::from_str(&spaced_text);
        let a = Lexer::from_text(&mut plain);
        let b = Lexer::from_text(&mut spaced);
        assert_eq!(a.get_tokens(), b.get_tokens());
        assert_eq!(spaced.get_char_index(), plain.get_char_index() + 1);
    }
}
