//! The scanner's token streams, checked token by token against the source.

use offside::scanner::Scanner;
use offside::token::Token;
use offside::token::TokenType;

#[test]
    fn single_statement() {
        let source = "var x = 1 + 1";
        let mut scanner = Scanner::new(source.as_bytes().to_vec());

        let expected_tokens = vec![
            Token::new(TokenType::Var, 0, 3, 1),
            Token::new(TokenType::Identifier, 4, 1, 1),
            Token::new(TokenType::Equal, 6, 1, 1),
            Token::new(TokenType::Number, 8, 1, 1),
            Token::new(TokenType::Plus, 10, 1, 1),
            Token::new(TokenType::Number, 12, 1, 1),
            Token::new(TokenType::Eof, 13, 0, 1),
        ];

        for expected_token in expected_tokens.iter() {
            assert_eq!(*expected_token, scanner.scan_token());
        }
    }

#[test]
    fn error_random_indent() {
        let source = r#"
print "hello"
    print "world"
"#;
        let mut scanner = Scanner::new(source.as_bytes().to_vec());

        let expected_tokens = vec![
            Token::new(TokenType::NewLine, 0, 1, 1),

            Token::new(TokenType::Identifier, 1, 5, 2),
            Token::new(TokenType::String, 7, 7, 2),

            Token::new(TokenType::Error, 15, 4, 3),

            Token::new(TokenType::Identifier, 19, 5, 3),
            Token::new(TokenType::String, 25, 7, 3),
            Token::new(TokenType::NewLine, 32, 1, 3),
            Token::new(TokenType::Eof, 33, 0, 4),
        ];

        for (i, expected_token) in expected_tokens.iter().enumerate() {
            assert_eq!(*expected_token, scanner.scan_token(), "Token Index: {}", i);
        }
    }

#[test]
    fn error_empty_if() {
        let source = r#"
if x <= 1:
print "hi"
"#;
        let mut scanner = Scanner::new(source.as_bytes().to_vec());

        let expected_tokens = vec![
            Token::new(TokenType::NewLine, 0, 1, 1),

            Token::new(TokenType::If, 1, 2, 2),
            Token::new(TokenType::Identifier, 4, 1, 2),
            Token::new(TokenType::LessEqual, 6, 2, 2),
            Token::new(TokenType::Number, 9, 1, 2),
            Token::new(TokenType::Colon, 10, 1, 2),

            Token::new(TokenType::Error, 12, 0, 3),

            Token::new(TokenType::Identifier, 12, 5, 3),
            Token::new(TokenType::String, 18, 4, 3),
            Token::new(TokenType::NewLine, 22, 1, 3),
            Token::new(TokenType::Eof, 23, 0, 4),
        ];

        for (i, expected_token) in expected_tokens.iter().enumerate() {
            assert_eq!(*expected_token, scanner.scan_token(), "Token Index: {}", i);
        }
    }

#[test]
    fn gap_in_indent() {
        let source = r#"
if x <= 1:
    print "hi"
    print "hello!"

    print "hola"
"#;
        let mut scanner = Scanner::new(source.as_bytes().to_vec());

        let expected_tokens = vec![
            Token::new(TokenType::NewLine, 0, 1, 1),

            Token::new(TokenType::If, 1, 2, 2),
            Token::new(TokenType::Identifier, 4, 1, 2),
            Token::new(TokenType::LessEqual, 6, 2, 2),
            Token::new(TokenType::Number, 9, 1, 2),
            Token::new(TokenType::Colon, 10, 1, 2),
            Token::new(TokenType::NewLine, 11, 1, 2),

            Token::new(TokenType::Indent, 12, 4, 3),
            Token::new(TokenType::Identifier, 16, 5, 3),
            Token::new(TokenType::String, 22, 4, 3),
            Token::new(TokenType::NewLine, 26, 1, 3),

            Token::new(TokenType::Identifier, 31, 5, 4),
            Token::new(TokenType::String, 37, 8, 4),
            Token::new(TokenType::NewLine, 45, 1, 4),

            Token::new(TokenType::Identifier, 51, 5, 6),
            Token::new(TokenType::String, 57, 6, 6),
            Token::new(TokenType::NewLine, 63, 1, 6),
            Token::new(TokenType::Dedent, 64, 0, 7),

            Token::new(TokenType::Eof, 64, 0, 7),
        ];

        for (i, expected_token) in expected_tokens.iter().enumerate() {
            assert_eq!(*expected_token, scanner.scan_token(), "Token Index: {}", i);
        }
    }

#[test]
    fn indented_newline() {
        // The empty line has an indentation. 
        // But since it ends in a newline with no other characters, it should be ignored.
        let source = r#"
if x <= 1:
    print "x greater than 1"
            
if x == 42:
    print "42"
"#;
        let mut scanner = Scanner::new(source.as_bytes().to_vec());

        let expected_tokens = vec![
            Token::new(TokenType::NewLine, 0, 1, 1),

            Token::new(TokenType::If, 1, 2, 2),
            Token::new(TokenType::Identifier, 4, 1, 2),
            Token::new(TokenType::LessEqual, 6, 2, 2),
            Token::new(TokenType::Number, 9, 1, 2),
            Token::new(TokenType::Colon, 10, 1, 2),
            Token::new(TokenType::NewLine, 11, 1, 2),

            Token::new(TokenType::Indent, 12, 4, 3),
            Token::new(TokenType::Identifier, 16, 5, 3),
            Token::new(TokenType::String, 22, 18, 3),
            Token::new(TokenType::NewLine, 40, 1, 3),
            Token::new(TokenType::Dedent, 54, 0, 5),

            Token::new(TokenType::If, 54, 2, 5),
            Token::new(TokenType::Identifier, 57, 1, 5),
            Token::new(TokenType::EqualEqual, 59, 2, 5),
            Token::new(TokenType::Number, 62, 2, 5),
            Token::new(TokenType::Colon, 64, 1, 5),
            Token::new(TokenType::NewLine, 65, 1, 5),

            Token::new(TokenType::Indent, 66, 4, 6),
            Token::new(TokenType::Identifier, 70, 5, 6),
            Token::new(TokenType::String, 76, 4, 6),
            Token::new(TokenType::NewLine, 80, 1, 6),
            Token::new(TokenType::Dedent, 81, 0, 7),

            Token::new(TokenType::Eof, 81, 0, 7),
        ];

        for (i, expected_token) in expected_tokens.iter().enumerate() {
            assert_eq!(*expected_token, scanner.scan_token(), "Token Index: {}", i);
        }
    }

#[test]
    fn nested_indents() {
        let source = r#"
var x = 42
if x > 1:
    print "x greater than 1"
    if x == 42:
        print "x is 42"
"#;
        let mut scanner = Scanner::new(source.as_bytes().to_vec());

        let expected_tokens = vec![
            Token::new(TokenType::NewLine, 0, 1, 1),
            Token::new(TokenType::Var, 1, 3, 2),
            Token::new(TokenType::Identifier, 5, 1, 2),
            Token::new(TokenType::Equal, 7, 1, 2),
            Token::new(TokenType::Number, 9, 2, 2),
            Token::new(TokenType::NewLine, 11, 1, 2),
            Token::new(TokenType::If, 12, 2, 3),
            Token::new(TokenType::Identifier, 15, 1, 3),
            Token::new(TokenType::Greater, 17, 1, 3),
            Token::new(TokenType::Number, 19, 1, 3),
            Token::new(TokenType::Colon, 20, 1, 3),
            Token::new(TokenType::NewLine, 21, 1, 3),
            Token::new(TokenType::Indent, 22, 4, 4),
            Token::new(TokenType::Identifier, 26, 5, 4),
            Token::new(TokenType::String, 32, 18, 4),
            Token::new(TokenType::NewLine, 50, 1, 4),
            Token::new(TokenType::If, 55, 2, 5),
            Token::new(TokenType::Identifier, 58, 1, 5),
            Token::new(TokenType::EqualEqual, 60, 2, 5),
            Token::new(TokenType::Number, 63, 2, 5),
            Token::new(TokenType::Colon, 65, 1, 5),
            Token::new(TokenType::NewLine, 66, 1, 5),
            Token::new(TokenType::Indent, 67, 8, 6),
            Token::new(TokenType::Identifier, 75, 5, 6),
            Token::new(TokenType::String, 81, 9, 6),
            Token::new(TokenType::NewLine, 90, 1, 6),
            Token::new(TokenType::Dedent, 91, 0, 7),
            Token::new(TokenType::Dedent, 91, 0, 7),
            Token::new(TokenType::Eof, 91, 0, 7),
        ];

        for (i, expected_token) in expected_tokens.iter().enumerate() {
            assert_eq!(*expected_token, scanner.scan_token(), "Token Index: {}", i);
        }
    }

#[test]
    fn whitespace() {
        let source = r#"
var    x   =     42
       
                 

print   "x is 42"
"#;
        let mut scanner = Scanner::new(source.as_bytes().to_vec());

        let expected_tokens = vec![
            Token::new(TokenType::NewLine, 0, 1, 1),
            Token::new(TokenType::Var, 1, 3, 2),
            Token::new(TokenType::Identifier, 8, 1, 2),
            Token::new(TokenType::Equal, 12, 1, 2),
            Token::new(TokenType::Number, 18, 2, 2),
            Token::new(TokenType::NewLine, 20, 1, 2),

            Token::new(TokenType::Identifier, 48, 5, 6),
            Token::new(TokenType::String, 56, 9, 6),
            Token::new(TokenType::NewLine, 65, 1, 6),

            Token::new(TokenType::Eof, 66, 0, 7),
        ];

        for (i, expected_token) in expected_tokens.iter().enumerate() {
            assert_eq!(*expected_token, scanner.scan_token(), "Token Index: {}", i);
        }
    }

#[test]
    fn error_unrecognised_token() {
        let source = r#"x = $"#;
        let mut scanner = Scanner::new(source.as_bytes().to_vec());

        let expected_tokens = vec![
            Token::new(TokenType::Identifier, 0, 1, 1),
            Token::new(TokenType::Equal, 2, 1, 1),
            Token::new(TokenType::Error, 4, 1, 1),
            Token::new(TokenType::Eof, 5, 0, 1),
        ];

        for (i, expected_token) in expected_tokens.iter().enumerate() {
            assert_eq!(*expected_token, scanner.scan_token(), "Token Index: {}", i);
        }
    }

#[test]
    fn error_unterminated_string() {
        let source = r#"x = "my_string"#;
        let mut scanner = Scanner::new(source.as_bytes().to_vec());

        let expected_tokens = vec![
            Token::new(TokenType::Identifier, 0, 1, 1),
            Token::new(TokenType::Equal, 2, 1, 1),
            Token::new(TokenType::Error, 4, 10, 1),
            Token::new(TokenType::Eof, 14, 0, 1),
        ];

        for (i, expected_token) in expected_tokens.iter().enumerate() {
            assert_eq!(*expected_token, scanner.scan_token(), "Token Index: {}", i);
        }
    }

#[test]
    fn multiline_string() {
        let source = r#"
x = "line 1
line 2"
"#;
        let mut scanner = Scanner::new(source.as_bytes().to_vec());

        let expected_tokens = vec![
            Token::new(TokenType::NewLine, 0, 1, 1),
            Token::new(TokenType::Identifier, 1, 1, 2),
            Token::new(TokenType::Equal, 3, 1, 2),
            Token::new(TokenType::String, 5, 15, 3),
            Token::new(TokenType::NewLine, 20, 1, 3),
            Token::new(TokenType::Eof, 21, 0, 4),
        ];

        for (i, expected_token) in expected_tokens.iter().enumerate() {
            assert_eq!(*expected_token, scanner.scan_token(), "Token Index: {}", i);
        }
    }

#[test]
    fn keywords() {
        let source = r#"and else false for fn if null or print return true var while"#;
        let mut scanner = Scanner::new(source.as_bytes().to_vec());

        let expected_tokens = vec![
            Token::new(TokenType::And, 0, 3, 1),
            Token::new(TokenType::Else, 4, 4, 1),
            Token::new(TokenType::False, 9, 5, 1),
            Token::new(TokenType::For, 15, 3, 1),
            Token::new(TokenType::Fn, 19, 2, 1),
            Token::new(TokenType::If, 22, 2, 1),
            Token::new(TokenType::Null, 25, 4, 1),
            Token::new(TokenType::Or, 30, 2, 1),
            Token::new(TokenType::Identifier, 33, 5, 1),
            Token::new(TokenType::Return, 39, 6, 1),
            Token::new(TokenType::True, 46, 4, 1),
            Token::new(TokenType::Var, 51, 3, 1),
            Token::new(TokenType::While, 55, 5, 1),
            Token::new(TokenType::Eof, 60, 0, 1),
        ];

        for (i, expected_token) in expected_tokens.iter().enumerate() {
            assert_eq!(*expected_token, scanner.scan_token(), "Token Index: {}", i);
        }
    }

#[test]
    fn identifiers_containing_keywords() {
        let source = r#"_and _else _false _for _fn if2 _null oor aprint _return true_ var_ _while_"#;
        let mut scanner = Scanner::new(source.as_bytes().to_vec());

        let expected_tokens = vec![
            Token::new(TokenType::Identifier, 0, 4, 1),
            Token::new(TokenType::Identifier, 5, 5, 1),
            Token::new(TokenType::Identifier, 11, 6, 1),
            Token::new(TokenType::Identifier, 18, 4, 1),
            Token::new(TokenType::Identifier, 23, 3, 1),
            Token::new(TokenType::Identifier, 27, 3, 1),
            Token::new(TokenType::Identifier, 31, 5, 1),
            Token::new(TokenType::Identifier, 37, 3, 1),
            Token::new(TokenType::Identifier, 41, 6, 1),
            Token::new(TokenType::Identifier, 48, 7, 1),
            Token::new(TokenType::Identifier, 56, 5, 1),
            Token::new(TokenType::Identifier, 62, 4, 1),
            Token::new(TokenType::Identifier, 67, 7, 1),
            Token::new(TokenType::Eof, 74, 0, 1),
        ];

        for (i, expected_token) in expected_tokens.iter().enumerate() {
            assert_eq!(*expected_token, scanner.scan_token(), "Token Index: {}", i);
        }
    }

#[test]
    fn operator_tokens() {
        let source = r#"+ - * / < > ! = <= >= != == and or"#;
        let mut scanner = Scanner::new(source.as_bytes().to_vec());

        let expected_tokens = vec![
            Token::new(TokenType::Plus, 0, 1, 1),
            Token::new(TokenType::Minus, 2, 1, 1),
            Token::new(TokenType::Star, 4, 1, 1),
            Token::new(TokenType::Slash, 6, 1, 1),
            Token::new(TokenType::Less, 8, 1, 1),
            Token::new(TokenType::Greater, 10, 1, 1),
            Token::new(TokenType::Bang, 12, 1, 1),
            Token::new(TokenType::Equal, 14, 1, 1),
            Token::new(TokenType::LessEqual, 16, 2, 1),
            Token::new(TokenType::GreaterEqual, 19, 2, 1),
            Token::new(TokenType::BangEqual, 22, 2, 1),
            Token::new(TokenType::EqualEqual, 25, 2, 1),
            Token::new(TokenType::And, 28, 3, 1),
            Token::new(TokenType::Or, 32, 2, 1),
            Token::new(TokenType::Eof, 34, 0, 1),
        ];

        for (i, expected_token) in expected_tokens.iter().enumerate() {
            assert_eq!(*expected_token, scanner.scan_token(), "Token Index: {}", i);
        }
    }

#[test]
    fn delimiter_tokens() {
        let source = r#": , ( )"#;
        let mut scanner = Scanner::new(source.as_bytes().to_vec());

        let expected_tokens = vec![
            Token::new(TokenType::Colon, 0, 1, 1),
            Token::new(TokenType::Comma, 2, 1, 1),
            Token::new(TokenType::LeftParen, 4, 1, 1),
            Token::new(TokenType::RightParen, 6, 1, 1),
            Token::new(TokenType::Eof, 7, 0, 1),
        ];

        for (i, expected_token) in expected_tokens.iter().enumerate() {
            assert_eq!(*expected_token, scanner.scan_token(), "Token Index: {}", i);
        }
    }

#[test]
    fn numbers() {
        let source = r#"2 24 2.394 0.1"#;
        let mut scanner = Scanner::new(source.as_bytes().to_vec());

        let expected_tokens = vec![
            Token::new(TokenType::Number, 0, 1, 1),
            Token::new(TokenType::Number, 2, 2, 1),
            Token::new(TokenType::Number, 5, 5, 1),
            Token::new(TokenType::Number, 11, 3, 1),
            Token::new(TokenType::Eof, 14, 0, 1),
        ];

        for (i, expected_token) in expected_tokens.iter().enumerate() {
            assert_eq!(*expected_token, scanner.scan_token(), "Token Index: {}", i);
        }
    }

#[test]
    fn error_trailing_decimal() {
        let source = r#"var x = 2."#;
        let mut scanner = Scanner::new(source.as_bytes().to_vec());

        let expected_tokens = vec![
            Token::new(TokenType::Var, 0, 3, 1),
            Token::new(TokenType::Identifier, 4, 1, 1),
            Token::new(TokenType::Equal, 6, 1, 1),
            Token::new(TokenType::Number, 8, 1, 1),
            Token::new(TokenType::Error, 9, 1, 1),
            Token::new(TokenType::Eof, 10, 0, 1),
        ];

        for (i, expected_token) in expected_tokens.iter().enumerate() {
            assert_eq!(*expected_token, scanner.scan_token(), "Token Index: {}", i);
        }
    }

#[test]
    fn empty_source() {
        let source = r#""#;
        let mut scanner = Scanner::new(source.as_bytes().to_vec());

        let expected_tokens = vec![
            Token::new(TokenType::Eof, 0, 0, 1),
        ];

        for (i, expected_token) in expected_tokens.iter().enumerate() {
            assert_eq!(*expected_token, scanner.scan_token(), "Token Index: {}", i);
        }
    }
