//! The scanner's layout laws on concrete sources.

use offside::scanner::Scanner;
use offside::token::TokenType;

fn scan_types(source: &str) -> Vec<TokenType> {
    let mut scanner = Scanner::new(source.as_bytes().to_vec());
    let mut types = Vec::new();
    loop {
        let token = scanner.scan_token();
        let token_type = token.token_type;
        types.push(token_type);
        if token_type == TokenType::Eof {
            return types;
        }
    }
}

fn count(types: &[TokenType], wanted: TokenType) -> usize {
    types.iter().filter(|t| **t == wanted).count()
}

#[test]
fn dedents_balance_indents_on_a_full_scan() {
    let source = "if a:\n    if b:\n        x = 1\n    y = 2\nz = 3\n";
    let types = scan_types(source);
    assert_eq!(count(&types, TokenType::Indent), 2);
    assert_eq!(count(&types, TokenType::Dedent), 2);
    assert_eq!(count(&types, TokenType::Error), 0);
}

#[test]
fn dedents_balance_indents_with_blank_lines() {
    let source = "if a:\n    x = 1\n\n        \n    y = 2\n\n";
    let types = scan_types(source);
    assert_eq!(count(&types, TokenType::Indent), 1);
    assert_eq!(count(&types, TokenType::Dedent), 1);
    assert_eq!(count(&types, TokenType::Error), 0);
}

#[test]
fn unclosed_indent_without_final_newline_stays_open() {
    // Without a trailing newline nothing pulls the indent target back to the
    // margin, so the closing dedent is never owed.
    let source = "if a:\n    x = 1";
    let types = scan_types(source);
    assert_eq!(count(&types, TokenType::Indent), 1);
    assert_eq!(count(&types, TokenType::Dedent), 0);
}

#[test]
fn blank_lines_carry_no_indentation_signal() {
    // A whitespace-only line, however deep, produces no Indent token; the
    // next non-blank line decides.
    let source = "x = 1\n            \ny = 2\n";
    let types = scan_types(source);
    assert_eq!(count(&types, TokenType::Indent), 0);
    assert_eq!(count(&types, TokenType::Dedent), 0);
    assert_eq!(count(&types, TokenType::Error), 0);
}

#[test]
fn colon_without_deeper_line_is_an_error() {
    let source = "if a:\nx = 1\n";
    let types = scan_types(source);
    assert_eq!(count(&types, TokenType::Error), 1);
    assert_eq!(count(&types, TokenType::Indent), 0);
}

#[test]
fn colon_with_equally_deep_line_is_an_error() {
    let source = "if a:\n    x = 1\nif b:\nif c:\n    y = 2\n";
    let types = scan_types(source);
    assert!(count(&types, TokenType::Error) >= 1);
}

#[test]
fn colon_at_end_of_source_scans_without_error() {
    // No next non-blank line exists, so the indentation check never fires;
    // the compiler, not the scanner, rejects the empty block.
    let source = "if a:\n";
    let types = scan_types(source);
    assert_eq!(count(&types, TokenType::Error), 0);
}

#[test]
fn inconsistent_dedent_is_an_error() {
    // Dedenting to a width that was never on the indent stack.
    let source = "if a:\n    x = 1\n  y = 2\n";
    let types = scan_types(source);
    assert!(count(&types, TokenType::Error) >= 1);
}

#[test]
fn tabs_count_four_columns() {
    // One tab indents as deep as four spaces, so the block dedents cleanly.
    let source = "if a:\n\tx = 1\nif b:\n    y = 2\n";
    let types = scan_types(source);
    assert_eq!(count(&types, TokenType::Error), 0);
    assert_eq!(count(&types, TokenType::Indent), 2);
    assert_eq!(count(&types, TokenType::Dedent), 2);
}
