//! The grammar core: rendering, the text mapping and the incremental
//! propagation of tree edits.

use fuzzcheck::grammar::ast::{ASTMap, ASTMappingKind, AST};
use fuzzcheck::grammar::combinators::{literal, repetition, Grammar};
use fuzzcheck::grammar::incremental_map_conformance::{AstSeqToken, AstToken};
use fuzzcheck::grammar::regex::{grammar_from_regex_ir, RegexError, RegexIr};

fn date_ast() -> AST {
    AST::Sequence(vec![
        AST::Token('1'),
        AST::Token('2'),
        AST::Token('-'),
        AST::Token('3'),
        AST::Token('4'),
    ])
}

#[test]
fn test_generate_string() {
    let (text, map) = date_ast().generate_string();
    assert_eq!(text, b"12-34".to_vec());
    assert_eq!(map.start_index, 0);
    assert_eq!(map.len, 5);
    match &map.content {
        ASTMappingKind::Sequence(children) => {
            assert_eq!(children.len(), 5);
            for (i, child) in children.iter().enumerate() {
                assert_eq!(child.start_index, i);
                assert_eq!(child.len, 1);
            }
        },
        _ => panic!("expected a sequence mapping"),
    }
}

#[test]
fn test_incremental_element_mutation() {
    // start value "12-34"; mutate the character at position 3
    let (mut text, mut map) = date_ast().generate_string();
    let mutated = AST::Sequence(vec![
        AST::Token('1'),
        AST::Token('2'),
        AST::Token('-'),
        AST::Token('9'),
        AST::Token('4'),
    ]);
    let token = AstToken::Sequence(AstSeqToken::Element(3, Box::new(AstToken::Atom('3'))));
    map.mutate_value_from_token(&mutated, &mut text, &token);
    assert_eq!(text, b"12-94".to_vec());
    // sibling start indices are untouched
    match &map.content {
        ASTMappingKind::Sequence(children) => {
            for (i, child) in children.iter().enumerate() {
                assert_eq!(child.start_index, i);
            }
        },
        _ => panic!("expected a sequence mapping"),
    }
    map.unmutate_value_from_token(&mutated, &mut text, &token);
    assert_eq!(text, b"12-34".to_vec());
    let (expected_text, expected_map) = date_ast().generate_string();
    assert_eq!(text, expected_text);
    assert_eq!(map, expected_map);
}

#[test]
fn test_incremental_insert_and_remove() {
    // undoing an insertion removes; undoing a removal re-inserts
    let (mut text, mut map) = date_ast().generate_string();
    let with_extra = AST::Sequence(vec![
        AST::Token('1'),
        AST::Token('2'),
        AST::Token('7'),
        AST::Token('-'),
        AST::Token('3'),
        AST::Token('4'),
    ]);
    // the mutation inserted '7' at index 2; its undo removes it
    let token = AstToken::Sequence(AstSeqToken::Remove(2));
    map.mutate_value_from_token(&with_extra, &mut text, &token);
    assert_eq!(text, b"127-34".to_vec());
    map.unmutate_value_from_token(&with_extra, &mut text, &token);
    assert_eq!(text, b"12-34".to_vec());
}

#[test]
fn test_grammar_from_regex() {
    // the date grammar: two digits, a dash, two digits
    let digit = RegexIr::Class(vec![('0', '9')]);
    let ir = RegexIr::Concat(vec![
        RegexIr::Repetition(Box::new(digit), 2, Some(2)),
        RegexIr::Literal('-'),
        RegexIr::Repetition(Box::new(RegexIr::Class(vec![('0', '9')])), 2, Some(2)),
    ]);
    let g = grammar_from_regex_ir(&ir).unwrap();
    match g {
        Grammar::Concatenation(parts) => {
            assert_eq!(parts.len(), 3);
            match &parts[0] {
                Grammar::Repetition(inner, 2, 2) => match &**inner {
                    Grammar::Literal(ranges) => assert_eq!(ranges[0], ('0', '9')),
                    _ => panic!("expected a literal range"),
                },
                _ => panic!("expected a repetition"),
            }
        },
        _ => panic!("expected a concatenation"),
    }
}

#[test]
fn test_regex_rejections() {
    assert_eq!(grammar_from_regex_ir(&RegexIr::Empty), Err(RegexError::EmptyRegex));
    assert_eq!(grammar_from_regex_ir(&RegexIr::Anchor), Err(RegexError::AnchorUnsupported));
    assert_eq!(
        grammar_from_regex_ir(&RegexIr::WordBoundary),
        Err(RegexError::WordBoundaryUnsupported)
    );
    assert_eq!(grammar_from_regex_ir(&RegexIr::ByteClass), Err(RegexError::NonUnicode));
}

#[test]
fn test_grammar_combinators() {
    let g = literal('a');
    match g {
        Grammar::Literal(rs) => assert_eq!(rs, vec![('a', 'a')]),
        _ => panic!("expected a literal"),
    }
    let r = repetition(literal('b'), 0, 4);
    match r {
        Grammar::Repetition(_, 0, 4) => {},
        _ => panic!("expected a repetition"),
    }
}

#[test]
fn test_wholesale_replace_mapping() {
    let (mut text, mut map) = date_ast().generate_string();
    let replacement = AST::Sequence(vec![AST::Token('x'), AST::Token('y')]);
    let token = AstToken::Sequence(AstSeqToken::Replace(vec![
        AST::Token('1'),
        AST::Token('2'),
        AST::Token('-'),
        AST::Token('3'),
        AST::Token('4'),
    ]));
    map.mutate_value_from_token(&replacement, &mut text, &token);
    assert_eq!(text, b"xy".to_vec());
    assert_eq!(map.len, 2);
    map.unmutate_value_from_token(&replacement, &mut text, &token);
    assert_eq!(text, b"12-34".to_vec());
    assert_eq!(map.len, 5);
}

#[test]
fn test_nested_box_mapping() {
    let ast = AST::Box(Box::new(AST::Token('z')));
    let (text, map) = ast.generate_string();
    assert_eq!(text, b"z".to_vec());
    match &map.content {
        ASTMappingKind::Box(inner) => {
            assert_eq!(inner.start_index, 0);
            assert_eq!(inner.len, 1);
        },
        _ => panic!("expected a box mapping"),
    }
}

#[test]
fn test_byte_indices_for_multibyte_characters() {
    // a two-byte character occupies two byte positions
    let ast = AST::Sequence(vec![AST::Token('\u{e9}'), AST::Token('b')]);
    let (text, map) = ast.generate_string();
    assert_eq!(text, "\u{e9}b".as_bytes().to_vec());
    assert_eq!(map.start_index, 0);
    assert_eq!(map.len, 3);
    match &map.content {
        ASTMappingKind::Sequence(children) => {
            assert_eq!(children.len(), 2);
            assert_eq!((children[0].start_index, children[0].len), (0, 2));
            assert_eq!((children[1].start_index, children[1].len), (2, 1));
        },
        _ => panic!("expected a sequence mapping"),
    }
}

#[test]
fn test_multibyte_atom_mutation() {
    // swapping an ASCII character for a two-byte one shifts the sibling
    let (mut text, mut map) = {
        let ast = AST::Sequence(vec![AST::Token('a'), AST::Token('b')]);
        ast.generate_string()
    };
    let mutated = AST::Sequence(vec![AST::Token('\u{e9}'), AST::Token('b')]);
    let token = AstToken::Sequence(AstSeqToken::Element(0, Box::new(AstToken::Atom('a'))));
    map.mutate_value_from_token(&mutated, &mut text, &token);
    assert_eq!(text, "\u{e9}b".as_bytes().to_vec());
    match &map.content {
        ASTMappingKind::Sequence(children) => {
            assert_eq!((children[0].start_index, children[0].len), (0, 2));
            assert_eq!((children[1].start_index, children[1].len), (2, 1));
        },
        _ => panic!("expected a sequence mapping"),
    }
    map.unmutate_value_from_token(&mutated, &mut text, &token);
    assert_eq!(text, b"ab".to_vec());
}
