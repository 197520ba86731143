use esi::config::Configuration;
use esi::engine::Processor;
use esi::fetch::{TableEntry, TableFetcher};
use esi::lex::tokenize;
use esi::sink::MemorySink;
use esi::token::{Attr, Document, Token};

/// The directive's local tag name, assembled from bytes.
fn local_name() -> String {
    String::from_utf8(vec![105, 110, 99, 108, 117, 100, 101]).unwrap()
}

fn raw_of(t: &Token) -> Vec<u8> {
    match t {
        Token::Open { raw, .. } => raw.clone(),
        Token::Close { raw, .. } => raw.clone(),
        Token::Other { raw } => raw.clone(),
    }
}

#[test]
fn tokenize_splits_and_reconstructs() {
    let doc = b"<a href=\"u\">text</a><!-- c -->".to_vec();
    let d = tokenize(&doc);
    assert!(d.fault.is_none());
    assert_eq!(d.tokens.len(), 4);
    assert!(matches!(&d.tokens[0], Token::Open { self_closing: false, .. }));
    assert!(matches!(&d.tokens[1], Token::Other { .. }));
    assert!(matches!(&d.tokens[2], Token::Close { .. }));
    assert!(matches!(&d.tokens[3], Token::Other { .. }));
    let rebuilt: Vec<u8> = d.tokens.iter().flat_map(raw_of).collect();
    assert_eq!(rebuilt, doc);
}

#[test]
fn tokenize_extracts_names_and_attributes() {
    let doc = format!("<esi:{} src=\"/f\" alt=\"/g\"/>", local_name()).into_bytes();
    let d = tokenize(&doc);
    assert!(d.fault.is_none());
    assert_eq!(d.tokens.len(), 1);
    match &d.tokens[0] {
        Token::Open { name, attrs, self_closing, raw } => {
            assert_eq!(name, &format!("esi:{}", local_name()).into_bytes());
            assert!(*self_closing);
            assert_eq!(raw, &doc);
            assert_eq!(attrs.len(), 2);
            assert_eq!(attrs[0].name, b"src".to_vec());
            assert_eq!(attrs[0].value, b"/f".to_vec());
            assert_eq!(attrs[1].name, b"alt".to_vec());
            assert_eq!(attrs[1].value, b"/g".to_vec());
        },
        other => panic!("unexpected token {:?}", other),
    }
}

#[test]
fn tokenize_reports_fault_after_good_tokens() {
    let d = tokenize(&b"ok<broken".to_vec());
    assert!(d.fault.is_some());
    assert_eq!(d.tokens.len(), 1);
    assert_eq!(raw_of(&d.tokens[0]), b"ok".to_vec());
}

#[test]
fn fragment_renders_hand_built_tokens() {
    let tag_name = format!("esi:{}", local_name()).into_bytes();
    let doc = Document {
        tokens: vec![
            Token::Other { raw: b"A".to_vec() },
            Token::Open {
                name: tag_name,
                attrs: vec![Attr { name: b"src".to_vec(), value: b"/f".to_vec() }],
                self_closing: true,
                raw: b"<ignored/>".to_vec(),
            },
            Token::Other { raw: b"B".to_vec() },
        ],
        fault: None,
    };
    let processor = Processor::new(Configuration::default());
    let fetcher = TableFetcher::new(vec![TableEntry {
        url: b"/f".to_vec(),
        status: 200,
        body: b"X".to_vec(),
    }]);
    let mut sink = MemorySink::new();
    let r = processor.execute_esi_fragment(doc, 4, &fetcher, &mut sink);
    assert!(r.is_ok());
    assert_eq!(sink.bytes().as_slice(), b"AXB");
}

#[test]
fn fragment_reports_carried_fault_after_rendering() {
    let doc = Document {
        tokens: vec![Token::Other { raw: b"A".to_vec() }],
        fault: Some(String::from("unterminated tag")),
    };
    let processor = Processor::new(Configuration::default());
    let fetcher = TableFetcher::new(vec![]);
    let mut sink = MemorySink::new();
    let r = processor.execute_esi_fragment(doc, 4, &fetcher, &mut sink);
    assert!(matches!(r, Err(esi::token::ExecutionError::XMLError(_))));
    assert_eq!(sink.bytes().as_slice(), b"A");
}

#[test]
fn depth_zero_rejects_any_directive() {
    let tag_name = format!("esi:{}", local_name()).into_bytes();
    let doc = Document {
        tokens: vec![Token::Open {
            name: tag_name,
            attrs: vec![Attr { name: b"src".to_vec(), value: b"/f".to_vec() }],
            self_closing: true,
            raw: b"<x/>".to_vec(),
        }],
        fault: None,
    };
    let processor = Processor::new(Configuration::default());
    let fetcher = TableFetcher::new(vec![TableEntry {
        url: b"/f".to_vec(),
        status: 200,
        body: b"X".to_vec(),
    }]);
    let mut sink = MemorySink::new();
    let r = processor.execute_esi_fragment(doc, 0, &fetcher, &mut sink);
    assert!(matches!(r, Err(esi::token::ExecutionError::DepthLimitExceeded)));
}
