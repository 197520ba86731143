use esi::config::Configuration;
use esi::engine::Processor;
use esi::fetch::{TableEntry, TableFetcher};
use esi::sink::MemorySink;
use esi::token::ExecutionError;

const NOTICE: &str = "\nAn error occurred while constructing this document.\n";

/// The directive's local tag name, assembled from bytes.
fn local_name() -> String {
    String::from_utf8(vec![105, 110, 99, 108, 117, 100, 101]).unwrap()
}

/// A self-closing directive tag under the `esi` namespace.
fn dir_tag(attrs: &str) -> String {
    format!("<esi:{} {}/>", local_name(), attrs)
}

fn entry(url: &str, status: u16, body: &str) -> TableEntry {
    TableEntry { url: url.as_bytes().to_vec(), status, body: body.as_bytes().to_vec() }
}

fn run(doc: &str, entries: Vec<TableEntry>) -> (String, Result<(), ExecutionError>) {
    run_with(b"esi".to_vec(), 16, doc, entries)
}

fn run_with(
    ns: Vec<u8>,
    depth: u32,
    doc: &str,
    entries: Vec<TableEntry>,
) -> (String, Result<(), ExecutionError>) {
    let processor = Processor::new(Configuration::new(ns, depth));
    let fetcher = TableFetcher::new(entries);
    let mut sink = MemorySink::new();
    let r = processor.execute_esi(doc.as_bytes().to_vec(), &fetcher, &mut sink);
    (String::from_utf8(sink.bytes().clone()).unwrap(), r)
}

#[test]
fn identity_without_directives() {
    let doc = "<html><p class=\"x\">A &amp; B</p><!-- note --><br/>tail</html>";
    let (out, r) = run(doc, vec![]);
    assert!(r.is_ok());
    assert_eq!(out, doc);
}

#[test]
fn identity_empty_document() {
    let (out, r) = run("", vec![]);
    assert!(r.is_ok());
    assert_eq!(out, "");
}

#[test]
fn single_substitution() {
    let doc = format!("<p>A</p>{}<p>B</p>", dir_tag("src=\"/f\""));
    let (out, r) = run(&doc, vec![entry("/f", 200, "X")]);
    assert!(r.is_ok());
    assert_eq!(out, "<p>A</p>X<p>B</p>");
}

#[test]
fn fallback_to_alt() {
    let doc = format!("<p>A</p>{}<p>B</p>", dir_tag("src=\"/f\" alt=\"/g\""));
    let (out, r) = run(&doc, vec![entry("/f", 500, "bad"), entry("/g", 200, "X")]);
    assert!(r.is_ok());
    assert_eq!(out, "<p>A</p>X<p>B</p>");
}

#[test]
fn continue_on_error_skips_directive() {
    let doc = format!(
        "<p>A</p>{}<p>B</p>",
        dir_tag("src=\"/f\" alt=\"/g\" onerror=\"continue\"")
    );
    let (out, r) = run(&doc, vec![]);
    assert!(r.is_ok());
    assert_eq!(out, "<p>A</p><p>B</p>");
}

#[test]
fn abort_appends_notice_and_reports_failure() {
    let doc = format!("<p>A</p>{}<p>B</p>", dir_tag("src=\"/f\" alt=\"/g\""));
    let (out, r) = run(&doc, vec![]);
    assert!(matches!(r, Err(ExecutionError::RequestError(_))));
    assert_eq!(out, format!("<p>A</p>{}", NOTICE));
}

#[test]
fn nested_resolution() {
    let inner = dir_tag("src=\"/b\"");
    let doc = dir_tag("src=\"/a\"");
    let (out, r) = run(&doc, vec![entry("/a", 200, &inner), entry("/b", 200, "Z")]);
    assert!(r.is_ok());
    assert_eq!(out, "Z");
}

#[test]
fn fragment_with_markup_and_nested_directive() {
    let inner = format!("[{}]", dir_tag("src=\"/b\""));
    let doc = format!("x{}y", dir_tag("src=\"/a\""));
    let (out, r) = run(&doc, vec![entry("/a", 200, &inner), entry("/b", 200, "Z")]);
    assert!(r.is_ok());
    assert_eq!(out, "x[Z]y");
}

#[test]
fn missing_src_is_rejected_before_fetch() {
    let doc = dir_tag("alt=\"/g\"");
    let (out, r) = run(&doc, vec![entry("/g", 200, "X")]);
    let tag = format!("esi:{}", local_name()).into_bytes();
    assert_eq!(
        r,
        Err(ExecutionError::MissingRequiredParameter(tag, b"src".to_vec()))
    );
    assert_eq!(out, NOTICE);
}

#[test]
fn empty_src_is_rejected() {
    let doc = dir_tag("src=\"\"");
    let (_, r) = run(&doc, vec![]);
    assert!(matches!(r, Err(ExecutionError::MissingRequiredParameter(_, _))));
}

#[test]
fn duplicate_attribute_is_rejected_before_fetch() {
    let doc = dir_tag("src=\"/f\" src=\"/f\"");
    let (out, r) = run(&doc, vec![entry("/f", 200, "X")]);
    assert_eq!(r, Err(ExecutionError::DuplicateTagAttribute(b"src".to_vec())));
    assert_eq!(out, NOTICE);
}

#[test]
fn unexpected_closing_tag() {
    let doc = format!("<p>A</p></esi:{}>", local_name());
    let (out, r) = run(&doc, vec![]);
    let tag = format!("esi:{}", local_name()).into_bytes();
    assert_eq!(r, Err(ExecutionError::UnexpectedClosingTag(tag)));
    assert_eq!(out, format!("<p>A</p>{}", NOTICE));
}

#[test]
fn open_close_directive_form() {
    let doc = format!("<esi:{n} src=\"/f\"></esi:{n}>", n = local_name());
    let (out, r) = run(&doc, vec![entry("/f", 200, "X")]);
    assert!(r.is_ok());
    assert_eq!(out, "X");
}

#[test]
fn unexpected_status_without_alt() {
    let doc = dir_tag("src=\"/f\"");
    let (out, r) = run(&doc, vec![entry("/f", 503, "oops")]);
    assert_eq!(r, Err(ExecutionError::UnexpectedStatus(503)));
    assert_eq!(out, NOTICE);
}

#[test]
fn malformed_markup_reports_xml_error_after_prefix() {
    let (out, r) = run("<p>A</p><broken", vec![]);
    assert!(matches!(r, Err(ExecutionError::XMLError(_))));
    assert_eq!(out, format!("<p>A</p>{}", NOTICE));
}

#[test]
fn cyclic_fragments_hit_depth_limit() {
    let doc = dir_tag("src=\"/a\"");
    let (out, r) = run(&doc, vec![entry("/a", 200, &doc)]);
    assert_eq!(r, Err(ExecutionError::DepthLimitExceeded));
    assert_eq!(out, NOTICE);
}

#[test]
fn other_namespace_passes_through() {
    let doc = format!("<p>A</p>{}<p>B</p>", dir_tag("src=\"/f\""));
    let (out, r) = run_with(b"acme".to_vec(), 16, &doc, vec![entry("/f", 200, "X")]);
    assert!(r.is_ok());
    assert_eq!(out, doc);
}

#[test]
fn custom_namespace_is_recognized() {
    let doc = format!("<acme:{} src=\"/f\"/>", local_name());
    let (out, r) = run_with(b"acme".to_vec(), 16, &doc, vec![entry("/f", 200, "X")]);
    assert!(r.is_ok());
    assert_eq!(out, "X");
}

#[test]
fn onerror_with_other_value_still_aborts() {
    let doc = dir_tag("src=\"/f\" onerror=\"ignore\"");
    let (_, r) = run(&doc, vec![]);
    assert!(matches!(r, Err(ExecutionError::RequestError(_))));
}

#[test]
fn status_code_boundaries() {
    let doc = dir_tag("src=\"/f\"");
    let (out, r) = run(&doc, vec![entry("/f", 299, "X")]);
    assert!(r.is_ok());
    assert_eq!(out, "X");
    let (_, r2) = run(&doc, vec![entry("/f", 300, "X")]);
    assert_eq!(r2, Err(ExecutionError::UnexpectedStatus(300)));
    let (_, r3) = run(&doc, vec![entry("/f", 199, "X")]);
    assert_eq!(r3, Err(ExecutionError::UnexpectedStatus(199)));
}

#[test]
fn default_configuration_uses_esi_namespace() {
    let processor = Processor::new(Configuration::default());
    let fetcher = TableFetcher::new(vec![entry("/f", 200, "X")]);
    let mut sink = MemorySink::new();
    let doc = format!("a{}b", dir_tag("src=\"/f\""));
    let r = processor.execute_esi(doc.into_bytes(), &fetcher, &mut sink);
    assert!(r.is_ok());
    assert_eq!(sink.bytes().as_slice(), b"aXb");
}

#[test]
fn fragment_with_malformed_tail_aborts_after_prefix() {
    let doc = format!("a{}b", dir_tag("src=\"/f\""));
    let (out, r) = run(&doc, vec![entry("/f", 200, "X<broken")]);
    assert!(matches!(r, Err(ExecutionError::XMLError(_))));
    assert_eq!(out, format!("aX{}", NOTICE));
}

#[test]
fn interior_markup_of_open_directive_streams_before_fragment() {
    let doc = format!("<esi:{n} src=\"/f\">mid</esi:{n}>", n = local_name());
    let (out, r) = run(&doc, vec![entry("/f", 200, "X")]);
    assert!(r.is_ok());
    assert_eq!(out, "midX");
}
