use vstd::prelude::*;

verus! {

// ---------------------------------------------------------------------------
// Attributes
// ---------------------------------------------------------------------------

/// One attribute of a tag: its raw name bytes and raw value bytes.
#[derive(Debug, Clone, PartialEq, Eq)]
pub struct Attr {
    pub name: Vec<u8>,
    pub value: Vec<u8>,
}

#[verifier::ext_equal]
pub struct AttrModel {
    pub name: Seq<u8>,
    pub value: Seq<u8>,
}

impl View for Attr {
    type V = AttrModel;

    open spec fn view(&self) -> AttrModel {
        AttrModel { name: self.name@, value: self.value@ }
    }
}

// ---------------------------------------------------------------------------
// Lexical tokens
// ---------------------------------------------------------------------------

/// One lexical markup token, as handed over by the lexer. Tag tokens carry
/// their name and attributes so the parser can recognize directives; every
/// token carries the exact bytes it stands for, so unrecognized markup can be
/// passed through verbatim.
#[derive(Debug, Clone, PartialEq, Eq)]
pub enum Token {
    /// A start tag or an empty-element tag.
    Open { name: Vec<u8>, attrs: Vec<Attr>, self_closing: bool, raw: Vec<u8> },
    /// A closing tag.
    Close { name: Vec<u8>, raw: Vec<u8> },
    /// Any other markup token (text, comment, declaration, ...).
    Other { raw: Vec<u8> },
}

#[verifier::ext_equal]
pub enum TokenModel {
    Open { name: Seq<u8>, attrs: Seq<AttrModel>, self_closing: bool, raw: Seq<u8> },
    Close { name: Seq<u8>, raw: Seq<u8> },
    Other { raw: Seq<u8> },
}

impl TokenModel {
    /// The exact bytes this token stands for in the document.
    pub open spec fn raw(self) -> Seq<u8> {
        match self {
            TokenModel::Open { name: _, attrs: _, self_closing: _, raw } => raw,
            TokenModel::Close { name: _, raw } => raw,
            TokenModel::Other { raw } => raw,
        }
    }
}

impl View for Token {
    type V = TokenModel;

    open spec fn view(&self) -> TokenModel {
        match self {
            Token::Open { name, attrs, self_closing, raw } => TokenModel::Open {
                name: name@,
                attrs: attrs@.map_values(|a: Attr| a@),
                self_closing: *self_closing,
                raw: raw@,
            },
            Token::Close { name, raw } => TokenModel::Close { name: name@, raw: raw@ },
            Token::Other { raw } => TokenModel::Other { raw: raw@ },
        }
    }
}

impl Token {
    /// The exact bytes this token stands for.
    pub fn raw_bytes(&self) -> (r: &Vec<u8>)
        ensures
            r@ == self@.raw(),
    {
        match self {
            Token::Open { name: _, attrs: _, self_closing: _, raw } => raw,
            Token::Close { name: _, raw } => raw,
            Token::Other { raw } => raw,
        }
    }
}

// ---------------------------------------------------------------------------
// The directive vocabulary
// ---------------------------------------------------------------------------

/// The local name of the one recognized directive tag.
pub open spec fn directive_local() -> Seq<u8> {
    seq![105u8, 110u8, 99u8, 108u8, 117u8, 100u8, 101u8]
}

/// The full name of a directive tag under the namespace prefix `ns`.
pub open spec fn directive_name(ns: Seq<u8>) -> Seq<u8> {
    ns + seq![58u8] + directive_local()
}

/// Name of the required attribute giving the fragment source.
pub open spec fn src_attr() -> Seq<u8> {
    seq![115u8, 114u8, 99u8]
}

/// Name of the optional attribute giving the fallback source.
pub open spec fn alt_attr() -> Seq<u8> {
    seq![97u8, 108u8, 116u8]
}

/// Name of the optional attribute selecting the error-tolerance policy.
pub open spec fn onerror_attr() -> Seq<u8> {
    seq![111u8, 110u8, 101u8, 114u8, 114u8, 111u8, 114u8]
}

/// The attribute value that turns error tolerance on.
pub open spec fn continue_value() -> Seq<u8> {
    seq![99u8, 111u8, 110u8, 116u8, 105u8, 110u8, 117u8, 101u8]
}

/// A recognized directive. The vocabulary is kept open so further directive
/// kinds can be added without touching the markup-passthrough path.
#[derive(Debug, Clone, PartialEq, Eq)]
pub enum Tag {
    /// Fetch the fragment at `src` (falling back to `alt`) and splice its
    /// rendered content in place of the directive.
    Splice { src: Vec<u8>, alt: Option<Vec<u8>>, continue_on_error: bool },
}

#[verifier::ext_equal]
pub enum TagModel {
    Splice { src: Seq<u8>, alt: Option<Seq<u8>>, continue_on_error: bool },
}

impl TagModel {
    pub open spec fn src(self) -> Seq<u8> {
        match self {
            TagModel::Splice { src, alt: _, continue_on_error: _ } => src,
        }
    }

    pub open spec fn alt(self) -> Option<Seq<u8>> {
        match self {
            TagModel::Splice { src: _, alt, continue_on_error: _ } => alt,
        }
    }

    pub open spec fn continue_on_error(self) -> bool {
        match self {
            TagModel::Splice { src: _, alt: _, continue_on_error } => continue_on_error,
        }
    }
}

impl View for Tag {
    type V = TagModel;

    open spec fn view(&self) -> TagModel {
        match self {
            Tag::Splice { src, alt, continue_on_error } => TagModel::Splice {
                src: src@,
                alt: match alt {
                    Option::Some(a) => Option::Some(a@),
                    Option::None => Option::None,
                },
                continue_on_error: *continue_on_error,
            },
        }
    }
}

/// The unit exchanged between parser and engine: the current token passes
/// through verbatim, or it completed a recognized directive.
#[derive(Debug, Clone, PartialEq, Eq)]
pub enum ParseEvent {
    /// The token at hand is plain markup and passes through unchanged.
    Markup,
    /// The token at hand completed a directive.
    Directive(Tag),
}

#[verifier::ext_equal]
pub enum EventModel {
    Markup(TokenModel),
    Directive(TagModel),
}

// ---------------------------------------------------------------------------
// Errors
// ---------------------------------------------------------------------------

/// Every way one rendering call can fail.
#[derive(Debug, Clone, PartialEq, Eq)]
pub enum ExecutionError {
    /// The lexer reported malformed markup; carries its message.
    XMLError(String),
    /// A directive completed without a required attribute (tag name, attribute name).
    MissingRequiredParameter(Vec<u8>, Vec<u8>),
    /// A directive closing tag appeared with no directive open.
    UnexpectedClosingTag(Vec<u8>),
    /// A directive tag repeated an attribute name.
    DuplicateTagAttribute(Vec<u8>),
    /// The fetch collaborator failed to complete a fragment request.
    RequestError(String),
    /// A fragment response had a non-success status.
    UnexpectedStatus(u16),
    /// Fragment resolution nested deeper than the configured bound.
    DepthLimitExceeded,
    /// Any other failure.
    Unknown,
}

#[verifier::ext_equal]
pub enum ErrModel {
    Xml(Seq<char>),
    MissingParam { tag: Seq<u8>, param: Seq<u8> },
    UnexpectedClose(Seq<u8>),
    DupAttr(Seq<u8>),
    Request,
    Status(u16),
    DepthLimit,
    Unknown,
}

impl View for ExecutionError {
    type V = ErrModel;

    open spec fn view(&self) -> ErrModel {
        match self {
            ExecutionError::XMLError(m) => ErrModel::Xml(m@),
            ExecutionError::MissingRequiredParameter(t, p) => ErrModel::MissingParam {
                tag: t@,
                param: p@,
            },
            ExecutionError::UnexpectedClosingTag(n) => ErrModel::UnexpectedClose(n@),
            ExecutionError::DuplicateTagAttribute(n) => ErrModel::DupAttr(n@),
            ExecutionError::RequestError(_) => ErrModel::Request,
            ExecutionError::UnexpectedStatus(s) => ErrModel::Status(*s),
            ExecutionError::DepthLimitExceeded => ErrModel::DepthLimit,
            ExecutionError::Unknown => ErrModel::Unknown,
        }
    }
}

// ---------------------------------------------------------------------------
// Documents
// ---------------------------------------------------------------------------

/// A fully lexed document or fragment: its tokens in order, and the lexer
/// fault that cut the token stream short, if any. The fault takes effect
/// only after everything before it has been rendered, which matches a
/// streaming reader that hits the malformed bytes last.
#[derive(Debug, Clone, PartialEq, Eq)]
pub struct Document {
    pub tokens: Vec<Token>,
    pub fault: Option<String>,
}

#[verifier::ext_equal]
pub struct DocumentModel {
    pub tokens: Seq<TokenModel>,
    pub fault: Option<Seq<char>>,
}

impl View for Document {
    type V = DocumentModel;

    open spec fn view(&self) -> DocumentModel {
        DocumentModel {
            tokens: self.tokens@.map_values(|t: Token| t@),
            fault: match &self.fault {
                Option::Some(m) => Option::Some(m@),
                Option::None => Option::None,
            },
        }
    }
}

// ---------------------------------------------------------------------------
// Byte helpers
// ---------------------------------------------------------------------------

/// Whether two byte vectors hold the same bytes.
pub fn bytes_eq(a: &Vec<u8>, b: &Vec<u8>) -> (r: bool)
    ensures
        r == (a@ == b@),
{
    if a.len() != b.len() {
        return false;
    }
    let mut i: usize = 0;
    while i < a.len()
        invariant
            i <= a.len(),
            a.len() == b.len(),
            forall|j: int| 0 <= j < i ==> a@[j] == b@[j],
        decreases a.len() - i,
    {
        if a[i] != b[i] {
            return false;
        }
        i += 1;
    }
    proof {
        assert(a@ =~= b@);
    }
    true
}

/// A fresh copy of the given bytes.
pub fn clone_bytes(a: &Vec<u8>) -> (r: Vec<u8>)
    ensures
        r@ == a@,
{
    let mut r: Vec<u8> = Vec::new();
    let mut i: usize = 0;
    while i < a.len()
        invariant
            i <= a.len(),
            r@ =~= a@.subrange(0, i as int),
        decreases a.len() - i,
    {
        r.push(a[i]);
        i += 1;
    }
    proof {
        assert(r@ =~= a@);
    }
    r
}

/// The directive tag name under `ns`, as a fresh vector.
pub fn directive_name_vec(ns: &Vec<u8>) -> (v: Vec<u8>)
    ensures
        v@ == directive_name(ns@),
{
    let mut v = clone_bytes(ns);
    v.push(58u8);
    v.push(105u8);
    v.push(110u8);
    v.push(99u8);
    v.push(108u8);
    v.push(117u8);
    v.push(100u8);
    v.push(101u8);
    proof {
        assert(v@ =~= directive_name(ns@));
    }
    v
}

/// Whether `name` is exactly the directive tag name under `ns`.
pub fn is_directive_name(ns: &Vec<u8>, name: &Vec<u8>) -> (r: bool)
    ensures
        r == (name@ == directive_name(ns@)),
{
    let expected = directive_name_vec(ns);
    bytes_eq(name, &expected)
}

/// The `src` attribute name, as a fresh vector.
pub fn src_attr_vec() -> (v: Vec<u8>)
    ensures
        v@ == src_attr(),
{
    let mut v: Vec<u8> = Vec::new();
    v.push(115u8);
    v.push(114u8);
    v.push(99u8);
    proof {
        assert(v@ =~= src_attr());
    }
    v
}

/// The `alt` attribute name, as a fresh vector.
pub fn alt_attr_vec() -> (v: Vec<u8>)
    ensures
        v@ == alt_attr(),
{
    let mut v: Vec<u8> = Vec::new();
    v.push(97u8);
    v.push(108u8);
    v.push(116u8);
    proof {
        assert(v@ =~= alt_attr());
    }
    v
}

/// The `onerror` attribute name, as a fresh vector.
pub fn onerror_attr_vec() -> (v: Vec<u8>)
    ensures
        v@ == onerror_attr(),
{
    let mut v: Vec<u8> = Vec::new();
    v.push(111u8);
    v.push(110u8);
    v.push(101u8);
    v.push(114u8);
    v.push(114u8);
    v.push(111u8);
    v.push(114u8);
    proof {
        assert(v@ =~= onerror_attr());
    }
    v
}

/// The `continue` attribute value, as a fresh vector.
pub fn continue_value_vec() -> (v: Vec<u8>)
    ensures
        v@ == continue_value(),
{
    let mut v: Vec<u8> = Vec::new();
    v.push(99u8);
    v.push(111u8);
    v.push(110u8);
    v.push(116u8);
    v.push(105u8);
    v.push(110u8);
    v.push(117u8);
    v.push(101u8);
    proof {
        assert(v@ =~= continue_value());
    }
    v
}

} // verus!
