//! The syntax tree of a PROTO / world document, and its mathematical model.
//!
//! Every executable type here has a spec-level mirror (the `...V` types) in which
//! strings are `Seq<char>` and vectors are `Seq`; the contracts of the library speak
//! of these mirrors.
//!
//! Numbers that are not integers are kept as decimal text: the library does no
//! floating-point arithmetic.
use vstd::prelude::*;

verus! {

/// A half-open byte range `[start, end)` in the source text, with 1-based line and
/// column numbers of both ends.
#[derive(Debug, Clone, Copy, PartialEq, Eq, Hash, Structural)]
pub struct Span {
    /// Start byte offset.
    pub start: usize,
    /// End byte offset (exclusive).
    pub end: usize,
    /// Start line number (1-based).
    pub start_line: usize,
    /// Start column number (1-based).
    pub start_col: usize,
    /// End line number (1-based).
    pub end_line: usize,
    /// End column number (1-based).
    pub end_col: usize,
}

impl Span {
    /// Builds a span from its six coordinates.
    pub fn new(
        start: usize,
        end: usize,
        start_line: usize,
        start_col: usize,
        end_line: usize,
        end_col: usize,
    ) -> (r: Span)
        ensures
            r == (Span { start, end, start_line, start_col, end_line, end_col }),
    {
        Span { start, end, start_line, start_col, end_line, end_col }
    }

    /// The empty span at offset zero.
    pub fn zero() -> (r: Span)
        ensures
            r == (Span { start: 0, end: 0, start_line: 0, start_col: 0, end_line: 0, end_col: 0 }),
    {
        Span { start: 0, end: 0, start_line: 0, start_col: 0, end_line: 0, end_col: 0 }
    }
}

impl Default for Span {
    fn default() -> (r: Span)
        ensures
            r == (Span { start: 0, end: 0, start_line: 0, start_col: 0, end_line: 0, end_col: 0 }),
    {
        Span::zero()
    }
}

/// The kind of a piece of trivia.
#[derive(Debug, Clone, Copy, PartialEq, Eq, Hash, Structural)]
pub enum TriviaKind {
    Whitespace,
    Comment,
    Newline,
}

/// Non-semantic content such as comments and whitespace.
#[derive(Debug, Clone, PartialEq, Eq, Hash)]
pub struct Trivia {
    /// The text of the trivia (e.g. `"# comment"` or `"  "`).
    pub content: String,
    /// The kind of trivia.
    pub kind: TriviaKind,
    /// Where it stands in the source.
    pub span: Span,
}

/// The file header, e.g. `#VRML_SIM R2025a utf8`.
#[derive(Debug, Clone, PartialEq)]
pub struct Header {
    pub version: String,
    pub encoding: String,
    pub raw: Option<String>,
    pub span: Span,
}

/// An `EXTERNPROTO` declaration, possibly marked `IMPORTABLE`.
#[derive(Debug, Clone, PartialEq)]
pub struct ExternProto {
    pub url: String,
    pub alias: Option<String>,
    /// True when the declaration was written `IMPORTABLE EXTERNPROTO`.
    pub importable: bool,
    pub span: Span,
}

/// The `PROTO name [ interface ] { body }` block.
#[derive(Debug, PartialEq)]
pub struct ProtoDefinition {
    pub name: String,
    pub fields: Vec<ProtoField>,
    pub body: Vec<ProtoBodyItem>,
    pub span: Span,
}

/// A field declaration of the PROTO interface.
#[derive(Debug, PartialEq)]
pub struct ProtoField {
    pub name: String,
    pub field_type: FieldType,
    pub default_value: Option<FieldValue>,
    /// `field`, `vrmlField`, `hiddenField` or `deprecatedField`.
    pub keyword: FieldKeyword,
    /// The allowed values, when the declaration lists them in braces.
    pub restrictions: Option<Vec<FieldValue>>,
    pub span: Span,
}

/// The keyword that introduces an interface field.
#[derive(Debug, Clone, Copy, PartialEq, Eq, Structural)]
pub enum FieldKeyword {
    Field,
    VrmlField,
    HiddenField,
    DeprecatedField,
}

/// The type of a field.
#[derive(Debug, Clone, PartialEq)]
pub enum FieldType {
    SFBool,
    SFInt32,
    SFFloat,
    SFString,
    SFVec2f,
    SFVec3f,
    SFRotation,
    SFColor,
    SFNode,
    MFBool,
    MFInt32,
    MFFloat,
    MFString,
    MFVec2f,
    MFVec3f,
    MFRotation,
    MFColor,
    MFNode,
    Unknown(String),
}

/// An item of the PROTO body: a node or a template block.
#[derive(Debug, PartialEq)]
pub enum ProtoBodyItem {
    Node(AstNode),
    Template(TemplateBlock),
}

/// A template statement `%< ... >%` or expression `%<= ... >%`.
#[derive(Debug, Clone, PartialEq)]
pub struct TemplateBlock {
    pub content: String,
    /// True for an expression `%<= ... >%`.
    pub is_expression: bool,
    pub span: Span,
}

/// A node: `[DEF name] Type { ... }` or `USE name`.
#[derive(Debug, PartialEq)]
pub struct AstNode {
    pub kind: AstNodeKind,
    pub span: Span,
}

/// The two shapes of a node.
#[derive(Debug, PartialEq)]
pub enum AstNodeKind {
    /// `[DEF name] Type { fields }`
    Node { node_type: String, def_name: Option<String>, fields: Vec<NodeBodyElement> },
    /// `USE name`
    Use { use_name: String },
}

/// An element of a node body.
#[derive(Debug, PartialEq)]
pub enum NodeBodyElement {
    Field(NodeField),
    Template(TemplateBlock),
    /// An unexpected token inside the body, kept so that nothing is lost.
    Raw(RawSyntax),
}

/// Source text kept verbatim.
#[derive(Debug, Clone, PartialEq)]
pub struct RawSyntax {
    pub text: String,
    pub span: Span,
}

/// A field assignment inside a node, e.g. `translation 0 1 0`.
#[derive(Debug, PartialEq)]
pub struct NodeField {
    pub name: String,
    pub value: FieldValue,
    pub span: Span,
}

/// The value of a field.
///
/// A non-integer number is held as decimal text (the first string of `Float`, and
/// the strings of the vector variants), not as a binary floating-point number: the
/// library computes no floating-point arithmetic. So a number keeps the form it was
/// written in (`1.50` stays `1.50`, `1e3` stays `1e3`, where a floating-point value
/// would print as `1.5` and `1000`), and so does the `Debug` text of a value
/// (`Float("1.5", None)`). The second string of `Int` and `Float` is the number as it
/// was written in the source, when known.
#[derive(Debug, PartialEq)]
pub enum FieldValue {
    Bool(bool),
    Int(i64, Option<String>),
    Float(String, Option<String>),
    String(String),
    Vec2f([String; 2]),
    Vec3f([String; 3]),
    Rotation([String; 4]),
    Color([String; 3]),
    Node(Box<AstNode>),
    Array(ArrayValue),
    /// Numbers written one after another without brackets, e.g. `0 0 1`.
    NumberSequence(NumberSequence),
    /// `IS fieldName`
    Is(String),
    /// `NULL`
    Null,
    /// A template expression used as a value.
    Template(TemplateBlock),
    /// Text that was not parsed further.
    Raw(String),
}

/// A bracketed array value.
#[derive(Debug, PartialEq)]
pub struct ArrayValue {
    pub elements: Vec<ArrayElement>,
}

/// An element of an array value.
#[derive(Debug, PartialEq)]
pub struct ArrayElement {
    pub value: FieldValue,
}

/// A sequence of numbers.
#[derive(Debug, PartialEq)]
pub struct NumberSequence {
    pub elements: Vec<NumberSequenceElement>,
}

/// An element of a number sequence.
#[derive(Debug, PartialEq)]
pub struct NumberSequenceElement {
    pub value: FieldValue,
}

/// A complete document.
#[derive(Debug, PartialEq)]
pub struct Proto {
    /// The `#VRML_SIM` header.
    pub header: Option<Header>,
    /// The `EXTERNPROTO` declarations.
    pub externprotos: Vec<ExternProto>,
    /// The PROTO definition, if any.
    pub proto: Option<ProtoDefinition>,
    /// Root nodes (a world, or nodes outside a PROTO).
    pub root_nodes: Vec<AstNode>,
    /// The file the document was read from, when known.
    pub source_path: Option<String>,
    /// The text the document was parsed from, when known.
    pub source_content: Option<String>,
}

// ---------------------------------------------------------------------------
// Mathematical model
// ---------------------------------------------------------------------------
/// Model of a template block.
pub struct TemplateV {
    pub content: Seq<char>,
    pub is_expression: bool,
    pub span: Span,
}

/// Model of a field type.
pub enum FieldTypeV {
    SFBool,
    SFInt32,
    SFFloat,
    SFString,
    SFVec2f,
    SFVec3f,
    SFRotation,
    SFColor,
    SFNode,
    MFBool,
    MFInt32,
    MFFloat,
    MFString,
    MFVec2f,
    MFVec3f,
    MFRotation,
    MFColor,
    MFNode,
    Unknown(Seq<char>),
}

/// Model of a field value.
pub enum ValueV {
    Bool(bool),
    Int(i64, Option<Seq<char>>),
    Float(Seq<char>, Option<Seq<char>>),
    String(Seq<char>),
    Vec2f(Seq<Seq<char>>),
    Vec3f(Seq<Seq<char>>),
    Rotation(Seq<Seq<char>>),
    Color(Seq<Seq<char>>),
    Node(Box<NodeV>),
    Array(Seq<ValueV>),
    NumberSequence(Seq<ValueV>),
    Is(Seq<char>),
    Null,
    Template(TemplateV),
    Raw(Seq<char>),
}

/// Model of a node-body element.
pub enum ElementV {
    Field { name: Seq<char>, value: ValueV, span: Span },
    Template(TemplateV),
    Raw { text: Seq<char>, span: Span },
}

/// Model of a node.
pub enum NodeKindV {
    Node { node_type: Seq<char>, def_name: Option<Seq<char>>, fields: Seq<ElementV> },
    Use { use_name: Seq<char> },
}

/// Model of a node with its span.
pub struct NodeV {
    pub kind: NodeKindV,
    pub span: Span,
}

/// Model of an interface field.
pub struct ProtoFieldV {
    pub name: Seq<char>,
    pub field_type: FieldTypeV,
    pub default_value: Option<ValueV>,
    pub keyword: FieldKeyword,
    pub restrictions: Option<Seq<ValueV>>,
    pub span: Span,
}

/// Model of a PROTO body item.
pub enum BodyItemV {
    Node(NodeV),
    Template(TemplateV),
}

/// Model of a PROTO definition.
pub struct ProtoDefV {
    pub name: Seq<char>,
    pub fields: Seq<ProtoFieldV>,
    pub body: Seq<BodyItemV>,
    pub span: Span,
}

/// Model of a header.
pub struct HeaderV {
    pub version: Seq<char>,
    pub encoding: Seq<char>,
    pub raw: Option<Seq<char>>,
    pub span: Span,
}

/// Model of an EXTERNPROTO declaration.
pub struct ExternProtoV {
    pub url: Seq<char>,
    pub alias: Option<Seq<char>>,
    pub importable: bool,
    pub span: Span,
}

/// Model of a document.
pub struct ProtoV {
    pub header: Option<HeaderV>,
    pub externprotos: Seq<ExternProtoV>,
    pub proto: Option<ProtoDefV>,
    pub root_nodes: Seq<NodeV>,
    pub source_path: Option<Seq<char>>,
    pub source_content: Option<Seq<char>>,
}

/// The model of an optional string.
pub open spec fn opt_str(o: Option<String>) -> Option<Seq<char>> {
    match o {
        Some(s) => Some(s@),
        None => None,
    }
}

/// The model of a sequence of strings.
pub open spec fn strs_view(s: Seq<String>) -> Seq<Seq<char>> {
    Seq::new(s.len(), |i: int| s[i]@)
}

pub open spec fn template_view(t: TemplateBlock) -> TemplateV {
    TemplateV { content: t.content@, is_expression: t.is_expression, span: t.span }
}

pub open spec fn field_type_view(t: FieldType) -> FieldTypeV {
    match t {
        FieldType::SFBool => FieldTypeV::SFBool,
        FieldType::SFInt32 => FieldTypeV::SFInt32,
        FieldType::SFFloat => FieldTypeV::SFFloat,
        FieldType::SFString => FieldTypeV::SFString,
        FieldType::SFVec2f => FieldTypeV::SFVec2f,
        FieldType::SFVec3f => FieldTypeV::SFVec3f,
        FieldType::SFRotation => FieldTypeV::SFRotation,
        FieldType::SFColor => FieldTypeV::SFColor,
        FieldType::SFNode => FieldTypeV::SFNode,
        FieldType::MFBool => FieldTypeV::MFBool,
        FieldType::MFInt32 => FieldTypeV::MFInt32,
        FieldType::MFFloat => FieldTypeV::MFFloat,
        FieldType::MFString => FieldTypeV::MFString,
        FieldType::MFVec2f => FieldTypeV::MFVec2f,
        FieldType::MFVec3f => FieldTypeV::MFVec3f,
        FieldType::MFRotation => FieldTypeV::MFRotation,
        FieldType::MFColor => FieldTypeV::MFColor,
        FieldType::MFNode => FieldTypeV::MFNode,
        FieldType::Unknown(s) => FieldTypeV::Unknown(s@),
    }
}

pub open spec fn value_view(v: FieldValue) -> ValueV
    decreases v,
{
    match v {
        FieldValue::Bool(b) => ValueV::Bool(b),
        FieldValue::Int(i, raw) => ValueV::Int(i, opt_str(raw)),
        FieldValue::Float(t, raw) => ValueV::Float(t@, opt_str(raw)),
        FieldValue::String(s) => ValueV::String(s@),
        FieldValue::Vec2f(a) => ValueV::Vec2f(strs_view(a@)),
        FieldValue::Vec3f(a) => ValueV::Vec3f(strs_view(a@)),
        FieldValue::Rotation(a) => ValueV::Rotation(strs_view(a@)),
        FieldValue::Color(a) => ValueV::Color(strs_view(a@)),
        FieldValue::Node(n) => ValueV::Node(Box::new(node_view(*n))),
        FieldValue::Array(a) => ValueV::Array(array_view(a.elements@)),
        FieldValue::NumberSequence(s) => ValueV::NumberSequence(numbers_view(s.elements@)),
        FieldValue::Is(s) => ValueV::Is(s@),
        FieldValue::Null => ValueV::Null,
        FieldValue::Template(t) => ValueV::Template(template_view(t)),
        FieldValue::Raw(s) => ValueV::Raw(s@),
    }
}

pub open spec fn array_view(s: Seq<ArrayElement>) -> Seq<ValueV>
    decreases s,
{
    if s.len() == 0 {
        Seq::empty()
    } else {
        array_view(s.drop_last()).push(value_view(s.last().value))
    }
}

pub open spec fn numbers_view(s: Seq<NumberSequenceElement>) -> Seq<ValueV>
    decreases s,
{
    if s.len() == 0 {
        Seq::empty()
    } else {
        numbers_view(s.drop_last()).push(value_view(s.last().value))
    }
}

pub open spec fn values_view(s: Seq<FieldValue>) -> Seq<ValueV>
    decreases s,
{
    if s.len() == 0 {
        Seq::empty()
    } else {
        values_view(s.drop_last()).push(value_view(s.last()))
    }
}

pub open spec fn element_view(e: NodeBodyElement) -> ElementV
    decreases e,
{
    match e {
        NodeBodyElement::Field(f) => ElementV::Field {
            name: f.name@,
            value: value_view(f.value),
            span: f.span,
        },
        NodeBodyElement::Template(t) => ElementV::Template(template_view(t)),
        NodeBodyElement::Raw(r) => ElementV::Raw { text: r.text@, span: r.span },
    }
}

pub open spec fn elements_view(s: Seq<NodeBodyElement>) -> Seq<ElementV>
    decreases s,
{
    if s.len() == 0 {
        Seq::empty()
    } else {
        elements_view(s.drop_last()).push(element_view(s.last()))
    }
}

pub open spec fn node_view(n: AstNode) -> NodeV
    decreases n,
{
    NodeV {
        kind: match n.kind {
            AstNodeKind::Node { node_type, def_name, fields } => NodeKindV::Node {
                node_type: node_type@,
                def_name: opt_str(def_name),
                fields: elements_view(fields@),
            },
            AstNodeKind::Use { use_name } => NodeKindV::Use { use_name: use_name@ },
        },
        span: n.span,
    }
}

pub open spec fn nodes_view(s: Seq<AstNode>) -> Seq<NodeV>
    decreases s,
{
    if s.len() == 0 {
        Seq::empty()
    } else {
        nodes_view(s.drop_last()).push(node_view(s.last()))
    }
}

pub open spec fn proto_field_view(f: ProtoField) -> ProtoFieldV {
    ProtoFieldV {
        name: f.name@,
        field_type: field_type_view(f.field_type),
        default_value: match f.default_value {
            Some(v) => Some(value_view(v)),
            None => None,
        },
        keyword: f.keyword,
        restrictions: match f.restrictions {
            Some(r) => Some(values_view(r@)),
            None => None,
        },
        span: f.span,
    }
}

pub open spec fn proto_fields_view(s: Seq<ProtoField>) -> Seq<ProtoFieldV> {
    Seq::new(s.len(), |i: int| proto_field_view(s[i]))
}

pub open spec fn body_item_view(b: ProtoBodyItem) -> BodyItemV {
    match b {
        ProtoBodyItem::Node(n) => BodyItemV::Node(node_view(n)),
        ProtoBodyItem::Template(t) => BodyItemV::Template(template_view(t)),
    }
}

pub open spec fn body_view(s: Seq<ProtoBodyItem>) -> Seq<BodyItemV> {
    Seq::new(s.len(), |i: int| body_item_view(s[i]))
}

pub open spec fn proto_def_view(p: ProtoDefinition) -> ProtoDefV {
    ProtoDefV {
        name: p.name@,
        fields: proto_fields_view(p.fields@),
        body: body_view(p.body@),
        span: p.span,
    }
}

pub open spec fn header_view(h: Header) -> HeaderV {
    HeaderV { version: h.version@, encoding: h.encoding@, raw: opt_str(h.raw), span: h.span }
}

pub open spec fn extern_view(e: ExternProto) -> ExternProtoV {
    ExternProtoV { url: e.url@, alias: opt_str(e.alias), importable: e.importable, span: e.span }
}

pub open spec fn externs_view(s: Seq<ExternProto>) -> Seq<ExternProtoV> {
    Seq::new(s.len(), |i: int| extern_view(s[i]))
}

pub open spec fn proto_view(d: Proto) -> ProtoV {
    ProtoV {
        header: match d.header {
            Some(h) => Some(header_view(h)),
            None => None,
        },
        externprotos: externs_view(d.externprotos@),
        proto: match d.proto {
            Some(p) => Some(proto_def_view(p)),
            None => None,
        },
        root_nodes: nodes_view(d.root_nodes@),
        source_path: opt_str(d.source_path),
        source_content: opt_str(d.source_content),
    }
}

impl View for FieldValue {
    type V = ValueV;

    open spec fn view(&self) -> ValueV {
        value_view(*self)
    }
}

impl View for AstNode {
    type V = NodeV;

    open spec fn view(&self) -> NodeV {
        node_view(*self)
    }
}

impl View for NodeBodyElement {
    type V = ElementV;

    open spec fn view(&self) -> ElementV {
        element_view(*self)
    }
}

impl View for TemplateBlock {
    type V = TemplateV;

    open spec fn view(&self) -> TemplateV {
        template_view(*self)
    }
}

impl View for FieldType {
    type V = FieldTypeV;

    open spec fn view(&self) -> FieldTypeV {
        field_type_view(*self)
    }
}

impl View for ProtoField {
    type V = ProtoFieldV;

    open spec fn view(&self) -> ProtoFieldV {
        proto_field_view(*self)
    }
}

impl View for ProtoDefinition {
    type V = ProtoDefV;

    open spec fn view(&self) -> ProtoDefV {
        proto_def_view(*self)
    }
}

impl View for Header {
    type V = HeaderV;

    open spec fn view(&self) -> HeaderV {
        header_view(*self)
    }
}

impl View for ExternProto {
    type V = ExternProtoV;

    open spec fn view(&self) -> ExternProtoV {
        extern_view(*self)
    }
}

impl View for Proto {
    type V = ProtoV;

    open spec fn view(&self) -> ProtoV {
        proto_view(*self)
    }
}

impl Proto {
    /// An empty document.
    pub fn new() -> (r: Proto)
        ensures
            r.header.is_none(),
            r.externprotos@.len() == 0,
            r.proto.is_none(),
            r.root_nodes@.len() == 0,
            r.source_path.is_none(),
            r.source_content.is_none(),
    {
        Proto {
            header: None,
            externprotos: Vec::new(),
            proto: None,
            root_nodes: Vec::new(),
            source_path: None,
            source_content: None,
        }
    }

    /// An otherwise empty document with the given header.
    pub fn new_with_header(header: Header) -> (r: Proto)
        ensures
            r.header == Some(header),
            r.externprotos@.len() == 0,
            r.proto.is_none(),
            r.root_nodes@.len() == 0,
            r.source_path.is_none(),
            r.source_content.is_none(),
    {
        Proto {
            header: Some(header),
            externprotos: Vec::new(),
            proto: None,
            root_nodes: Vec::new(),
            source_path: None,
            source_content: None,
        }
    }
}

impl AstNode {
    /// The default node: an empty `Group` with the zero span.
    pub fn default_group() -> (r: AstNode)
        ensures
            r@.kind == (NodeKindV::Node { node_type: seq!['G', 'r', 'o', 'u', 'p'], def_name: None, fields: Seq::empty() }),
            r.span == Span::zero_spec(),
    {
        let name = crate::text::string_from_chars(&vec!['G', 'r', 'o', 'u', 'p']);
        let fields: Vec<NodeBodyElement> = Vec::new();
        proof {
            assert(elements_view(fields@) == Seq::<ElementV>::empty());
        }
        AstNode {
            kind: AstNodeKind::Node { node_type: name, def_name: None, fields },
            span: Span::zero(),
        }
    }
}

impl Default for AstNode {
    /// An empty `Group` with the zero span.
    fn default() -> (r: AstNode)
        ensures
            r@.kind == (NodeKindV::Node { node_type: seq!['G', 'r', 'o', 'u', 'p'], def_name: None, fields: Seq::empty() }),
            r.span == Span::zero_spec(),
    {
        AstNode::default_group()
    }
}

impl From<AstNode> for FieldValue {
    /// A node as a field value.
    fn from(node: AstNode) -> (r: FieldValue) {
        FieldValue::Node(Box::new(node))
    }
}

impl vstd::std_specs::convert::FromSpecImpl<AstNode> for FieldValue {
    open spec fn obeys_from_spec() -> bool {
        true
    }

    open spec fn from_spec(node: AstNode) -> FieldValue {
        FieldValue::Node(Box::new(node))
    }
}

impl Span {
    pub open spec fn zero_spec() -> Span {
        Span { start: 0, end: 0, start_line: 0, start_col: 0, end_line: 0, end_col: 0 }
    }
}

/// The model of an array's elements, element by element.
pub proof fn lemma_array_view(s: Seq<ArrayElement>)
    ensures
        array_view(s).len() == s.len(),
        forall|i: int| 0 <= i < s.len() ==> #[trigger] array_view(s)[i] == value_view(s[i].value),
    decreases s.len(),
{
    if s.len() > 0 {
        lemma_array_view(s.drop_last());
        assert forall|i: int| 0 <= i < s.len() implies #[trigger] array_view(s)[i] == value_view(s[i].value) by {
            if i < s.len() - 1 {
                assert(s.drop_last()[i] == s[i]);
            }
        }
    }
}

/// The model of a number sequence's elements, element by element.
pub proof fn lemma_numbers_view(s: Seq<NumberSequenceElement>)
    ensures
        numbers_view(s).len() == s.len(),
        forall|i: int| 0 <= i < s.len() ==> #[trigger] numbers_view(s)[i] == value_view(s[i].value),
    decreases s.len(),
{
    if s.len() > 0 {
        lemma_numbers_view(s.drop_last());
        assert forall|i: int| 0 <= i < s.len() implies #[trigger] numbers_view(s)[i] == value_view(s[i].value) by {
            if i < s.len() - 1 {
                assert(s.drop_last()[i] == s[i]);
            }
        }
    }
}

/// The model of a list of values, value by value.
pub proof fn lemma_values_view(s: Seq<FieldValue>)
    ensures
        values_view(s).len() == s.len(),
        forall|i: int| 0 <= i < s.len() ==> #[trigger] values_view(s)[i] == value_view(s[i]),
    decreases s.len(),
{
    if s.len() > 0 {
        lemma_values_view(s.drop_last());
        assert forall|i: int| 0 <= i < s.len() implies #[trigger] values_view(s)[i] == value_view(s[i]) by {
            if i < s.len() - 1 {
                assert(s.drop_last()[i] == s[i]);
            }
        }
    }
}

/// The model of a node body, element by element.
pub proof fn lemma_elements_view(s: Seq<NodeBodyElement>)
    ensures
        elements_view(s).len() == s.len(),
        forall|i: int| 0 <= i < s.len() ==> #[trigger] elements_view(s)[i] == element_view(s[i]),
    decreases s.len(),
{
    if s.len() > 0 {
        lemma_elements_view(s.drop_last());
        assert forall|i: int| 0 <= i < s.len() implies #[trigger] elements_view(s)[i] == element_view(s[i]) by {
            if i < s.len() - 1 {
                assert(s.drop_last()[i] == s[i]);
            }
        }
    }
}

/// The model of a list of nodes, node by node.
pub proof fn lemma_nodes_view(s: Seq<AstNode>)
    ensures
        nodes_view(s).len() == s.len(),
        forall|i: int| 0 <= i < s.len() ==> #[trigger] nodes_view(s)[i] == node_view(s[i]),
    decreases s.len(),
{
    if s.len() > 0 {
        lemma_nodes_view(s.drop_last());
        assert forall|i: int| 0 <= i < s.len() implies #[trigger] nodes_view(s)[i] == node_view(s[i]) by {
            if i < s.len() - 1 {
                assert(s.drop_last()[i] == s[i]);
            }
        }
    }
}

} // verus!
