//! Constructors and `with_` setters of the syntax tree's types.
use crate::ast::{
    ArrayElement, ArrayValue, AstNode, AstNodeKind, ExternProto, FieldKeyword, FieldType,
    FieldValue, Header, NodeField, NumberSequence, NumberSequenceElement, Proto, ProtoBodyItem,
    ProtoDefinition, ProtoField, RawSyntax, Span, TemplateBlock,
};
use vstd::prelude::*;

verus! {

impl Header {
    /// A header with these fields.
    pub fn new(version: String, encoding: String, raw: Option<String>, span: Span) -> (r: Header)
        ensures
            r == (Header { version, encoding, raw, span }),
    {
        Header { version, encoding, raw, span }
    }
}

impl ExternProto {
    /// A plain (not `IMPORTABLE`) declaration.
    pub fn new(url: String, alias: Option<String>, span: Span) -> (r: ExternProto)
        ensures
            r == (ExternProto { url, alias, importable: false, span }),
    {
        ExternProto { url, alias, importable: false, span }
    }

    /// The declaration with its `IMPORTABLE` flag set to `importable`.
    pub fn with_importable(self, importable: bool) -> (r: ExternProto)
        ensures
            r == (ExternProto { url: self.url, alias: self.alias, importable, span: self.span }),
    {
        ExternProto { url: self.url, alias: self.alias, importable, span: self.span }
    }
}

impl ProtoDefinition {
    /// A definition with no interface fields and an empty body.
    pub fn new(name: String, span: Span) -> (r: ProtoDefinition)
        ensures
            r.name == name,
            r.fields@.len() == 0,
            r.body@.len() == 0,
            r.span == span,
    {
        ProtoDefinition { name, fields: Vec::new(), body: Vec::new(), span }
    }

    /// The definition with these interface fields.
    pub fn with_fields(self, fields: Vec<ProtoField>) -> (r: ProtoDefinition)
        ensures
            r == (ProtoDefinition { name: self.name, fields, body: self.body, span: self.span }),
    {
        ProtoDefinition { name: self.name, fields, body: self.body, span: self.span }
    }

    /// The definition with this body.
    pub fn with_body(self, body: Vec<ProtoBodyItem>) -> (r: ProtoDefinition)
        ensures
            r == (ProtoDefinition { name: self.name, fields: self.fields, body, span: self.span }),
    {
        ProtoDefinition { name: self.name, fields: self.fields, body, span: self.span }
    }
}

impl ProtoField {
    /// A field declaration with no default value and no restrictions.
    pub fn new(name: String, field_type: FieldType, keyword: FieldKeyword, span: Span) -> (r:
        ProtoField)
        ensures
            r == (ProtoField {
                name,
                field_type,
                default_value: None,
                keyword,
                restrictions: None,
                span,
            }),
    {
        ProtoField { name, field_type, default_value: None, keyword, restrictions: None, span }
    }

    /// The declaration with this default value.
    pub fn with_default_value(self, value: FieldValue) -> (r: ProtoField)
        ensures
            r == (ProtoField {
                name: self.name,
                field_type: self.field_type,
                default_value: Some(value),
                keyword: self.keyword,
                restrictions: self.restrictions,
                span: self.span,
            }),
    {
        ProtoField {
            name: self.name,
            field_type: self.field_type,
            default_value: Some(value),
            keyword: self.keyword,
            restrictions: self.restrictions,
            span: self.span,
        }
    }

    /// The declaration with these allowed values.
    pub fn with_restrictions(self, values: Vec<FieldValue>) -> (r: ProtoField)
        ensures
            r == (ProtoField {
                name: self.name,
                field_type: self.field_type,
                default_value: self.default_value,
                keyword: self.keyword,
                restrictions: Some(values),
                span: self.span,
            }),
    {
        ProtoField {
            name: self.name,
            field_type: self.field_type,
            default_value: self.default_value,
            keyword: self.keyword,
            restrictions: Some(values),
            span: self.span,
        }
    }
}

impl TemplateBlock {
    /// A template block with these fields.
    pub fn new(content: String, is_expression: bool, span: Span) -> (r: TemplateBlock)
        ensures
            r == (TemplateBlock { content, is_expression, span }),
    {
        TemplateBlock { content, is_expression, span }
    }
}

impl AstNode {
    /// A node of this shape.
    pub fn new(kind: AstNodeKind, span: Span) -> (r: AstNode)
        ensures
            r == (AstNode { kind, span }),
    {
        AstNode { kind, span }
    }
}

impl RawSyntax {
    /// Verbatim text at this span.
    pub fn new(text: String, span: Span) -> (r: RawSyntax)
        ensures
            r == (RawSyntax { text, span }),
    {
        RawSyntax { text, span }
    }
}

impl NodeField {
    /// A field assignment.
    pub fn new(name: String, value: FieldValue, span: Span) -> (r: NodeField)
        ensures
            r == (NodeField { name, value, span }),
    {
        NodeField { name, value, span }
    }
}

impl ArrayValue {
    /// An empty array.
    pub fn new() -> (r: ArrayValue)
        ensures
            r.elements@.len() == 0,
    {
        ArrayValue { elements: Vec::new() }
    }

    /// The array with these elements.
    pub fn with_elements(self, elements: Vec<ArrayElement>) -> (r: ArrayValue)
        ensures
            r == (ArrayValue { elements }),
    {
        ArrayValue { elements }
    }
}

impl ArrayElement {
    /// An array element holding this value.
    pub fn new(value: FieldValue) -> (r: ArrayElement)
        ensures
            r == (ArrayElement { value }),
    {
        ArrayElement { value }
    }
}

impl NumberSequence {
    /// An empty number sequence.
    pub fn new() -> (r: NumberSequence)
        ensures
            r.elements@.len() == 0,
    {
        NumberSequence { elements: Vec::new() }
    }

    /// The sequence with these elements.
    pub fn with_elements(self, elements: Vec<NumberSequenceElement>) -> (r: NumberSequence)
        ensures
            r == (NumberSequence { elements }),
    {
        NumberSequence { elements }
    }
}

impl NumberSequenceElement {
    /// A number sequence element holding this value.
    pub fn new(value: FieldValue) -> (r: NumberSequenceElement)
        ensures
            r == (NumberSequenceElement { value }),
    {
        NumberSequenceElement { value }
    }
}

impl Proto {
    /// The document with this header.
    pub fn with_header(self, header: Header) -> (r: Proto)
        ensures
            r == (Proto {
                header: Some(header),
                externprotos: self.externprotos,
                proto: self.proto,
                root_nodes: self.root_nodes,
                source_path: self.source_path,
                source_content: self.source_content,
            }),
    {
        Proto {
            header: Some(header),
            externprotos: self.externprotos,
            proto: self.proto,
            root_nodes: self.root_nodes,
            source_path: self.source_path,
            source_content: self.source_content,
        }
    }

    /// The document with these EXTERNPROTO declarations.
    pub fn with_externprotos(self, externprotos: Vec<ExternProto>) -> (r: Proto)
        ensures
            r == (Proto {
                header: self.header,
                externprotos,
                proto: self.proto,
                root_nodes: self.root_nodes,
                source_path: self.source_path,
                source_content: self.source_content,
            }),
    {
        Proto {
            header: self.header,
            externprotos,
            proto: self.proto,
            root_nodes: self.root_nodes,
            source_path: self.source_path,
            source_content: self.source_content,
        }
    }

    /// The document with this PROTO definition.
    pub fn with_proto(self, proto: ProtoDefinition) -> (r: Proto)
        ensures
            r == (Proto {
                header: self.header,
                externprotos: self.externprotos,
                proto: Some(proto),
                root_nodes: self.root_nodes,
                source_path: self.source_path,
                source_content: self.source_content,
            }),
    {
        Proto {
            header: self.header,
            externprotos: self.externprotos,
            proto: Some(proto),
            root_nodes: self.root_nodes,
            source_path: self.source_path,
            source_content: self.source_content,
        }
    }

    /// The document with these root nodes.
    pub fn with_root_nodes(self, root_nodes: Vec<AstNode>) -> (r: Proto)
        ensures
            r == (Proto {
                header: self.header,
                externprotos: self.externprotos,
                proto: self.proto,
                root_nodes,
                source_path: self.source_path,
                source_content: self.source_content,
            }),
    {
        Proto {
            header: self.header,
            externprotos: self.externprotos,
            proto: self.proto,
            root_nodes,
            source_path: self.source_path,
            source_content: self.source_content,
        }
    }
}

} // verus!
