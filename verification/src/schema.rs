//! Node schemas: the fields a built-in Webots node has, and their types.
use crate::ast::{FieldType, FieldTypeV};
use crate::builtin_nodes::{fields_robot_spec, raw_fields_view, raw_schema, raw_schema_of, RawField};
use vstd::prelude::*;

verus! {

/// A field of a node schema.
#[derive(Debug)]
pub struct SchemaField {
    pub name: String,
    pub field_type: FieldType,
}

/// The schema of a node type: its name and its fields.
#[derive(Debug)]
pub struct NodeSchema {
    pub name: String,
    pub fields: Vec<SchemaField>,
}

/// The model of a schema's fields: each field's name and type.
pub open spec fn schema_fields_view(v: Seq<SchemaField>) -> Seq<RawField> {
    Seq::new(v.len(), |i: int| (v[i].name@, v[i].field_type@))
}

/// The type of the first field named `name`, if any.
pub open spec fn find_field(fs: Seq<RawField>, name: Seq<char>) -> Option<FieldTypeV>
    decreases fs.len(),
{
    if fs.len() == 0 {
        None
    } else if fs[0].0 == name {
        Some(fs[0].1)
    } else {
        find_field(fs.drop_first(), name)
    }
}

/// A copy of a field type.
pub fn clone_field_type(t: &FieldType) -> (r: FieldType)
    ensures
        r@ == t@,
{
    match t {
        FieldType::SFBool => FieldType::SFBool,
        FieldType::SFInt32 => FieldType::SFInt32,
        FieldType::SFFloat => FieldType::SFFloat,
        FieldType::SFString => FieldType::SFString,
        FieldType::SFVec2f => FieldType::SFVec2f,
        FieldType::SFVec3f => FieldType::SFVec3f,
        FieldType::SFRotation => FieldType::SFRotation,
        FieldType::SFColor => FieldType::SFColor,
        FieldType::SFNode => FieldType::SFNode,
        FieldType::MFBool => FieldType::MFBool,
        FieldType::MFInt32 => FieldType::MFInt32,
        FieldType::MFFloat => FieldType::MFFloat,
        FieldType::MFString => FieldType::MFString,
        FieldType::MFVec2f => FieldType::MFVec2f,
        FieldType::MFVec3f => FieldType::MFVec3f,
        FieldType::MFRotation => FieldType::MFRotation,
        FieldType::MFColor => FieldType::MFColor,
        FieldType::MFNode => FieldType::MFNode,
        FieldType::Unknown(s) => FieldType::Unknown(s.clone()),
    }
}

/// True when `a` holds the text `b`.
pub fn text_eq(a: &String, b: &str) -> (r: bool)
    ensures
        r == (a@ == b@),
{
    a.eq(&String::from_str(b))
}

impl NodeSchema {
    /// The type of the field named `name`, if the schema has one.
    pub fn get_field_type(&self, name: &str) -> (r: Option<FieldType>)
        ensures
            match r {
                Some(t) => find_field(schema_fields_view(self.fields@), name@) == Some(t@),
                None => find_field(schema_fields_view(self.fields@), name@) is None,
            },
    {
        let ghost all = schema_fields_view(self.fields@);
        let mut i: usize = 0;
        proof {
            assert(all.skip(0) =~= all);
        }
        while i < self.fields.len()
            invariant
                i <= self.fields@.len(),
                all == schema_fields_view(self.fields@),
                find_field(all, name@) == find_field(all.skip(i as int), name@),
            decreases self.fields@.len() - i,
        {
            proof {
                assert(all.skip(i as int)[0] == all[i as int]);
                assert(all.skip(i as int).drop_first() =~= all.skip(i + 1));
            }
            if text_eq(&self.fields[i].name, name) {
                return Some(clone_field_type(&self.fields[i].field_type));
            }
            i = i + 1;
        }
        None
    }
}

/// A node type of a release: its name and its fields with their types.
pub trait WebotsNode {
    /// The name of the node type.
    fn node_name() -> &'static str;

    /// The fields of the node type, with their types.
    fn all_fields() -> &'static [(&'static str, FieldType)];
}

/// What `char::to_uppercase` yields for a character.
pub uninterp spec fn uppercase(c: char) -> Seq<char>;

/// The characters of `char::to_uppercase`: the Unicode uppercase mapping, which for
/// an ASCII character is its ASCII uppercase.
#[verifier::external_body]
fn char_to_uppercase(c: char) -> (r: Vec<char>)
    ensures
        r@ == uppercase(c),
        ('a' <= c && c <= 'z') ==> r@ == seq![((c as u32) - 32) as char],
        (c as u32) < 128 && !('a' <= c && c <= 'z') ==> r@ == seq![c],
{
    c.to_uppercase().collect()
}

/// What `char::to_uppercase` yields: for an ASCII character its ASCII uppercase (a
/// lowercase letter moves to its capital, every other ASCII character stays), and
/// beyond ASCII the Unicode mapping.
pub open spec fn upper_chars(c: char) -> Seq<char> {
    if (c as u32) < 128 {
        if 'a' <= c && c <= 'z' {
            seq![((c as u32) - 32) as char]
        } else {
            seq![c]
        }
    } else {
        uppercase(c)
    }
}

/// The camel-case conversion of the characters of `s`: each `_` dropped and the
/// character after it uppercased; and whether the last character was a `_`.
pub open spec fn camel_step(s: Seq<char>) -> (Seq<char>, bool)
    decreases s.len(),
{
    if s.len() == 0 {
        (Seq::empty(), false)
    } else {
        let (out, cap) = camel_step(s.drop_last());
        let c = s.last();
        if c == '_' {
            (out, true)
        } else if cap {
            (out + upper_chars(c), false)
        } else {
            (out.push(c), false)
        }
    }
}

/// True when every character of `s` is ASCII.
pub open spec fn is_ascii_text(s: Seq<char>) -> bool {
    forall|k: int| 0 <= k < s.len() ==> (#[trigger] s[k] as u32) < 128
}

/// The number of `_` in `s`.
pub open spec fn underscore_count(s: Seq<char>) -> nat
    decreases s.len(),
{
    if s.len() == 0 {
        0
    } else {
        underscore_count(s.drop_last()) + if s.last() == '_' {
            1nat
        } else {
            0nat
        }
    }
}

proof fn lemma_underscore_count(s: Seq<char>)
    ensures
        (underscore_count(s) == 0) == !s.contains('_'),
    decreases s.len(),
{
    if s.len() > 0 {
        lemma_underscore_count(s.drop_last());
        if s.drop_last().contains('_') {
            let k = choose|k: int| 0 <= k < s.drop_last().len() && s.drop_last()[k] == '_';
            assert(s[k] == '_');
        }
        if s.contains('_') && s.last() != '_' {
            let k = choose|k: int| 0 <= k < s.len() && s[k] == '_';
            assert(s.drop_last()[k] == '_');
        }
    }
}

proof fn lemma_camel_step_ascii(s: Seq<char>)
    requires
        is_ascii_text(s),
    ensures
        !camel_step(s).0.contains('_'),
        camel_step(s).0.len() == s.len() - underscore_count(s),
    decreases s.len(),
{
    if s.len() > 0 {
        assert(is_ascii_text(s.drop_last())) by {
            assert forall|k: int| 0 <= k < s.drop_last().len() implies (#[trigger] s.drop_last()[k] as u32) < 128 by {
                assert(s.drop_last()[k] == s[k]);
            }
        }
        lemma_camel_step_ascii(s.drop_last());
        let (out, cap) = camel_step(s.drop_last());
        let c = s.last();
        assert((c as u32) < 128);
        if c != '_' {
            let x = if cap { upper_chars(c) } else { seq![c] };
            assert(x.len() == 1);
            assert(x[0] != '_');
            assert(camel_step(s).0 =~= out + x);
            assert forall|k: int| 0 <= k < (out + x).len() implies (out + x)[k] != '_' by {
                if k < out.len() {
                    assert((out + x)[k] == out[k]);
                }
            }
        }
    }
}

/// The ASCII lowercase of a character: a capital letter moves to its small letter,
/// every other character stays.
pub open spec fn ascii_lower(c: char) -> char {
    if 'A' <= c && c <= 'Z' {
        ((c as u32) + 32) as char
    } else {
        c
    }
}

/// `s` in ASCII lowercase.
pub open spec fn lower_text(s: Seq<char>) -> Seq<char>
    decreases s.len(),
{
    if s.len() == 0 {
        Seq::empty()
    } else {
        lower_text(s.drop_last()).push(ascii_lower(s.last()))
    }
}

/// `s` with every `_` left out.
pub open spec fn without_underscores(s: Seq<char>) -> Seq<char>
    decreases s.len(),
{
    if s.len() == 0 {
        Seq::empty()
    } else if s.last() == '_' {
        without_underscores(s.drop_last())
    } else {
        without_underscores(s.drop_last()).push(s.last())
    }
}

proof fn lemma_lower_text_append(a: Seq<char>, b: Seq<char>)
    ensures
        lower_text(a + b) == lower_text(a) + lower_text(b),
    decreases b.len(),
{
    if b.len() == 0 {
        assert(a + b =~= a);
        assert(lower_text(a) + lower_text(b) =~= lower_text(a));
    } else {
        lemma_lower_text_append(a, b.drop_last());
        assert((a + b).drop_last() =~= a + b.drop_last());
        assert(lower_text(a + b) =~= lower_text(a) + lower_text(b));
    }
}

proof fn lemma_lower_upper(c: char)
    requires
        (c as u32) < 128,
    ensures
        lower_text(upper_chars(c)) == seq![ascii_lower(c)],
{
    let u = upper_chars(c);
    assert(u.len() == 1);
    assert(u.drop_last() =~= Seq::<char>::empty());
    assert(lower_text(u.drop_last()) == Seq::<char>::empty());
    assert(u.last() == u[0]);
    assert(lower_text(u) =~= seq![ascii_lower(u[0])]);
    if 'a' <= c && c <= 'z' {
        assert(ascii_lower(u[0]) == c);
    }
}

proof fn lemma_camel_step_lower(s: Seq<char>)
    requires
        is_ascii_text(s),
    ensures
        lower_text(camel_step(s).0) == lower_text(without_underscores(s)),
    decreases s.len(),
{
    if s.len() > 0 {
        assert(is_ascii_text(s.drop_last())) by {
            assert forall|k: int| 0 <= k < s.drop_last().len() implies (#[trigger] s.drop_last()[k] as u32) < 128 by {
                assert(s.drop_last()[k] == s[k]);
            }
        }
        lemma_camel_step_lower(s.drop_last());
        let (out, cap) = camel_step(s.drop_last());
        let w = without_underscores(s.drop_last());
        let c = s.last();
        assert((c as u32) < 128);
        if c != '_' {
            assert(without_underscores(s) == w.push(c));
            assert(w.push(c).drop_last() =~= w);
            assert(lower_text(w.push(c)) == lower_text(w).push(ascii_lower(c)));
            if cap {
                lemma_lower_text_append(out, upper_chars(c));
                lemma_lower_upper(c);
                assert(lower_text(out) + seq![ascii_lower(c)] =~= lower_text(out).push(ascii_lower(c)));
            } else {
                assert(out.push(c).drop_last() =~= out);
            }
        }
    }
}

proof fn lemma_without_no_underscore(s: Seq<char>)
    requires
        !s.contains('_'),
    ensures
        without_underscores(s) == s,
    decreases s.len(),
{
    if s.len() > 0 {
        assert(!s.drop_last().contains('_')) by {
            if s.drop_last().contains('_') {
                let k = choose|k: int| 0 <= k < s.drop_last().len() && s.drop_last()[k] == '_';
                assert(s[k] == '_');
            }
        }
        lemma_without_no_underscore(s.drop_last());
        assert(s.last() != '_');
        assert(s.drop_last().push(s.last()) =~= s);
    }
}

/// Up to ASCII case, the PROTO name of an ASCII field identifier is the identifier
/// with its `_` left out.
pub proof fn lemma_camel_name_lowercase(s: Seq<char>)
    requires
        is_ascii_text(s),
    ensures
        lower_text(camel_name(s)) == lower_text(without_underscores(s)),
{
    if s.contains('_') {
        lemma_camel_step_lower(s);
    } else {
        lemma_without_no_underscore(s);
    }
}

/// Camel case of ASCII names: the PROTO name of an ASCII field identifier holds no
/// `_`, is one character shorter for each `_` of the identifier, is the identifier
/// itself when that has no `_`, and stays as it is when converted again.
pub proof fn lemma_camel_name_ascii(s: Seq<char>)
    requires
        is_ascii_text(s),
    ensures
        !camel_name(s).contains('_'),
        camel_name(s).len() == s.len() - underscore_count(s),
        !s.contains('_') ==> camel_name(s) == s,
        camel_name(camel_name(s)) == camel_name(s),
{
    lemma_underscore_count(s);
    lemma_camel_step_ascii(s);
}

/// The PROTO names of `controller_args` and `custom_data` are `controllerArgs` and
/// `customData`.
pub proof fn lemma_robot_field_names()
    ensures
        camel_name("controller_args"@) == "controllerArgs"@,
        camel_name("custom_data"@) == "customData"@,
{
    reveal_strlit("controller_args");
    reveal_strlit("controllerArgs");
    reveal_strlit("custom_data");
    reveal_strlit("customData");
    reveal_with_fuel(camel_step, 16);
    assert("controller_args"@[10] == '_');
    assert("custom_data"@[6] == '_');
    assert(camel_step("controller_args"@).0 =~= "controllerArgs"@);
    assert(camel_step("custom_data"@).0 =~= "customData"@);
}

/// The name a declared field has in PROTO text: a snake-case name in camel case.
pub open spec fn camel_name(s: Seq<char>) -> Seq<char> {
    if !s.contains('_') {
        s
    } else {
        camel_step(s).0
    }
}

/// Converts a snake-case field identifier to the camel-case name used in PROTO text.
pub fn to_webots_field_name(name: &str) -> (r: String)
    ensures
        r@ == camel_name(name@),
{
    let cs = crate::text::chars_of(name);
    let mut has_underscore = false;
    let mut k: usize = 0;
    while k < cs.len()
        invariant
            k <= cs@.len(),
            cs@ == name@,
            has_underscore == exists|j: int| 0 <= j < k && cs@[j] == '_',
        decreases cs@.len() - k,
    {
        if cs[k] == '_' {
            has_underscore = true;
        }
        k = k + 1;
    }
    if !has_underscore {
        proof {
            assert(!name@.contains('_'));
        }
        return String::from_str(name);
    }
    let mut out: Vec<char> = Vec::new();
    let mut cap = false;
    let mut i: usize = 0;
    proof {
        assert(cs@.take(0) =~= Seq::<char>::empty());
    }
    while i < cs.len()
        invariant
            i <= cs@.len(),
            cs@ == name@,
            (out@, cap) == camel_step(cs@.take(i as int)),
        decreases cs@.len() - i,
    {
        let c = cs[i];
        proof {
            assert(cs@.take(i + 1).drop_last() =~= cs@.take(i as int));
            assert(cs@.take(i + 1).last() == c);
        }
        if c == '_' {
            cap = true;
        } else if cap {
            let up = char_to_uppercase(c);
            assert(up@ == upper_chars(c));
            let ghost before = out@;
            let mut j: usize = 0;
            while j < up.len()
                invariant
                    j <= up@.len(),
                    out@ == before + up@.take(j as int),
                decreases up@.len() - j,
            {
                out.push(up[j]);
                j = j + 1;
                proof {
                    assert(out@ =~= before + up@.take(j as int));
                }
            }
            proof {
                assert(up@.take(j as int) =~= up@);
            }
            cap = false;
        } else {
            out.push(c);
        }
        i = i + 1;
    }
    proof {
        assert(cs@.take(i as int) =~= cs@);
        assert(name@.contains('_'));
    }
    crate::text::string_from_chars(&out)
}

/// The fields of a declaration under their PROTO names.
pub open spec fn proto_named(fs: Seq<RawField>) -> Seq<RawField> {
    Seq::new(fs.len(), |i: int| (camel_name(fs[i].0), fs[i].1))
}

/// The schema of a built-in node type: its declared fields under their PROTO names.
pub open spec fn builtin_schema(name: Seq<char>) -> Option<Seq<RawField>> {
    match raw_schema(name) {
        Some(fs) => Some(proto_named(fs)),
        None => None,
    }
}

/// The Robot schema knows `controllerArgs` as an MFString field and `customData` as an
/// SFString field, the PROTO names of its declared `controller_args` and `custom_data`.
pub proof fn lemma_robot_schema()
    ensures
        builtin_schema("Robot"@) matches Some(fs) && fs.len() > 17 && fs[16] == ("controllerArgs"@,
            FieldTypeV::MFString) && fs[17] == ("customData"@, FieldTypeV::SFString),
{
    reveal_strlit("WorldInfo");
    reveal_strlit("Viewpoint");
    reveal_strlit("Group");
    reveal_strlit("Pose");
    reveal_strlit("Transform");
    reveal_strlit("Billboard");
    reveal_strlit("Shape");
    reveal_strlit("Appearance");
    reveal_strlit("PBRAppearance");
    reveal_strlit("Material");
    reveal_strlit("ImageTexture");
    reveal_strlit("TextureTransform");
    reveal_strlit("Box");
    reveal_strlit("Sphere");
    reveal_strlit("Capsule");
    reveal_strlit("Cylinder");
    reveal_strlit("Plane");
    reveal_strlit("Cone");
    reveal_strlit("ElevationGrid");
    reveal_strlit("IndexedFaceSet");
    reveal_strlit("IndexedLineSet");
    reveal_strlit("PointSet");
    reveal_strlit("Mesh");
    reveal_strlit("CadShape");
    reveal_strlit("Robot");
    assert("Robot"@ != "WorldInfo"@) by { assert("Robot"@[0] != "WorldInfo"@[0] || "Robot"@.len() != "WorldInfo"@.len()); }
    assert("Robot"@ != "Viewpoint"@) by { assert("Robot"@[0] != "Viewpoint"@[0] || "Robot"@.len() != "Viewpoint"@.len()); }
    assert("Robot"@ != "Group"@) by { assert("Robot"@[0] != "Group"@[0] || "Robot"@.len() != "Group"@.len()); }
    assert("Robot"@ != "Pose"@) by { assert("Robot"@[0] != "Pose"@[0] || "Robot"@.len() != "Pose"@.len()); }
    assert("Robot"@ != "Transform"@) by { assert("Robot"@[0] != "Transform"@[0] || "Robot"@.len() != "Transform"@.len()); }
    assert("Robot"@ != "Billboard"@) by { assert("Robot"@[0] != "Billboard"@[0] || "Robot"@.len() != "Billboard"@.len()); }
    assert("Robot"@ != "Shape"@) by { assert("Robot"@[0] != "Shape"@[0] || "Robot"@.len() != "Shape"@.len()); }
    assert("Robot"@ != "Appearance"@) by { assert("Robot"@[0] != "Appearance"@[0] || "Robot"@.len() != "Appearance"@.len()); }
    assert("Robot"@ != "PBRAppearance"@) by { assert("Robot"@[0] != "PBRAppearance"@[0] || "Robot"@.len() != "PBRAppearance"@.len()); }
    assert("Robot"@ != "Material"@) by { assert("Robot"@[0] != "Material"@[0] || "Robot"@.len() != "Material"@.len()); }
    assert("Robot"@ != "ImageTexture"@) by { assert("Robot"@[0] != "ImageTexture"@[0] || "Robot"@.len() != "ImageTexture"@.len()); }
    assert("Robot"@ != "TextureTransform"@) by { assert("Robot"@[0] != "TextureTransform"@[0] || "Robot"@.len() != "TextureTransform"@.len()); }
    assert("Robot"@ != "Box"@) by { assert("Robot"@[0] != "Box"@[0] || "Robot"@.len() != "Box"@.len()); }
    assert("Robot"@ != "Sphere"@) by { assert("Robot"@[0] != "Sphere"@[0] || "Robot"@.len() != "Sphere"@.len()); }
    assert("Robot"@ != "Capsule"@) by { assert("Robot"@[0] != "Capsule"@[0] || "Robot"@.len() != "Capsule"@.len()); }
    assert("Robot"@ != "Cylinder"@) by { assert("Robot"@[0] != "Cylinder"@[0] || "Robot"@.len() != "Cylinder"@.len()); }
    assert("Robot"@ != "Plane"@) by { assert("Robot"@[0] != "Plane"@[0] || "Robot"@.len() != "Plane"@.len()); }
    assert("Robot"@ != "Cone"@) by { assert("Robot"@[0] != "Cone"@[0] || "Robot"@.len() != "Cone"@.len()); }
    assert("Robot"@ != "ElevationGrid"@) by { assert("Robot"@[0] != "ElevationGrid"@[0] || "Robot"@.len() != "ElevationGrid"@.len()); }
    assert("Robot"@ != "IndexedFaceSet"@) by { assert("Robot"@[0] != "IndexedFaceSet"@[0] || "Robot"@.len() != "IndexedFaceSet"@.len()); }
    assert("Robot"@ != "IndexedLineSet"@) by { assert("Robot"@[0] != "IndexedLineSet"@[0] || "Robot"@.len() != "IndexedLineSet"@.len()); }
    assert("Robot"@ != "PointSet"@) by { assert("Robot"@[0] != "PointSet"@[0] || "Robot"@.len() != "PointSet"@.len()); }
    assert("Robot"@ != "Mesh"@) by { assert("Robot"@[0] != "Mesh"@[0] || "Robot"@.len() != "Mesh"@.len()); }
    assert("Robot"@ != "CadShape"@) by { assert("Robot"@[0] != "CadShape"@[0] || "Robot"@.len() != "CadShape"@.len()); }
    assert(raw_schema("Robot"@) == Some(fields_robot_spec()));
    lemma_robot_field_names();
}

/// The schema of the built-in node type `node_type`, if it is one.
pub fn get_builtin_schema(node_type: &str) -> (r: Option<NodeSchema>)
    ensures
        match r {
            Some(s) => builtin_schema(node_type@) == Some(schema_fields_view(s.fields@)) && s.name@
                == node_type@,
            None => builtin_schema(node_type@) is None,
        },
{
    match raw_schema_of(node_type) {
        None => None,
        Some(raw) => Some(schema(node_type, &raw)),
    }
}

/// Builds a schema from a node's declared fields.
pub fn schema(name: &str, raw: &Vec<(String, FieldType)>) -> (r: NodeSchema)
    ensures
        r.name@ == name@,
        schema_fields_view(r.fields@) == proto_named(raw_fields_view(raw@)),
{
    let ghost rv = raw_fields_view(raw@);
    let mut fields: Vec<SchemaField> = Vec::new();
    let mut i: usize = 0;
    while i < raw.len()
        invariant
            i <= raw@.len(),
            rv == raw_fields_view(raw@),
            fields@.len() == i,
            schema_fields_view(fields@) == proto_named(rv.take(i as int)),
        decreases raw@.len() - i,
    {
        let n = to_webots_field_name(raw[i].0.as_str());
        let t = clone_field_type(&raw[i].1);
        let ghost before = fields@;
        fields.push(SchemaField { name: n, field_type: t });
        proof {
            assert(rv[i as int] == (raw@[i as int].0@, raw@[i as int].1@));
            assert(fields@.drop_last() =~= before);
            assert(fields@.len() == i + 1);
            assert forall|k: int| 0 <= k < i implies #[trigger] schema_fields_view(fields@)[k]
                == schema_fields_view(before)[k] by {
                assert(fields@.drop_last()[k] == fields@[k]);
            }
            assert(proto_named(rv.take(i as int)).len() == i);
            assert forall|k: int| 0 <= k < i implies #[trigger] proto_named(rv.take(i + 1))[k]
                == proto_named(rv.take(i as int))[k] by {
                assert(rv.take(i + 1)[k] == rv.take(i as int)[k]);
            }
            assert(schema_fields_view(fields@) =~= proto_named(rv.take(i + 1)));
        }
        i = i + 1;
    }
    proof {
        assert(rv.take(i as int) =~= rv);
    }
    NodeSchema { name: String::from_str(name), fields }
}

} // verus!
