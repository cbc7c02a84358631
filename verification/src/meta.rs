use vstd::prelude::*;

verus! {

/// `Clone::clone` for `std::ops::Range`, which `derive(Clone)` calls for the
/// range of a `Meta`; nothing is claimed of the copy.
pub assume_specification<Idx: Clone>[ <std::ops::Range<Idx> as Clone>::clone ](
    r: &std::ops::Range<Idx>,
) -> std::ops::Range<Idx>;

/// Where a node of the program comes from, and the attributes written on it.
#[derive(Debug, Clone)]
pub struct Meta {
    pub filename: String,
    pub range: std::ops::Range<usize>,
    pub attributes: Vec<Attribute>,
}

/// An argument of an attribute, as a value.
pub enum AttributeArgV {
    Literal(Seq<char>),
    KeyValue(Seq<char>, Seq<char>),
    Variable(Seq<char>),
}

/// An attribute, as a value: its name and its arguments.
pub struct AttributeV {
    pub name: Seq<char>,
    pub args: Seq<AttributeArgV>,
}

/// The value of an argument of an attribute.
pub open spec fn arg_view(a: AttributeArg) -> AttributeArgV {
    match a {
        AttributeArg::Literal(s) => AttributeArgV::Literal(s@),
        AttributeArg::KeyValue(k, v) => AttributeArgV::KeyValue(k@, v@),
        AttributeArg::Variable(s) => AttributeArgV::Variable(s@),
    }
}

/// The value of an attribute.
pub open spec fn attribute_view(a: Attribute) -> AttributeV {
    AttributeV { name: a.name@, args: a.args@.map_values(|x: AttributeArg| arg_view(x)) }
}

/// The values of a list of attributes.
pub open spec fn attributes_view(attrs: Seq<Attribute>) -> Seq<AttributeV> {
    attrs.map_values(|a: Attribute| attribute_view(a))
}

/// Two metas are equal as values: the same file, the same range and the
/// same attributes.
pub open spec fn same_meta(a: Meta, b: Meta) -> bool {
    &&& a.filename@ == b.filename@
    &&& a.range == b.range
    &&& attributes_view(a.attributes@) == attributes_view(b.attributes@)
}

impl AttributeArg {
    /// A copy of the argument.
    pub fn copy(&self) -> (r: AttributeArg)
        ensures
            arg_view(r) == arg_view(*self),
    {
        match self {
            AttributeArg::Literal(s) => AttributeArg::Literal(s.clone()),
            AttributeArg::KeyValue(k, v) => AttributeArg::KeyValue(k.clone(), v.clone()),
            AttributeArg::Variable(s) => AttributeArg::Variable(s.clone()),
        }
    }
}

impl Attribute {
    /// A copy of the attribute.
    pub fn copy(&self) -> (r: Attribute)
        ensures
            attribute_view(r) == attribute_view(*self),
    {
        let mut args: Vec<AttributeArg> = Vec::new();
        let mut i: usize = 0;
        while i < self.args.len()
            invariant
                i <= self.args@.len(),
                args@.len() == i,
                forall|k: int| 0 <= k < i ==> arg_view(#[trigger] args@[k]) == arg_view(self.args@[k]),
            decreases self.args.len() - i,
        {
            args.push(self.args[i].copy());
            i = i + 1;
        }
        let r = Attribute { name: self.name.clone(), args };
        assert(r.args@.map_values(|x: AttributeArg| arg_view(x)) =~= self.args@.map_values(
            |x: AttributeArg| arg_view(x),
        ));
        r
    }
}

/// A copy of a list of attributes.
pub fn copy_attributes(attrs: &Vec<Attribute>) -> (r: Vec<Attribute>)
    ensures
        attributes_view(r@) == attributes_view(attrs@),
{
    let mut out: Vec<Attribute> = Vec::new();
    let mut i: usize = 0;
    while i < attrs.len()
        invariant
            i <= attrs@.len(),
            out@.len() == i,
            forall|k: int| 0 <= k < i ==> attribute_view(#[trigger] out@[k]) == attribute_view(attrs@[k]),
        decreases attrs.len() - i,
    {
        out.push(attrs[i].copy());
        i = i + 1;
    }
    assert(attributes_view(out@) =~= attributes_view(attrs@));
    out
}

impl Meta {
    /// A copy of the meta: the same file, range and attributes.
    pub fn copy(&self) -> (r: Meta)
        ensures
            same_meta(*self, r),
    {
        Meta {
            filename: self.filename.clone(),
            range: std::ops::Range { start: self.range.start, end: self.range.end },
            attributes: copy_attributes(&self.attributes),
        }
    }
}

/// An attribute such as `@doc("text")`.
#[derive(Debug, Clone)]
pub struct Attribute {
    pub name: String,
    pub args: Vec<AttributeArg>,
}

/// An argument of an attribute.
#[derive(Debug, Clone)]
pub enum AttributeArg {
    Literal(String),
    KeyValue(String, String),
    Variable(String),
}

} // verus!
