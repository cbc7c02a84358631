//! The text of a type, as `{:?}` writes it.
use vstd::prelude::*;
use crate::text::{debug_quoted, decimal_text, push_decimal, push_str, quoted};
use crate::typed_ast::{type_view, types_view, fields_view, lemma_types_view, lemma_fields_view, Type, TypeV};

verus! {

/// The text of a type as `{:?}` writes it.
pub open spec fn type_text(t: TypeV) -> Seq<char>
    decreases t, 0nat,
{
    match t {
        TypeV::Var(v) => "Var(TypeVar("@ + decimal_text(v as nat) + "))"@,
        TypeV::Con { name, args } => "Con { name: "@ + debug_quoted(name) + ", args: ["@
            + items_text(args) + "] }"@,
        TypeV::Tuple(ts) => "Tuple(["@ + items_text(ts) + "])"@,
        TypeV::Fun { args, ret } => "Fun { args: ["@ + items_text(args) + "], ret: "@ + type_text(
            *ret,
        ) + " }"@,
        TypeV::Array { elem, size } => "Array { elem: "@ + type_text(*elem) + ", size: "@ + match size {
            None => "None"@,
            Some(n) => "Some("@ + decimal_text(n as nat) + ")"@,
        } + " }"@,
        TypeV::Row(fields) => "Row(["@ + fields_text(fields) + "])"@,
        TypeV::Rec(inner) => "Rec("@ + type_text(*inner) + ")"@,
    }
}

/// The texts of types separated by `, `.
pub open spec fn items_text(ts: Seq<TypeV>) -> Seq<char>
    decreases ts, ts.len(),
{
    if ts.len() == 0 {
        Seq::empty()
    } else if ts.len() == 1 {
        type_text(ts[0])
    } else {
        items_text(ts.drop_last()) + ", "@ + type_text(ts.last())
    }
}

/// The texts of row fields, each as a pair, separated by `, `.
pub open spec fn fields_text(fs: Seq<(Seq<char>, TypeV)>) -> Seq<char>
    decreases fs, fs.len(),
{
    if fs.len() == 0 {
        Seq::empty()
    } else if fs.len() == 1 {
        field_text(fs[0])
    } else {
        fields_text(fs.drop_last()) + ", "@ + field_text(fs.last())
    }
}

/// The text of one row field as a pair.
pub open spec fn field_text(f: (Seq<char>, TypeV)) -> Seq<char>
    decreases f, 0nat,
{
    "("@ + debug_quoted(f.0) + ", "@ + type_text(f.1) + ")"@
}

/// Appends the text of a type to `s`.
pub fn push_type(s: &mut String, t: &Type)
    ensures
        final(s)@ == old(s)@ + type_text(t@),
    decreases t, 0nat,
{
    match t {
        Type::Var(v) => {
            push_str(s, "Var(TypeVar(");
            push_decimal(s, v.0 as u64);
            push_str(s, "))");
            assert(final(s)@ =~= old(s)@ + type_text(t@));
        },
        Type::Con { name, args } => {
            push_str(s, "Con { name: ");
            let q = quoted(name.as_str());
            push_str(s, q.as_str());
            push_str(s, ", args: [");
            push_types(s, args);
            push_str(s, "] }");
            assert(final(s)@ =~= old(s)@ + type_text(t@));
        },
        Type::Tuple(ts) => {
            push_str(s, "Tuple([");
            push_types(s, ts);
            push_str(s, "])");
            assert(final(s)@ =~= old(s)@ + type_text(t@));
        },
        Type::Fun { args, ret } => {
            push_str(s, "Fun { args: [");
            push_types(s, args);
            push_str(s, "], ret: ");
            push_type(s, ret);
            push_str(s, " }");
            assert(final(s)@ =~= old(s)@ + type_text(t@));
        },
        Type::Array { elem, size } => {
            push_str(s, "Array { elem: ");
            push_type(s, elem);
            push_str(s, ", size: ");
            match size {
                None => push_str(s, "None"),
                Some(n) => {
                    push_str(s, "Some(");
                    push_decimal(s, *n as u64);
                    push_str(s, ")");
                },
            }
            push_str(s, " }");
            assert(final(s)@ =~= old(s)@ + type_text(t@));
        },
        Type::Row(fields) => {
            push_str(s, "Row([");
            push_fields(s, fields);
            push_str(s, "])");
            assert(final(s)@ =~= old(s)@ + type_text(t@));
        },
        Type::Rec(inner) => {
            push_str(s, "Rec(");
            push_type(s, inner);
            push_str(s, ")");
            assert(final(s)@ =~= old(s)@ + type_text(t@));
        },
    }
}

/// Appends the texts of types separated by `, ` to `s`.
pub fn push_types(s: &mut String, ts: &Vec<Type>)
    ensures
        final(s)@ == old(s)@ + items_text(types_view(ts@)),
    decreases ts, 0nat,
{
    proof {
        lemma_types_view(ts@);
    }
    let mut i: usize = 0;
    while i < ts.len()
        invariant
            i <= ts@.len(),
            types_view(ts@).len() == ts@.len(),
            forall|k: int| 0 <= k < ts@.len() ==> #[trigger] types_view(ts@)[k] == type_view(ts@[k]),
            s@ == old(s)@ + items_text(types_view(ts@).take(i as int)),
        decreases ts.len() - i,
    {
        proof {
            assert(decreases_to!(ts => ts[i as int]));
        }
        let ghost before = s@;
        if i > 0 {
            push_str(s, ", ");
        }
        push_type(s, &ts[i]);
        proof {
            let vs = types_view(ts@);
            assert(vs.take(i + 1).drop_last() =~= vs.take(i as int));
            assert(vs.take(i + 1).last() == type_view(ts@[i as int]));
            if i == 0 {
                assert(vs.take(1) =~= seq![vs[0]]);
            }
        }
        i = i + 1;
        assert(s@ =~= old(s)@ + items_text(types_view(ts@).take(i as int)));
    }
    assert(types_view(ts@).take(ts@.len() as int) =~= types_view(ts@));
}

/// Appends the texts of row fields to `s`.
pub fn push_fields(s: &mut String, fs: &Vec<(String, Type)>)
    ensures
        final(s)@ == old(s)@ + fields_text(fields_view(fs@)),
    decreases fs, 0nat,
{
    proof {
        lemma_fields_view(fs@);
    }
    let mut i: usize = 0;
    while i < fs.len()
        invariant
            i <= fs@.len(),
            fields_view(fs@).len() == fs@.len(),
            forall|k: int|
                0 <= k < fs@.len() ==> #[trigger] fields_view(fs@)[k] == (fs@[k].0@, type_view(
                    fs@[k].1,
                )),
            s@ == old(s)@ + fields_text(fields_view(fs@).take(i as int)),
        decreases fs.len() - i,
    {
        proof {
            assert(decreases_to!(fs => fs[i as int]));
            assert(decreases_to!(fs[i as int] => fs[i as int].1));
        }
        let ghost before = s@;
        if i > 0 {
            push_str(s, ", ");
        }
        let ghost mid = s@;
        push_str(s, "(");
        let q = quoted(fs[i].0.as_str());
        push_str(s, q.as_str());
        push_str(s, ", ");
        push_type(s, &fs[i].1);
        push_str(s, ")");
        proof {
            let vs = fields_view(fs@);
            assert(s@ =~= mid + field_text(vs[i as int]));
            assert(vs.take(i + 1).drop_last() =~= vs.take(i as int));
            assert(vs.take(i + 1).last() == vs[i as int]);
            if i == 0 {
                assert(vs.take(1) =~= seq![vs[0]]);
            }
        }
        i = i + 1;
        assert(s@ =~= old(s)@ + fields_text(fields_view(fs@).take(i as int)));
    }
    assert(fields_view(fs@).take(fs@.len() as int) =~= fields_view(fs@));
}

} // verus!
