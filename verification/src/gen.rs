use vstd::prelude::*;

use crate::schema::{EnumVariant, Field, Type};

verus! {

/// Structural equality of two wire types, comparing names by their
/// characters.
pub open spec fn type_eq(a: Type, b: Type) -> bool
    decreases a, 1int, 0int,
{
    match (a, b) {
        (Type::Date, Type::Date) => true,
        (Type::Int, Type::Int) => true,
        (Type::BigInt, Type::BigInt) => true,
        (Type::Numeric, Type::Numeric) => true,
        (Type::TimeStampMs, Type::TimeStampMs) => true,
        (Type::Object, Type::Object) => true,
        (Type::Unit, Type::Unit) => true,
        (Type::Boolean, Type::Boolean) => true,
        (Type::Text, Type::Text) => true,
        (Type::Bytea, Type::Bytea) => true,
        (Type::UUID, Type::UUID) => true,
        (Type::Inet, Type::Inet) => true,
        (Type::BlockchainDecimal, Type::BlockchainDecimal) => true,
        (Type::BlockchainAddress, Type::BlockchainAddress) => true,
        (Type::BlockchainTransactionHash, Type::BlockchainTransactionHash) => true,
        (Type::StructRef(n1), Type::StructRef(n2)) => n1@ == n2@,
        (Type::EnumRef(n1), Type::EnumRef(n2)) => n1@ == n2@,
        (Type::List(x1), Type::List(x2)) => type_eq(*x1, *x2),
        (Type::Optional(x1), Type::Optional(x2)) => type_eq(*x1, *x2),
        (Type::Struct { name: n1, fields: f1 }, Type::Struct { name: n2, fields: f2 }) => n1@
            == n2@ && fields_eq(f1@, f2@),
        (
            Type::DataTable { name: n1, fields: f1 },
            Type::DataTable { name: n2, fields: f2 },
        ) => n1@ == n2@ && fields_eq(f1@, f2@),
        (
            Type::Enum { name: n1, variants: v1 },
            Type::Enum { name: n2, variants: v2 },
        ) => n1@ == n2@ && variants_eq(v1@, v2@),
        _ => false,
    }
}

/// Structural equality of two field lists.
pub open spec fn fields_eq(a: Seq<Field>, b: Seq<Field>) -> bool
    decreases a, 1int, 0int,
{
    if a.len() != b.len() {
        false
    } else if a.len() == 0 {
        true
    } else {
        a[0].name@ == b[0].name@ && a[0].description@ == b[0].description@ && type_eq(
            a[0].ty,
            b[0].ty,
        ) && fields_eq(a.skip(1), b.skip(1))
    }
}

/// Structural equality of two enum variant lists.
pub open spec fn variants_eq(a: Seq<EnumVariant>, b: Seq<EnumVariant>) -> bool {
    a.len() == b.len() && forall|i: int|
        0 <= i < a.len() ==> (#[trigger] a[i]).name@ == b[i].name@ && a[i].value == b[i].value
            && a[i].comment@ == b[i].comment@
}

/// A structurally equal copy of a wire type.
pub fn clone_type(t: &Type) -> (r: Type)
    ensures
        type_eq(r, *t),
    decreases t, 1int, 0int,
{
    match t {
        Type::Date => Type::Date,
        Type::Int => Type::Int,
        Type::BigInt => Type::BigInt,
        Type::Numeric => Type::Numeric,
        Type::TimeStampMs => Type::TimeStampMs,
        Type::Object => Type::Object,
        Type::Unit => Type::Unit,
        Type::Boolean => Type::Boolean,
        Type::Text => Type::Text,
        Type::Bytea => Type::Bytea,
        Type::UUID => Type::UUID,
        Type::Inet => Type::Inet,
        Type::BlockchainDecimal => Type::BlockchainDecimal,
        Type::BlockchainAddress => Type::BlockchainAddress,
        Type::BlockchainTransactionHash => Type::BlockchainTransactionHash,
        Type::StructRef(n) => Type::StructRef(n.clone()),
        Type::EnumRef(n) => Type::EnumRef(n.clone()),
        Type::List(x) => Type::List(Box::new(clone_type(x))),
        Type::Optional(x) => Type::Optional(Box::new(clone_type(x))),
        Type::Struct { name, fields } => Type::Struct {
            name: name.clone(),
            fields: clone_fields(fields),
        },
        Type::DataTable { name, fields } => Type::DataTable {
            name: name.clone(),
            fields: clone_fields(fields),
        },
        Type::Enum { name, variants } => Type::Enum {
            name: name.clone(),
            variants: clone_variants(variants),
        },
    }
}

/// A structurally equal copy of a field list.
fn clone_fields(fields: &Vec<Field>) -> (r: Vec<Field>)
    ensures
        fields_eq(r@, fields@),
    decreases fields@, 1int, 0int,
{
    let mut out: Vec<Field> = Vec::new();
    let mut i: usize = 0;
    while i < fields.len()
        invariant
            i <= fields.len(),
            out@.len() == i,
            forall|j: int|
                0 <= j < i ==> (#[trigger] out@[j]).name@ == fields@[j].name@
                    && out@[j].description@ == fields@[j].description@ && type_eq(
                    out@[j].ty,
                    fields@[j].ty,
                ),
        decreases fields.len() - i,
    {
        proof {
            assert(decreases_to!(fields@ => fields@[i as int]));
            assert(decreases_to!(fields@[i as int] => fields@[i as int].ty));
        }
        out.push(
            Field {
                name: fields[i].name.clone(),
                ty: clone_type(&fields[i].ty),
                description: fields[i].description.clone(),
            },
        );
        i += 1;
    }
    proof {
        lemma_pointwise_fields_eq(out@, fields@);
    }
    out
}

/// Pointwise equal field lists are structurally equal.
proof fn lemma_pointwise_fields_eq(a: Seq<Field>, b: Seq<Field>)
    requires
        a.len() == b.len(),
        forall|j: int|
            0 <= j < a.len() ==> (#[trigger] a[j]).name@ == b[j].name@ && a[j].description@
                == b[j].description@ && type_eq(a[j].ty, b[j].ty),
    ensures
        fields_eq(a, b),
    decreases a.len(),
{
    if a.len() > 0 {
        assert(a.skip(1).len() == b.skip(1).len());
        assert forall|j: int| 0 <= j < a.skip(1).len() implies (#[trigger] a.skip(1)[j]).name@
            == b.skip(1)[j].name@ && a.skip(1)[j].description@ == b.skip(1)[j].description@
            && type_eq(a.skip(1)[j].ty, b.skip(1)[j].ty) by {
            assert(a.skip(1)[j] == a[j + 1]);
            assert(b.skip(1)[j] == b[j + 1]);
        }
        lemma_pointwise_fields_eq(a.skip(1), b.skip(1));
    }
}

/// A copy of an enum variant list.
fn clone_variants(variants: &Vec<EnumVariant>) -> (r: Vec<EnumVariant>)
    ensures
        variants_eq(r@, variants@),
{
    let mut out: Vec<EnumVariant> = Vec::new();
    let mut i: usize = 0;
    while i < variants.len()
        invariant
            i <= variants.len(),
            out@.len() == i,
            forall|j: int|
                0 <= j < i ==> (#[trigger] out@[j]).name@ == variants@[j].name@ && out@[j].value
                    == variants@[j].value && out@[j].comment@ == variants@[j].comment@,
        decreases variants.len() - i,
    {
        out.push(
            EnumVariant {
                name: variants[i].name.clone(),
                value: variants[i].value,
                comment: variants[i].comment.clone(),
            },
        );
        i += 1;
    }
    out
}

/// The types a generator emits a record declaration for, walking a type
/// tree: a struct is itself emitted and then searched field by field, a data
/// table is emitted as the struct of its rows, and lists and optional
/// wrappers are looked through; everything else brings nothing.
pub open spec fn spec_collect(t: Type) -> Seq<Type>
    decreases t, 1int, 0int,
{
    match t {
        Type::Struct { name, fields } => seq![Type::Struct { name, fields }] + collect_in_fields(
            fields@,
        ),
        Type::DataTable { name, fields } => seq![Type::Struct { name, fields }]
            + collect_in_fields(fields@),
        Type::List(x) => spec_collect(*x),
        Type::Optional(x) => spec_collect(*x),
        _ => Seq::empty(),
    }
}

/// The types emitted for the field types of a record, in field order.
pub open spec fn collect_in_fields(fields: Seq<Field>) -> Seq<Type>
    decreases fields, 1int, 0int,
{
    if fields.len() == 0 {
        Seq::empty()
    } else {
        spec_collect(fields[0].ty) + collect_in_fields(fields.skip(1))
    }
}

/// Collecting over one more field at the end appends the types its type
/// brings.
proof fn lemma_collect_fields_snoc(s: Seq<Field>, f: Field)
    ensures
        collect_in_fields(s.push(f)) == collect_in_fields(s) + spec_collect(f.ty),
    decreases s.len(),
{
    if s.len() == 0 {
        assert(s.push(f)[0] == f);
        assert(s.push(f).skip(1) =~= Seq::<Field>::empty());
        assert(collect_in_fields(s.push(f)) == spec_collect(f.ty) + collect_in_fields(
            Seq::<Field>::empty(),
        ));
        assert(collect_in_fields(s.push(f)) =~= collect_in_fields(s) + spec_collect(f.ty));
    } else {
        assert(s.push(f)[0] == s[0]);
        assert(s.push(f).skip(1) =~= s.skip(1).push(f));
        lemma_collect_fields_snoc(s.skip(1), f);
        assert(collect_in_fields(s.push(f)) == spec_collect(s[0].ty) + collect_in_fields(
            s.skip(1).push(f),
        ));
        assert(collect_in_fields(s.push(f)) =~= collect_in_fields(s) + spec_collect(f.ty));
    }
}

/// Collects the record types reachable from `t` that a generator must emit,
/// in emission order.
pub fn collect_rust_recursive_types(t: Type) -> (r: Vec<Type>)
    ensures
        r@.len() == spec_collect(t).len(),
        forall|i: int| 0 <= i < r@.len() ==> type_eq(#[trigger] r@[i], spec_collect(t)[i]),
{
    let mut out: Vec<Type> = Vec::new();
    collect_into(&t, &mut out);
    proof {
        assert forall|i: int| 0 <= i < out@.len() implies type_eq(
            #[trigger] out@[i],
            spec_collect(t)[i],
        ) by {
            assert(type_eq(out@[0 + i], spec_collect(t)[i]));
        }
    }
    out
}

/// Appends the record types reachable from `t` to `out`.
fn collect_into(t: &Type, out: &mut Vec<Type>)
    ensures
        final(out)@.len() == old(out)@.len() + spec_collect(*t).len(),
        forall|j: int| 0 <= j < old(out)@.len() ==> #[trigger] final(out)@[j] == old(out)@[j],
        forall|k: int|
            0 <= k < spec_collect(*t).len() ==> type_eq(
                #[trigger] final(out)@[old(out)@.len() + k],
                spec_collect(*t)[k],
            ),
    decreases t, 2int, 0int,
{
    match t {
        Type::Struct { name, fields } => {
            let rec = Type::Struct { name: name.clone(), fields: clone_fields(fields) };
            let ghost grec = rec;
            let ghost base0 = out@;
            out.push(rec);
            let ghost base1 = out@;
            collect_fields_into(fields, out);
            proof {
                lemma_collect_step(*t, *name, *fields, grec, base0, base1, out@);
            }
        },
        Type::DataTable { name, fields } => {
            let rec = Type::Struct { name: name.clone(), fields: clone_fields(fields) };
            let ghost grec = rec;
            let ghost base0 = out@;
            out.push(rec);
            let ghost base1 = out@;
            collect_fields_into(fields, out);
            proof {
                lemma_collect_step(*t, *name, *fields, grec, base0, base1, out@);
            }
        },
        Type::List(x) => {
            collect_into(x, out);
        },
        Type::Optional(x) => {
            collect_into(x, out);
        },
        _ => {},
    }
}

/// Composes one emitted record and the types its fields bring into the
/// pointwise correspondence of a whole collection step.
proof fn lemma_collect_step(
    t: Type,
    name: String,
    fields: Vec<Field>,
    rec: Type,
    base0: Seq<Type>,
    base1: Seq<Type>,
    out: Seq<Type>,
)
    requires
        spec_collect(t) == seq![Type::Struct { name, fields }] + collect_in_fields(fields@),
        type_eq(rec, Type::Struct { name, fields }),
        base1 == base0.push(rec),
        out.len() == base1.len() + collect_in_fields(fields@).len(),
        forall|j: int| 0 <= j < base1.len() ==> #[trigger] out[j] == base1[j],
        forall|k: int|
            0 <= k < collect_in_fields(fields@).len() ==> type_eq(
                #[trigger] out[base1.len() + k],
                collect_in_fields(fields@)[k],
            ),
    ensures
        out.len() == base0.len() + spec_collect(t).len(),
        forall|j: int| 0 <= j < base0.len() ==> #[trigger] out[j] == base0[j],
        forall|k: int|
            0 <= k < spec_collect(t).len() ==> type_eq(
                #[trigger] out[base0.len() + k],
                spec_collect(t)[k],
            ),
{
    let sc = spec_collect(t);
    let cif = collect_in_fields(fields@);
    assert(sc.len() == 1 + cif.len());
    assert forall|k: int| 0 <= k < sc.len() implies type_eq(
        #[trigger] out[base0.len() + k],
        sc[k],
    ) by {
        if k == 0 {
            assert(out[base0.len() as int] == base1[base0.len() as int]);
            assert(base1[base0.len() as int] == rec);
            assert(sc[0] == Type::Struct { name, fields });
        } else {
            assert(out[base1.len() + (k - 1)] == out[base0.len() + k]);
            assert(type_eq(out[base1.len() + (k - 1)], cif[k - 1]));
            assert(sc[k] == cif[k - 1]);
        }
    }
}

/// Appends the record types reachable from each field of `fields` to `out`.
fn collect_fields_into(fields: &Vec<Field>, out: &mut Vec<Type>)
    ensures
        final(out)@.len() == old(out)@.len() + collect_in_fields(fields@).len(),
        forall|j: int| 0 <= j < old(out)@.len() ==> #[trigger] final(out)@[j] == old(out)@[j],
        forall|k: int|
            0 <= k < collect_in_fields(fields@).len() ==> type_eq(
                #[trigger] final(out)@[old(out)@.len() + k],
                collect_in_fields(fields@)[k],
            ),
    decreases fields@, 2int, 0int,
{
    let ghost base = out@;
    let mut i: usize = 0;
    proof {
        assert(fields@.subrange(0, 0) =~= Seq::<Field>::empty());
    }
    while i < fields.len()
        invariant
            i <= fields.len(),
            out@.len() == base.len() + collect_in_fields(fields@.subrange(0, i as int)).len(),
            forall|j: int| 0 <= j < base.len() ==> #[trigger] out@[j] == base[j],
            forall|k: int|
                0 <= k < collect_in_fields(fields@.subrange(0, i as int)).len() ==> type_eq(
                    #[trigger] out@[base.len() + k],
                    collect_in_fields(fields@.subrange(0, i as int))[k],
                ),
        decreases fields.len() - i,
    {
        proof {
            assert(decreases_to!(fields@ => fields@[i as int]));
            assert(decreases_to!(fields@[i as int] => fields@[i as int].ty));
        }
        let ghost prefix = fields@.subrange(0, i as int);
        let ghost before = out@;
        collect_into(&fields[i].ty, out);
        proof {
            lemma_collect_fields_snoc(prefix, fields@[i as int]);
            assert(fields@.subrange(0, i + 1) =~= prefix.push(fields@[i as int]));
            let next = collect_in_fields(fields@.subrange(0, i + 1));
            assert(next == collect_in_fields(prefix) + spec_collect(fields@[i as int].ty));
            assert forall|k: int| 0 <= k < next.len() implies type_eq(
                #[trigger] out@[base.len() + k],
                next[k],
            ) by {
                if k < collect_in_fields(prefix).len() {
                    assert(out@[base.len() + k] == before[base.len() + k]);
                    assert(next[k] == collect_in_fields(prefix)[k]);
                } else {
                    let k2 = k - collect_in_fields(prefix).len();
                    assert(out@[before.len() + k2] == out@[base.len() + k]);
                    assert(next[k] == spec_collect(fields@[i as int].ty)[k2]);
                }
            }
        }
        i += 1;
    }
    proof {
        assert(fields@.subrange(0, i as int) =~= fields@);
    }
}

} // verus!
