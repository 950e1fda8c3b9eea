use vstd::prelude::*;
use crate::schema::{
    ErrorTaxonomy, Field, Role, SchemaError, Variant, first_fault, valid_taxonomy, valid_variant,
    validate,
};

verus! {

/// A field of a context selector: a `Plain` field of the variant, which the
/// caller may give as any value convertible into its declared type.
#[derive(Debug, Clone, PartialEq, Eq)]
pub struct SelectorField {
    pub name: String,
    pub declared_type: String,
}

/// How the final error is built from a context selector.
#[derive(PartialEq, Eq, Structural, Clone, Copy, Debug)]
pub enum Construction {
    /// From the selector and an underlying error, through `From`.
    Conversion,
    /// From the selector alone, through `fail`, which always yields the
    /// error arm.
    Fail,
}

/// What is generated for one variant: its context selector, and how the
/// final error is built from it.
#[derive(Debug, Clone, PartialEq, Eq)]
pub struct SelectorPlan {
    /// The selector's name, which is the variant's.
    pub name: String,
    /// The selector's fields: the variant's `Plain` fields, in order.
    pub fields: Vec<SelectorField>,
    /// The construction path.
    pub construction: Construction,
    /// The variant's `Cause` field, if any.
    pub cause: Option<String>,
    /// The variant's `Trace` field, if any: a backtrace is captured into it
    /// on either path.
    pub trace: Option<String>,
}

/// The `Plain` fields among the first `k` fields, as (name, declared type).
pub open spec fn plain_fields(fields: Seq<Field>, k: nat) -> Seq<(Seq<char>, Seq<char>)>
    decreases k,
{
    if k == 0 {
        Seq::empty()
    } else {
        let rest = plain_fields(fields, (k - 1) as nat);
        let f = fields[k - 1];
        if f.role == Role::Plain {
            rest.push((f.name@, f.declared_type@))
        } else {
            rest
        }
    }
}

/// The name of the last field among the first `k` that has `role`.
pub open spec fn role_field(fields: Seq<Field>, role: Role, k: nat) -> Option<Seq<char>>
    decreases k,
{
    if k == 0 {
        None
    } else if fields[k - 1].role == role {
        Some(fields[k - 1].name@)
    } else {
        role_field(fields, role, (k - 1) as nat)
    }
}

/// Selector fields as (name, declared type).
pub open spec fn selector_view(fs: Seq<SelectorField>) -> Seq<(Seq<char>, Seq<char>)> {
    fs.map_values(|f: SelectorField| (f.name@, f.declared_type@))
}

/// An optional string as optional text.
pub open spec fn opt_view(o: Option<String>) -> Option<Seq<char>> {
    match o {
        Some(s) => Some(s@),
        None => None,
    }
}

/// Whether `p` is what is generated for `v`.
pub open spec fn plan_of(p: SelectorPlan, v: Variant) -> bool {
    let n = v.fields@.len();
    &&& p.name@ == v.name@
    &&& selector_view(p.fields@) == plain_fields(v.fields@, n)
    &&& opt_view(p.cause) == role_field(v.fields@, Role::Cause, n)
    &&& opt_view(p.trace) == role_field(v.fields@, Role::Trace, n)
    &&& p.construction == (if role_field(v.fields@, Role::Cause, n) is Some {
        Construction::Conversion
    } else {
        Construction::Fail
    })
}

/// Derives the context selector and construction path of one variant.
pub fn plan_variant(v: &Variant) -> (p: SelectorPlan)
    ensures
        plan_of(p, *v),
{
    let mut fields: Vec<SelectorField> = Vec::new();
    let mut cause: Option<String> = None;
    let mut trace: Option<String> = None;
    let mut i: usize = 0;
    while i < v.fields.len()
        invariant
            i <= v.fields@.len(),
            selector_view(fields@) == plain_fields(v.fields@, i as nat),
            opt_view(cause) == role_field(v.fields@, Role::Cause, i as nat),
            opt_view(trace) == role_field(v.fields@, Role::Trace, i as nat),
        decreases v.fields.len() - i,
    {
        let f = &v.fields[i];
        let ghost prev = fields@;
        match f.role {
            Role::Plain => {
                fields.push(SelectorField { name: f.name.clone(), declared_type: f.declared_type.clone() });
                assert(selector_view(fields@) =~= selector_view(prev).push((f.name@, f.declared_type@)));
            },
            Role::Cause => {
                cause = Some(f.name.clone());
            },
            Role::Trace => {
                trace = Some(f.name.clone());
            },
        }
        i = i + 1;
    }
    let construction = match cause {
        Some(_) => Construction::Conversion,
        None => Construction::Fail,
    };
    SelectorPlan { name: v.name.clone(), fields, construction, cause, trace }
}

/// Generates the selector plans of a taxonomy, one per variant in order,
/// after validating it; nothing is generated for an invalid taxonomy.
pub fn generate(t: &ErrorTaxonomy) -> (r: Result<Vec<SelectorPlan>, SchemaError>)
    ensures
        r is Ok <==> valid_taxonomy(*t),
        r matches Err(e) ==> e.variant < t.variants@.len()
            && first_fault(t.variants@[e.variant as int]) == Some(e.fault)
            && forall|j: int| 0 <= j < e.variant ==> valid_variant(#[trigger] t.variants@[j]),
        r matches Ok(ps) ==> ps@.len() == t.variants@.len()
            && forall|i: int| 0 <= i < ps@.len() ==> plan_of(#[trigger] ps@[i], t.variants@[i]),
{
    match validate(t) {
        Err(e) => Err(e),
        Ok(()) => {
            let mut plans: Vec<SelectorPlan> = Vec::new();
            let mut i: usize = 0;
            while i < t.variants.len()
                invariant
                    i <= t.variants@.len(),
                    plans@.len() == i,
                    forall|j: int| 0 <= j < i ==> plan_of(#[trigger] plans@[j], t.variants@[j]),
                decreases t.variants.len() - i,
            {
                let p = plan_variant(&t.variants[i]);
                plans.push(p);
                i = i + 1;
            }
            Ok(plans)
        },
    }
}

} // verus!
