use vstd::prelude::*;

verus! {

/// What a field is for.
#[derive(PartialEq, Eq, Structural, Clone, Copy, Debug)]
pub enum Role {
    /// Contextual data that the caller supplies.
    Plain,
    /// The underlying error being wrapped.
    Cause,
    /// A backtrace, captured when the error is built.
    Trace,
}

/// One field of a variant.
#[derive(Debug, Clone, PartialEq, Eq)]
pub struct Field {
    pub name: String,
    pub declared_type: String,
    pub role: Role,
}

/// A reference to a field in a display template, with the rendering call
/// made on it (`display`, `to_string`, ...), if any.
#[derive(Debug, Clone, PartialEq, Eq)]
pub struct FieldExpr {
    pub field: String,
    pub call: Option<String>,
}

/// A display template: a format literal with positional placeholders and
/// the field expressions that fill them, left to right.
#[derive(Debug, Clone, PartialEq, Eq)]
pub struct Template {
    pub literal: String,
    pub args: Vec<FieldExpr>,
}

/// One variant of an error taxonomy.
#[derive(Debug, Clone, PartialEq, Eq)]
pub struct Variant {
    pub name: String,
    pub fields: Vec<Field>,
    pub template: Template,
}

/// An error taxonomy: its variants, in order.
#[derive(Debug, Clone, PartialEq, Eq)]
pub struct ErrorTaxonomy {
    pub variants: Vec<Variant>,
}

/// Why a variant is rejected.
#[derive(PartialEq, Eq, Structural, Clone, Copy, Debug)]
pub enum SchemaFault {
    /// Two fields share a name.
    DuplicateField,
    /// More than one field has the role `Cause`.
    DuplicateCause,
    /// More than one field has the role `Trace`.
    DuplicateTrace,
    /// The template refers to a field that the variant does not have.
    UnknownField,
    /// The template refers to a `Trace` field.
    TraceInTemplate,
}

/// A rejected taxonomy: the first offending variant, and why.
#[derive(PartialEq, Eq, Structural, Clone, Copy, Debug)]
pub struct SchemaError {
    pub variant: usize,
    pub fault: SchemaFault,
}

/// Whether two fields share a name.
pub open spec fn has_duplicate_name(fields: Seq<Field>) -> bool {
    exists|i: int, j: int| 0 <= i < j < fields.len() && fields[i].name@ == fields[j].name@
}

/// Whether two fields have `role`.
pub open spec fn has_duplicate_role(fields: Seq<Field>, role: Role) -> bool {
    exists|i: int, j: int| 0 <= i < j < fields.len() && fields[i].role == role && fields[j].role == role
}

/// Whether some field is named `name`.
pub open spec fn names_field(fields: Seq<Field>, name: Seq<char>) -> bool {
    exists|i: int| 0 <= i < fields.len() && fields[i].name@ == name
}

/// Whether some `Trace` field is named `name`.
pub open spec fn names_trace(fields: Seq<Field>, name: Seq<char>) -> bool {
    exists|i: int| 0 <= i < fields.len() && fields[i].name@ == name && fields[i].role == Role::Trace
}

/// Whether the template refers to a field that the variant lacks.
pub open spec fn has_unknown_arg(v: Variant) -> bool {
    exists|k: int| 0 <= k < v.template.args@.len() && !names_field(v.fields@, v.template.args@[k].field@)
}

/// Whether the template refers to a `Trace` field.
pub open spec fn has_trace_arg(v: Variant) -> bool {
    exists|k: int| 0 <= k < v.template.args@.len() && names_trace(v.fields@, v.template.args@[k].field@)
}

/// The first fault of a variant, the checks taken in the order of
/// `SchemaFault`; none for a valid variant.
pub open spec fn first_fault(v: Variant) -> Option<SchemaFault> {
    if has_duplicate_name(v.fields@) {
        Some(SchemaFault::DuplicateField)
    } else if has_duplicate_role(v.fields@, Role::Cause) {
        Some(SchemaFault::DuplicateCause)
    } else if has_duplicate_role(v.fields@, Role::Trace) {
        Some(SchemaFault::DuplicateTrace)
    } else if has_unknown_arg(v) {
        Some(SchemaFault::UnknownField)
    } else if has_trace_arg(v) {
        Some(SchemaFault::TraceInTemplate)
    } else {
        None
    }
}

/// A variant without fault.
pub open spec fn valid_variant(v: Variant) -> bool {
    first_fault(v) is None
}

/// A taxonomy whose variants are all valid.
pub open spec fn valid_taxonomy(t: ErrorTaxonomy) -> bool {
    forall|i: int| 0 <= i < t.variants@.len() ==> valid_variant(#[trigger] t.variants@[i])
}

fn duplicate_name(fields: &Vec<Field>) -> (r: bool)
    ensures
        r == has_duplicate_name(fields@),
{
    let mut j: usize = 0;
    while j < fields.len()
        invariant
            j <= fields.len(),
            forall|a: int, b: int| 0 <= a < b < j ==> fields@[a].name@ != fields@[b].name@,
        decreases fields.len() - j,
    {
        let mut i: usize = 0;
        while i < j
            invariant
                i <= j < fields.len(),
                forall|a: int| 0 <= a < i ==> fields@[a].name@ != fields@[j as int].name@,
            decreases j - i,
        {
            if fields[i].name == fields[j].name {
                return true;
            }
            i = i + 1;
        }
        j = j + 1;
    }
    false
}

fn duplicate_role(fields: &Vec<Field>, role: Role) -> (r: bool)
    ensures
        r == has_duplicate_role(fields@, role),
{
    let mut seen: bool = false;
    let mut first: usize = 0;
    let mut j: usize = 0;
    while j < fields.len()
        invariant
            j <= fields.len(),
            seen ==> first < j && fields@[first as int].role == role,
            !seen ==> forall|a: int| 0 <= a < j ==> fields@[a].role != role,
            forall|a: int, b: int| 0 <= a < b < j ==> !(fields@[a].role == role && fields@[b].role == role),
        decreases fields.len() - j,
    {
        if fields[j].role == role {
            if seen {
                assert(fields@[first as int].role == role && fields@[j as int].role == role);
                return true;
            }
            seen = true;
            first = j;
        }
        j = j + 1;
    }
    false
}

/// Looks up a field by name: whether there is one, and whether one such
/// field is a `Trace`.
fn lookup(fields: &Vec<Field>, name: &String) -> (r: (bool, bool))
    ensures
        r.0 == names_field(fields@, name@),
        r.1 == names_trace(fields@, name@),
{
    let mut found: bool = false;
    let mut trace: bool = false;
    let mut i: usize = 0;
    while i < fields.len()
        invariant
            i <= fields.len(),
            found == exists|a: int| 0 <= a < i && fields@[a].name@ == name@,
            trace == exists|a: int| 0 <= a < i && fields@[a].name@ == name@ && fields@[a].role == Role::Trace,
        decreases fields.len() - i,
    {
        if fields[i].name == *name {
            found = true;
            if fields[i].role == Role::Trace {
                trace = true;
            }
        }
        i = i + 1;
    }
    (found, trace)
}

/// The first fault of a variant, if any.
pub fn check_variant(v: &Variant) -> (r: Option<SchemaFault>)
    ensures
        r == first_fault(*v),
{
    if duplicate_name(&v.fields) {
        return Some(SchemaFault::DuplicateField);
    }
    if duplicate_role(&v.fields, Role::Cause) {
        return Some(SchemaFault::DuplicateCause);
    }
    if duplicate_role(&v.fields, Role::Trace) {
        return Some(SchemaFault::DuplicateTrace);
    }
    let args = &v.template.args;
    let mut unknown: bool = false;
    let mut traced: bool = false;
    let mut k: usize = 0;
    while k < args.len()
        invariant
            k <= args.len(),
            args == v.template.args,
            unknown == exists|a: int| 0 <= a < k && !names_field(v.fields@, args@[a].field@),
            traced == exists|a: int| 0 <= a < k && names_trace(v.fields@, args@[a].field@),
        decreases args.len() - k,
    {
        let (found, trace) = lookup(&v.fields, &args[k].field);
        if !found {
            unknown = true;
        }
        if trace {
            traced = true;
        }
        k = k + 1;
    }
    if unknown {
        Some(SchemaFault::UnknownField)
    } else if traced {
        Some(SchemaFault::TraceInTemplate)
    } else {
        None
    }
}

/// Validates a taxonomy: `Ok` when every variant is valid, else the first
/// invalid variant with its first fault.
pub fn validate(t: &ErrorTaxonomy) -> (r: Result<(), SchemaError>)
    ensures
        r is Ok <==> valid_taxonomy(*t),
        r matches Err(e) ==> e.variant < t.variants@.len()
            && first_fault(t.variants@[e.variant as int]) == Some(e.fault)
            && forall|j: int| 0 <= j < e.variant ==> valid_variant(#[trigger] t.variants@[j]),
{
    let mut i: usize = 0;
    while i < t.variants.len()
        invariant
            i <= t.variants@.len(),
            forall|j: int| 0 <= j < i ==> valid_variant(#[trigger] t.variants@[j]),
        decreases t.variants.len() - i,
    {
        match check_variant(&t.variants[i]) {
            Some(fault) => {
                return Err(SchemaError { variant: i, fault });
            },
            None => {},
        }
        i = i + 1;
    }
    Ok(())
}

} // verus!
