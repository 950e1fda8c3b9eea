use vstd::prelude::*;
use crate::compat::ErrorCompat;
use crate::context::Context;
use crate::display::{FieldValue, render_message, all_bound, arg_texts, fill};
use crate::generate::{Construction, SelectorPlan};
use crate::schema::Template;
use crate::trace::Backtrace;

verus! {

/// A final error built through a selector plan: its variant, the values of
/// its plain fields, its cause and its backtrace.
pub struct ErrorValue<S> {
    pub variant: String,
    pub values: Vec<FieldValue>,
    pub cause: Option<S>,
    pub backtrace: Option<Backtrace>,
}

/// Whether `vals` binds the plan's selector fields, in order, to `texts`.
pub open spec fn binds(plan: SelectorPlan, texts: Seq<String>, vals: Seq<FieldValue>) -> bool {
    &&& vals.len() == plan.fields@.len()
    &&& forall|i: int| 0 <= i < vals.len() ==> (#[trigger] vals[i]).name@ == plan.fields@[i].name@
        && vals[i].text@ == texts[i]@
}

fn bind_fields(plan: &SelectorPlan, texts: Vec<String>) -> (r: Vec<FieldValue>)
    requires
        texts@.len() == plan.fields@.len(),
    ensures
        binds(*plan, texts@, r@),
{
    let mut r: Vec<FieldValue> = Vec::new();
    let mut i: usize = 0;
    while i < texts.len()
        invariant
            i <= texts@.len() == plan.fields@.len(),
            r@.len() == i,
            forall|j: int| 0 <= j < i ==> (#[trigger] r@[j]).name@ == plan.fields@[j].name@ && r@[j].text@
                == texts@[j]@,
        decreases texts.len() - i,
    {
        r.push(FieldValue { name: plan.fields[i].name.clone(), text: texts[i].clone() });
        i = i + 1;
    }
    r
}

/// The conversion path: builds the final error from an underlying error
/// paired with the selector's field values. The cause is kept as it is; a
/// backtrace is captured when the variant has a `Trace` field.
pub fn from_context<S>(plan: &SelectorPlan, pair: Context<S, Vec<String>>) -> (r: ErrorValue<S>)
    requires
        plan.construction == Construction::Conversion,
        pair.context@.len() == plan.fields@.len(),
    ensures
        r.variant@ == plan.name@,
        binds(*plan, pair.context@, r.values@),
        r.cause == Some(pair.error),
        r.backtrace is Some <==> plan.trace is Some,
{
    let backtrace = match plan.trace {
        Some(_) => Some(Backtrace::new()),
        None => None,
    };
    let values = bind_fields(plan, pair.context);
    ErrorValue { variant: plan.name.clone(), values, cause: Some(pair.error), backtrace }
}

/// The direct-fail path: builds the final error from the selector's field
/// values alone, and always yields the error arm, whatever the success
/// type. A backtrace is captured when the variant has a `Trace` field.
pub fn fail<T, S>(plan: &SelectorPlan, texts: Vec<String>) -> (r: Result<T, ErrorValue<S>>)
    requires
        plan.construction == Construction::Fail,
        texts@.len() == plan.fields@.len(),
    ensures
        r matches Err(e) && e.variant@ == plan.name@ && binds(*plan, texts@, e.values@) && e.cause is None && (
        e.backtrace is Some <==> plan.trace is Some),
{
    let backtrace = match plan.trace {
        Some(_) => Some(Backtrace::new()),
        None => None,
    };
    let values = bind_fields(plan, texts);
    Err(ErrorValue { variant: plan.name.clone(), values, cause: None, backtrace })
}

fn copy_values(vals: &Vec<FieldValue>) -> (r: Vec<FieldValue>)
    ensures
        r@ == vals@,
{
    let mut r: Vec<FieldValue> = Vec::new();
    let mut i: usize = 0;
    while i < vals.len()
        invariant
            i <= vals@.len(),
            r@ == vals@.take(i as int),
        decreases vals.len() - i,
    {
        r.push(FieldValue { name: vals[i].name.clone(), text: vals[i].text.clone() });
        assert(r@ =~= vals@.take(i + 1));
        i = i + 1;
    }
    assert(vals@.take(i as int) =~= vals@);
    r
}

impl<S> ErrorValue<S> {
    /// The underlying error, for a variant built through the conversion path.
    pub fn cause(&self) -> (r: Option<&S>)
        ensures
            r == match self.cause {
                Some(c) => Some(&c),
                None => None::<&S>,
            },
    {
        match &self.cause {
            Some(c) => Some(c),
            None => None,
        }
    }

    /// The error's message: the plan's template rendered with the field
    /// values, the cause field bound to `cause_text`. None when the template
    /// names a field without a value.
    pub fn message(&self, plan: &SelectorPlan, template: &Template, cause_text: &String) -> (r: Option<String>)
        ensures
            r is Some <==> all_bound(*template, self.bound(*plan, *cause_text)),
            r matches Some(m) ==> m@ == fill(template.literal@, arg_texts(*template, self.bound(*plan, *cause_text))),
    {
        let mut vals = copy_values(&self.values);
        match &plan.cause {
            Some(name) => {
                vals.push(FieldValue { name: name.clone(), text: cause_text.clone() });
            },
            None => {},
        }
        render_message(template, &vals)
    }

    /// The values that a template is rendered with.
    pub open spec fn bound(&self, plan: SelectorPlan, cause_text: String) -> Seq<FieldValue> {
        match plan.cause {
            Some(name) => self.values@.push(FieldValue { name, text: cause_text }),
            None => self.values@,
        }
    }
}

impl<S> ErrorCompat for ErrorValue<S> {
    fn backtrace(&self) -> (r: Option<&Backtrace>)
        ensures
            r is Some <==> self.backtrace is Some,
    {
        match &self.backtrace {
            Some(b) => Some(b),
            None => None,
        }
    }
}

} // verus!
