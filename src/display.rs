use vstd::prelude::*;
use crate::schema::Template;

verus! {

/// The text bound to a field for rendering.
#[derive(Debug, Clone, PartialEq, Eq)]
pub struct FieldValue {
    pub name: String,
    pub text: String,
}

/// The text of each string.
pub open spec fn texts(vals: Seq<String>) -> Seq<Seq<char>> {
    vals.map_values(|s: String| s@)
}

/// A literal with its placeholders filled from `vals`, left to right:
/// `{}` takes the next value (nothing once they run out), `{{` and `}}`
/// stand for one brace, any other character stands for itself.
pub open spec fn fill(lit: Seq<char>, vals: Seq<Seq<char>>) -> Seq<char>
    decreases lit.len(),
{
    if lit.len() == 0 {
        Seq::empty()
    } else if lit.len() >= 2 && lit[0] == '{' && lit[1] == '}' {
        if vals.len() > 0 {
            vals[0] + fill(lit.skip(2), vals.skip(1))
        } else {
            fill(lit.skip(2), vals)
        }
    } else if lit.len() >= 2 && (lit[0] == '{' || lit[0] == '}') && lit[1] == lit[0] {
        seq![lit[0]] + fill(lit.skip(2), vals)
    } else {
        seq![lit[0]] + fill(lit.skip(1), vals)
    }
}

/// The text bound to the first value named `name`, if any.
pub open spec fn bound_text(vals: Seq<FieldValue>, name: Seq<char>) -> Option<Seq<char>>
    decreases vals.len(),
{
    if vals.len() == 0 {
        None
    } else if vals[0].name@ == name {
        Some(vals[0].text@)
    } else {
        bound_text(vals.skip(1), name)
    }
}

/// Whether every argument of the template has a bound value.
pub open spec fn all_bound(t: Template, vals: Seq<FieldValue>) -> bool {
    forall|k: int| 0 <= k < t.args@.len() ==> bound_text(vals, (#[trigger] t.args@[k]).field@) is Some
}

/// The bound texts of the template's arguments, in order.
pub open spec fn arg_texts(t: Template, vals: Seq<FieldValue>) -> Seq<Seq<char>> {
    t.args@.map_values(|e: crate::schema::FieldExpr| bound_text(vals, e.field@)->Some_0)
}

/// Fills the placeholders of a literal with `vals`, left to right.
pub fn fill_literal(lit: &str, vals: &Vec<String>) -> (r: String)
    ensures
        r@ == fill(lit@, texts(vals@)),
{
    let n = lit.unicode_len();
    let ghost all = texts(vals@);
    let mut out = String::new();
    let mut i: usize = 0;
    let mut used: usize = 0;
    proof {
        assert(lit@.skip(0) =~= lit@);
        assert(all.skip(0) =~= all);
    }
    while i < n
        invariant
            n == lit@.len(),
            i <= n,
            used <= vals@.len(),
            all == texts(vals@),
            out@ + fill(lit@.skip(i as int), all.skip(used as int)) == fill(lit@, all),
        decreases n - i,
    {
        let ghost rest = lit@.skip(i as int);
        let ghost vs = all.skip(used as int);
        let c = lit.get_char(i);
        assert(rest[0] == c);
        if i + 1 < n && c == '{' && lit.get_char(i + 1) == '}' {
            assert(rest[1] == lit@[i + 1]);
            assert(rest.skip(2) =~= lit@.skip(i + 2));
            if used < vals.len() {
                assert(vs[0] == vals@[used as int]@);
                assert(vs.skip(1) =~= all.skip(used + 1));
                out.append(vals[used].as_str());
            }
            used = if used < vals.len() { used + 1 } else { used };
            i = i + 2;
        } else if i + 1 < n && (c == '{' || c == '}') && lit.get_char(i + 1) == c {
            assert(rest[1] == lit@[i + 1]);
            assert(rest.skip(2) =~= lit@.skip(i + 2));
            let piece = lit.substring_char(i, i + 1);
            assert(piece@ =~= seq![c]);
            out.append(piece);
            i = i + 2;
        } else {
            proof {
                if i + 1 < n {
                    assert(rest[1] == lit@[i + 1]);
                }
            }
            assert(rest.skip(1) =~= lit@.skip(i + 1));
            let piece = lit.substring_char(i, i + 1);
            assert(piece@ =~= seq![c]);
            out.append(piece);
            i = i + 1;
        }
    }
    assert(lit@.skip(i as int) =~= Seq::<char>::empty());
    out
}

fn lookup_value(vals: &Vec<FieldValue>, name: &String) -> (r: Option<String>)
    ensures
        r matches Some(t) ==> bound_text(vals@, name@) == Some(t@),
        r is None <==> bound_text(vals@, name@) is None,
{
    let mut i: usize = 0;
    proof {
        assert(vals@.skip(0) =~= vals@);
    }
    while i < vals.len()
        invariant
            i <= vals@.len(),
            bound_text(vals@, name@) == bound_text(vals@.skip(i as int), name@),
        decreases vals.len() - i,
    {
        let ghost rest = vals@.skip(i as int);
        assert(rest[0] == vals@[i as int]);
        if vals[i].name == *name {
            return Some(vals[i].text.clone());
        }
        assert(rest.skip(1) =~= vals@.skip(i + 1));
        i = i + 1;
    }
    None
}

/// Renders a template with the texts bound to its arguments' fields; none
/// when an argument has no bound value. A bound text is the field already
/// rendered in the form that the argument's call names.
pub fn render_message(t: &Template, vals: &Vec<FieldValue>) -> (r: Option<String>)
    ensures
        r is Some <==> all_bound(*t, vals@),
        r matches Some(m) ==> m@ == fill(t.literal@, arg_texts(*t, vals@)),
{
    let mut list: Vec<String> = Vec::new();
    let mut k: usize = 0;
    while k < t.args.len()
        invariant
            k <= t.args@.len(),
            list@.len() == k,
            forall|j: int| 0 <= j < k ==> bound_text(vals@, (#[trigger] t.args@[j]).field@) == Some(list@[j]@),
        decreases t.args.len() - k,
    {
        match lookup_value(vals, &t.args[k].field) {
            Some(text) => {
                list.push(text);
            },
            None => {
                return None;
            },
        }
        k = k + 1;
    }
    proof {
        assert(texts(list@) =~= arg_texts(*t, vals@));
    }
    Some(fill_literal(t.literal.as_str(), &list))
}

} // verus!
