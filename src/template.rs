use vstd::prelude::*;
use crate::schema::{FieldExpr, Template};

verus! {

/// The three accepted ways of writing a display template.
#[derive(PartialEq, Eq, Structural, Clone, Copy, Debug)]
pub enum TemplateSyntax {
    /// Arguments written as in a call: `"format {}", field`.
    Inline,
    /// Each argument quoted: `"format {}", "field"`.
    Quoted,
    /// An inline call body in parentheses: `("format {}", field)`.
    Packed,
}

/// Why a template is rejected.
#[derive(PartialEq, Eq, Structural, Clone, Copy, Debug)]
pub enum TemplateFault {
    /// The text is not a template in the given syntax.
    Malformed,
    /// The literal's placeholders do not match the arguments: a stray
    /// brace, or a count other than the number of arguments.
    PlaceholderMismatch,
}

/// A rejected template, with the syntax that was attempted.
#[derive(PartialEq, Eq, Structural, Clone, Copy, Debug)]
pub struct TemplateError {
    pub syntax: TemplateSyntax,
    pub fault: TemplateFault,
}

/// A character that may stand in an identifier.
/// A non-empty run of identifier characters.
pub open spec fn is_ident_char(c: char) -> bool {
    ('a' <= c && c <= 'z') || ('A' <= c && c <= 'Z') || ('0' <= c && c <= '9') || c == '_'
}

pub open spec fn is_ident(s: Seq<char>) -> bool {
    s.len() > 0 && forall|i: int| 0 <= i < s.len() ==> is_ident_char(#[trigger] s[i])
}

/// A field expression whose field and call are identifiers.
pub open spec fn wf_expr(e: FieldExpr) -> bool {
    is_ident(e.field@) && (e.call matches Some(c) ==> is_ident(c@))
}

/// How a field expression is written: `field` or `field.call()`.
pub open spec fn expr_text(e: FieldExpr) -> Seq<char> {
    match e.call {
        Some(c) => e.field@ + seq!['.'] + c@ + seq!['(', ')'],
        None => e.field@,
    }
}

/// How an argument is written, quoted or not.
pub open spec fn item_text(e: FieldExpr, quoted: bool) -> Seq<char> {
    if quoted {
        seq!['"'] + expr_text(e) + seq!['"']
    } else {
        expr_text(e)
    }
}

/// Each item preceded by `, `.
pub open spec fn join(items: Seq<Seq<char>>) -> Seq<char>
    decreases items.len(),
{
    if items.len() == 0 {
        Seq::empty()
    } else {
        join(items.drop_last()) + seq![',', ' '] + items.last()
    }
}

/// The arguments as written, quoted or not.
pub open spec fn items_of(args: Seq<FieldExpr>, quoted: bool) -> Seq<Seq<char>> {
    args.map_values(|e: FieldExpr| item_text(e, quoted))
}

/// The text of a template in a syntax.
pub open spec fn template_text(t: Template, syntax: TemplateSyntax) -> Seq<char> {
    let body = seq!['"'] + t.literal@ + seq!['"'] + join(items_of(t.args@, syntax == TemplateSyntax::Quoted));
    if syntax == TemplateSyntax::Packed {
        seq!['('] + body + seq![')']
    } else {
        body
    }
}

/// The number of `{}` placeholders of a literal, where `{{` and `}}` stand
/// for braces; none when a brace stands alone.
pub open spec fn placeholder_count(s: Seq<char>) -> Option<nat>
    decreases s.len(),
{
    if s.len() == 0 {
        Some(0)
    } else if s[0] == '{' || s[0] == '}' {
        if s.len() >= 2 && s[0] == '{' && s[1] == '}' {
            match placeholder_count(s.skip(2)) {
                Some(n) => Some(n + 1),
                None => None,
            }
        } else if s.len() >= 2 && s[1] == s[0] {
            placeholder_count(s.skip(2))
        } else {
            None
        }
    } else {
        placeholder_count(s.skip(1))
    }
}

/// Whether a template could be written in some syntax: no quote in the
/// literal, and well-formed field expressions.
pub open spec fn shaped(t: Template) -> bool {
    &&& !t.literal@.contains('"')
    &&& forall|k: int| 0 <= k < t.args@.len() ==> wf_expr(#[trigger] t.args@[k])
}

/// A well-formed template: shaped, with one placeholder per argument.
pub open spec fn wf_template(t: Template) -> bool {
    shaped(t) && placeholder_count(t.literal@) == Some(t.args@.len())
}

/// Field expressions are equal as values.
pub open spec fn same_expr(a: FieldExpr, b: FieldExpr) -> bool {
    a.field@ == b.field@ && match (a.call, b.call) {
        (Some(x), Some(y)) => x@ == y@,
        (None, None) => true,
        _ => false,
    }
}

/// Templates are equal as values.
pub open spec fn same_template(a: Template, b: Template) -> bool {
    &&& a.literal@ == b.literal@
    &&& a.args@.len() == b.args@.len()
    &&& forall|k: int| 0 <= k < a.args@.len() ==> same_expr(#[trigger] a.args@[k], b.args@[k])
}

/// Each item from the `k`-th on, preceded by `, `.
spec fn tail_text(items: Seq<Seq<char>>, k: int) -> Seq<char>
    decreases items.len() - k,
{
    if k >= items.len() || k < 0 {
        Seq::empty()
    } else {
        seq![',', ' '] + items[k] + tail_text(items, k + 1)
    }
}

proof fn lemma_join_split(items: Seq<Seq<char>>, m: int)
    requires
        0 <= m <= items.len(),
    ensures
        join(items.take(m)) + tail_text(items, m) == join(items),
    decreases items.len() - m,
{
    if m == items.len() {
        assert(items.take(m) =~= items);
        assert(join(items.take(m)) + tail_text(items, m) =~= join(items));
    } else {
        lemma_join_split(items, m + 1);
        assert(items.take(m + 1).drop_last() =~= items.take(m));
        assert(items.take(m + 1).last() == items[m]);
        assert(join(items.take(m)) + tail_text(items, m) =~= join(items.take(m + 1)) + tail_text(items, m + 1));
    }
}

proof fn lemma_expr_chars(e: FieldExpr)
    requires
        wf_expr(e),
    ensures
        forall|i: int| 0 <= i < expr_text(e).len() ==> {
            let c = #[trigger] expr_text(e)[i];
            c != ',' && c != '"' && c != ' '
        },
{
}

proof fn lemma_expr_unique(a: FieldExpr, b: FieldExpr)
    requires
        wf_expr(a),
        wf_expr(b),
        expr_text(a) == expr_text(b),
    ensures
        same_expr(a, b),
{
    let t = expr_text(a);
    let fa = a.field@.len();
    let fb = b.field@.len();
    if fa < fb {
        assert(t[fa as int] == b.field@[fa as int]);
        assert(is_ident_char(b.field@[fa as int]));
        match a.call {
            Some(c) => {
                assert(t[fa as int] == '.');
            },
            None => {},
        }
        assert(false);
    }
    if fb < fa {
        assert(t[fb as int] == a.field@[fb as int]);
        assert(is_ident_char(a.field@[fb as int]));
        match b.call {
            Some(c) => {
                assert(t[fb as int] == '.');
            },
            None => {},
        }
        assert(false);
    }
    assert(a.field@ =~= t.take(fa as int));
    assert(b.field@ =~= t.take(fb as int));
    match (a.call, b.call) {
        (Some(x), Some(y)) => {
            assert(x@ =~= t.subrange(fa + 1 as int, t.len() - 2));
            assert(y@ =~= t.subrange(fb + 1 as int, t.len() - 2));
        },
        _ => {},
    }
}

fn ident_char(c: char) -> (r: bool)
    ensures
        r == is_ident_char(c),
{
    ('a' <= c && c <= 'z') || ('A' <= c && c <= 'Z') || ('0' <= c && c <= '9') || c == '_'
}

/// The end of the run of identifier characters of `s` from `from`, up to `to`.
fn ident_end(s: &str, from: usize, to: usize) -> (r: usize)
    requires
        from <= to <= s@.len(),
    ensures
        from <= r <= to,
        forall|i: int| from <= i < r ==> is_ident_char(#[trigger] s@[i]),
        r < to ==> !is_ident_char(s@[r as int]),
{
    let mut i = from;
    while i < to && ident_char(s.get_char(i))
        invariant
            from <= i <= to <= s@.len(),
            forall|j: int| from <= j < i ==> is_ident_char(#[trigger] s@[j]),
        decreases to - i,
    {
        i = i + 1;
    }
    i
}

/// The first position of `c` in `s` from `from`, or `to` when there is none
/// before it.
fn find_char(s: &str, c: char, from: usize, to: usize) -> (r: usize)
    requires
        from <= to <= s@.len(),
    ensures
        from <= r <= to,
        forall|i: int| from <= i < r ==> #[trigger] s@[i] != c,
        r < to ==> s@[r as int] == c,
{
    let mut i = from;
    while i < to && s.get_char(i) != c
        invariant
            from <= i <= to <= s@.len(),
            forall|j: int| from <= j < i ==> #[trigger] s@[j] != c,
        decreases to - i,
    {
        i = i + 1;
    }
    i
}

/// Parses the field expression written in `s` between `lo` and `hi`.
fn parse_expr(s: &str, lo: usize, hi: usize) -> (r: Option<FieldExpr>)
    requires
        lo <= hi <= s@.len(),
    ensures
        r matches Some(e) ==> wf_expr(e) && expr_text(e) == s@.subrange(lo as int, hi as int),
        (exists|e: FieldExpr| wf_expr(e) && expr_text(e) == s@.subrange(lo as int, hi as int)) ==> r is Some,
{
    let ghost sub = s@.subrange(lo as int, hi as int);
    let ghost has = exists|e: FieldExpr| wf_expr(e) && expr_text(e) == sub;
    let ghost w = choose|e: FieldExpr| wf_expr(e) && expr_text(e) == sub;
    let d = ident_end(s, lo, hi);
    proof {
        if has {
            let fw = w.field@.len();
            assert(forall|i: int| 0 <= i < fw ==> sub[i] == w.field@[i]);
            assert(forall|i: int| 0 <= i < fw ==> is_ident_char(#[trigger] w.field@[i]));
            if d < lo + fw {
                assert(sub[d - lo] == s@[d as int]);
                assert(false);
            }
            if d > lo + fw {
                assert(sub[fw as int] == '.');
                assert(sub[fw as int] == s@[lo + fw]);
                assert(false);
            }
        }
        assert(has ==> d == lo + w.field@.len());
    }
    if d == lo {
        return None;
    }
    let field = String::from_str(s.substring_char(lo, d));
    if d == hi {
        let e = FieldExpr { field, call: None };
        proof {
            assert(e.field@ =~= sub);
        }
        return Some(e);
    }
    if hi - d < 4 || s.get_char(d) != '.' || s.get_char(hi - 2) != '(' || s.get_char(hi - 1) != ')' {
        proof {
            if has {
                assert(w.call is Some);
                assert(sub[(d - lo) as int] == s@[d as int]);
                assert(sub[sub.len() - 2] == s@[hi - 2]);
                assert(sub[sub.len() - 1] == s@[hi - 1]);
            }
        }
        return None;
    }
    let k = ident_end(s, d + 1, hi - 2);
    if k == d + 1 || k < hi - 2 {
        proof {
            if has {
                let c = w.call->Some_0;
                assert(sub.len() == hi - lo);
                assert(expr_text(w).len() == w.field@.len() + 1 + c@.len() + 2);
                assert(c@.len() == hi - 2 - (d + 1));
                assert(forall|i: int| 0 <= i < c@.len() ==> sub[(d - lo) + 1 + i] == c@[i]);
                if k < hi - 2 {
                    assert(sub[(k - lo) as int] == s@[k as int]);
                    assert(sub[(k - lo) as int] == c@[k - d - 1]);
                }
            }
        }
        return None;
    }
    let call = String::from_str(s.substring_char(d + 1, hi - 2));
    let e = FieldExpr { field, call: Some(call) };
    proof {
        assert(expr_text(e) =~= sub);
    }
    Some(e)
}

spec fn count_after(acc: nat, rest: Option<nat>) -> Option<nat> {
    match rest {
        Some(m) => Some(acc + m),
        None => None,
    }
}

/// The number of `{}` placeholders of a literal; none when a brace stands
/// alone.
pub fn count_placeholders(s: &str) -> (r: Option<usize>)
    ensures
        r matches Some(n) ==> placeholder_count(s@) == Some(n as nat),
        r is None ==> placeholder_count(s@) is None,
{
    let n = s.unicode_len();
    let mut i: usize = 0;
    let mut acc: usize = 0;
    proof {
        assert(s@.skip(0) =~= s@);
    }
    while i < n
        invariant
            n == s@.len(),
            i <= n,
            acc <= i,
            placeholder_count(s@) == count_after(acc as nat, placeholder_count(s@.skip(i as int))),
        decreases n - i,
    {
        let ghost rest = s@.skip(i as int);
        let c = s.get_char(i);
        assert(rest[0] == c);
        if c == '{' || c == '}' {
            if i + 1 < n && c == '{' && s.get_char(i + 1) == '}' {
                assert(rest.skip(2) =~= s@.skip(i + 2));
                assert(rest[1] == s@[i + 1]);
                acc = acc + 1;
            } else if i + 1 < n && s.get_char(i + 1) == c {
                assert(rest.skip(2) =~= s@.skip(i + 2));
                assert(rest[1] == s@[i + 1]);
            } else {
                proof {
                    if i + 1 < n {
                        assert(rest[1] == s@[i + 1]);
                    }
                }
                return None;
            }
            i = i + 2;
        } else {
            assert(rest.skip(1) =~= s@.skip(i + 1));
            i = i + 1;
        }
    }
    assert(s@.skip(i as int) =~= Seq::<char>::empty());
    Some(acc)
}

proof fn lemma_join_push(items: Seq<Seq<char>>, x: Seq<char>)
    ensures
        join(items.push(x)) == join(items) + seq![',', ' '] + x,
{
    assert(items.push(x).drop_last() =~= items);
}

proof fn lemma_item_no_comma(e: FieldExpr, quoted: bool)
    requires
        wf_expr(e),
    ensures
        forall|i: int| 0 <= i < item_text(e, quoted).len() ==> #[trigger] item_text(e, quoted)[i] != ',',
        quoted ==> item_text(e, quoted).len() >= 3,
{
    lemma_expr_chars(e);
    let x = expr_text(e);
    if quoted {
        assert forall|i: int| 0 <= i < item_text(e, quoted).len() implies #[trigger] item_text(e, quoted)[i] != ',' by {
            if 0 < i < x.len() + 1 {
                assert(item_text(e, quoted)[i] == x[i - 1]);
            }
        }
    }
}

proof fn lemma_item_split(
    text: Seq<char>,
    p: int,
    hi: int,
    big_w: Seq<Seq<char>>,
    k: int,
    e: FieldExpr,
    quoted: bool,
)
    requires
        0 <= p < hi <= text.len(),
        0 <= k < big_w.len(),
        big_w[k] == item_text(e, quoted),
        wf_expr(e),
        text.subrange(p, hi) == tail_text(big_w, k),
    ensures
        p + 2 + big_w[k].len() <= hi,
        text[p] == ',',
        text[p + 1] == ' ',
        forall|i: int| p + 2 <= i < p + 2 + big_w[k].len() ==> #[trigger] text[i] != ',',
        p + 2 + big_w[k].len() < hi ==> text[p + 2 + big_w[k].len()] == ',',
        text.subrange(p + 2, p + 2 + big_w[k].len()) == big_w[k],
        text.subrange(p + 2 + big_w[k].len(), hi) == tail_text(big_w, k + 1),
{
    let wk = big_w[k];
    let tl = text.subrange(p, hi);
    lemma_item_no_comma(e, quoted);
    assert(tl == seq![',', ' '] + wk + tail_text(big_w, k + 1));
    assert(tl.len() >= 2 + wk.len());
    assert(tl[0] == text[p]);
    assert(tl[1] == text[p + 1]);
    assert forall|i: int| p + 2 <= i < p + 2 + wk.len() implies #[trigger] text[i] != ',' by {
        assert(tl[i - p] == text[i]);
        assert(tl[i - p] == wk[i - p - 2]);
    }
    if p + 2 + wk.len() < hi {
        assert(tail_text(big_w, k + 1).len() > 0);
        assert(tl[2 + wk.len() as int] == text[p + 2 + wk.len()]);
    }
    let rest = tail_text(big_w, k + 1);
    assert forall|i: int| 0 <= i < wk.len() implies text.subrange(p + 2, p + 2 + wk.len())[i] == wk[i] by {
        assert(tl[2 + i] == text[p + 2 + i]);
    }
    assert(text.subrange(p + 2, p + 2 + wk.len()) =~= wk);
    assert forall|i: int| 0 <= i < rest.len() implies text.subrange(p + 2 + wk.len(), hi)[i] == rest[i] by {
        assert(tl[2 + wk.len() + i] == text[p + 2 + wk.len() + i]);
    }
    assert(text.subrange(p + 2 + wk.len(), hi) =~= rest);
}

spec fn comma_free(items: Seq<Seq<char>>) -> bool {
    forall|k: int, i: int| 0 <= k < items.len() && 0 <= i < items[k].len() ==> #[trigger] items[k][i] != ','
}

proof fn lemma_join_injective(a: Seq<Seq<char>>, b: Seq<Seq<char>>)
    requires
        comma_free(a),
        comma_free(b),
        join(a) == join(b),
    ensures
        a == b,
    decreases a.len() + b.len(),
{
    if a.len() == 0 && b.len() == 0 {
        assert(a =~= b);
    } else if a.len() == 0 {
        assert(join(b).len() > 0);
    } else if b.len() == 0 {
        assert(join(a).len() > 0);
    } else {
        let x = a.last();
        let y = b.last();
        let j = join(a);
        let ja = join(a.drop_last());
        let jb = join(b.drop_last());
        assert(j == ja + seq![',', ' '] + x);
        assert(j == jb + seq![',', ' '] + y);
        if x.len() < y.len() {
            let i = j.len() - x.len() - 2;
            assert(j[i] == ',');
            if y.len() == x.len() + 1 {
                assert(j[i] == ' ');
            } else {
                assert(j[i] == y[i - jb.len() - 2]);
                assert(b[b.len() - 1] == y);
            }
            assert(false);
        }
        if y.len() < x.len() {
            let i = j.len() - y.len() - 2;
            assert(j[i] == ',');
            if x.len() == y.len() + 1 {
                assert(j[i] == ' ');
            } else {
                assert(j[i] == x[i - ja.len() - 2]);
                assert(a[a.len() - 1] == x);
            }
            assert(false);
        }
        assert(x =~= j.subrange(j.len() - x.len(), j.len() as int));
        assert(y =~= j.subrange(j.len() - y.len(), j.len() as int));
        assert(ja =~= j.subrange(0, ja.len() as int));
        assert(jb =~= j.subrange(0, jb.len() as int));
        lemma_join_injective(a.drop_last(), b.drop_last());
        assert(a =~= a.drop_last().push(x));
        assert(b =~= b.drop_last().push(y));
    }
}

proof fn lemma_items_comma_free(args: Seq<FieldExpr>, quoted: bool)
    requires
        forall|k: int| 0 <= k < args.len() ==> wf_expr(#[trigger] args[k]),
    ensures
        comma_free(items_of(args, quoted)),
{
    assert forall|k: int, i: int| 0 <= k < items_of(args, quoted).len() && 0 <= i < items_of(args, quoted)[k].len()
        implies #[trigger] items_of(args, quoted)[k][i] != ',' by {
        lemma_item_no_comma(args[k], quoted);
        assert(items_of(args, quoted)[k] == item_text(args[k], quoted));
    }
}

/// A template's text in a syntax determines the template: two templates
/// written alike in one syntax are equal as values.
pub proof fn lemma_template_text_injective(a: Template, b: Template, syntax: TemplateSyntax)
    requires
        shaped(a),
        shaped(b),
        template_text(a, syntax) == template_text(b, syntax),
    ensures
        same_template(a, b),
{
    let quoted = syntax == TemplateSyntax::Quoted;
    let ia = items_of(a.args@, quoted);
    let ib = items_of(b.args@, quoted);
    let ba = seq!['"'] + a.literal@ + seq!['"'] + join(ia);
    let bb = seq!['"'] + b.literal@ + seq!['"'] + join(ib);
    if syntax == TemplateSyntax::Packed {
        assert(ba =~= template_text(a, syntax).subrange(1, template_text(a, syntax).len() - 1));
        assert(bb =~= template_text(b, syntax).subrange(1, template_text(b, syntax).len() - 1));
    }
    assert(ba == bb);
    let la = a.literal@.len() as int;
    let lb = b.literal@.len() as int;
    if la < lb {
        assert(ba[la + 1] == '"');
        assert(bb[la + 1] == b.literal@[la]);
        assert(b.literal@.contains(b.literal@[la]));
        assert(false);
    }
    if lb < la {
        assert(bb[lb + 1] == '"');
        assert(ba[lb + 1] == a.literal@[lb]);
        assert(a.literal@.contains(a.literal@[lb]));
        assert(false);
    }
    assert(a.literal@ =~= ba.subrange(1, la + 1));
    assert(b.literal@ =~= bb.subrange(1, lb + 1));
    assert(join(ia) =~= ba.subrange(la + 2, ba.len() as int));
    assert(join(ib) =~= bb.subrange(lb + 2, bb.len() as int));
    lemma_items_comma_free(a.args@, quoted);
    lemma_items_comma_free(b.args@, quoted);
    lemma_join_injective(ia, ib);
    assert(ia.len() == ib.len());
    assert forall|k: int| 0 <= k < a.args@.len() implies same_expr(#[trigger] a.args@[k], b.args@[k]) by {
        let ea = a.args@[k];
        let eb = b.args@[k];
        assert(ia[k] == ib[k]);
        if quoted {
            let xa = expr_text(ea);
            let xb = expr_text(eb);
            assert(xa =~= ia[k].subrange(1, ia[k].len() - 1));
            assert(xb =~= ib[k].subrange(1, ib[k].len() - 1));
        }
        lemma_expr_unique(ea, eb);
    }
}

/// Syntax independence: parsing the texts of one template in any two
/// syntaxes gives equal templates.
pub proof fn lemma_syntax_independence(
    m: Template,
    a: Template,
    b: Template,
    s1: TemplateSyntax,
    s2: TemplateSyntax,
)
    requires
        wf_template(m),
        wf_template(a),
        wf_template(b),
        template_text(a, s1) == template_text(m, s1),
        template_text(b, s2) == template_text(m, s2),
    ensures
        same_template(a, b),
{
    lemma_template_text_injective(a, m, s1);
    lemma_template_text_injective(b, m, s2);
    assert forall|k: int| 0 <= k < a.args@.len() implies same_expr(#[trigger] a.args@[k], b.args@[k]) by {
        assert(same_expr(a.args@[k], m.args@[k]));
        assert(same_expr(b.args@[k], m.args@[k]));
    }
}

/// Parses a display template written in `syntax`.
#[verifier::rlimit(100)]
pub fn parse_template(syntax: TemplateSyntax, text: &str) -> (r: Result<Template, TemplateError>)
    ensures
        r matches Ok(t) ==> wf_template(t) && template_text(t, syntax) == text@,
        r matches Err(e) ==> e.syntax == syntax,
        r matches Err(e) ==> (e.fault == TemplateFault::PlaceholderMismatch <==> exists|t: Template|
            shaped(t) && template_text(t, syntax) == text@),
        (exists|t: Template| wf_template(t) && template_text(t, syntax) == text@) ==> r is Ok,
        forall|t: Template| wf_template(t) && #[trigger] template_text(t, syntax) == text@ ==> (r matches Ok(a)
            && same_template(a, t)),
{
    let malformed = TemplateError { syntax, fault: TemplateFault::Malformed };
    let ghost has_wf = exists|t: Template| wf_template(t) && template_text(t, syntax) == text@;
    let ghost has = exists|t: Template| shaped(t) && template_text(t, syntax) == text@;
    let ghost w = if has_wf {
        choose|t: Template| wf_template(t) && template_text(t, syntax) == text@
    } else {
        choose|t: Template| shaped(t) && template_text(t, syntax) == text@
    };
    let quoted = syntax == TemplateSyntax::Quoted;
    let ghost big_w = items_of(w.args@, quoted);
    let ghost wbody = seq!['"'] + w.literal@ + seq!['"'] + join(big_w);
    let n = text.unicode_len();
    let lo: usize;
    let hi: usize;
    if syntax == TemplateSyntax::Packed {
        if n < 2 || text.get_char(0) != '(' || text.get_char(n - 1) != ')' {
            return Err(malformed);
        }
        lo = 1;
        hi = n - 1;
    } else {
        lo = 0;
        hi = n;
    }
    proof {
        if has {
            if syntax == TemplateSyntax::Packed {
                assert(text@.subrange(lo as int, hi as int) =~= wbody);
            } else {
                assert(text@.subrange(lo as int, hi as int) =~= wbody);
            }
        }
    }
    if hi - lo < 2 || text.get_char(lo) != '"' {
        proof {
            if has {
                assert(wbody[0] == text@[lo as int]);
            }
        }
        return Err(malformed);
    }
    let j = find_char(text, '"', lo + 1, hi);
    proof {
        if has {
            let ll = w.literal@.len() as int;
            assert(wbody[ll + 1] == '"');
            assert(forall|i: int| 1 <= i < ll + 1 ==> wbody[i] == w.literal@[i - 1]);
            if j < lo + 1 + ll {
                assert(wbody[j - lo] == text@[j as int]);
                assert(w.literal@.contains(w.literal@[j - lo - 1]));
                assert(false);
            }
            assert(text@[lo + 1 + ll] == wbody[ll + 1]);
            assert(j == lo + 1 + ll);
        }
    }
    if j == hi {
        return Err(malformed);
    }
    let literal = String::from_str(text.substring_char(lo + 1, j));
    let mut args: Vec<FieldExpr> = Vec::new();
    let mut p = j + 1;
    proof {
        assert(literal@ == text@.subrange(lo + 1, j as int));
        if has {
            assert(literal@ =~= w.literal@);
            lemma_join_split(big_w, 0);
            assert(big_w.take(0) =~= Seq::<Seq<char>>::empty());
            assert(text@.subrange(p as int, hi as int) =~= join(big_w));
        }
        assert(text@.subrange(lo as int, p as int) =~= seq!['"'] + literal@ + seq!['"'] + join(items_of(args@, quoted)));
    }
    while p < hi
        invariant
            lo < p <= hi <= n == text@.len(),
            quoted == (syntax == TemplateSyntax::Quoted),
            big_w == items_of(w.args@, quoted),
            text@.subrange(lo as int, p as int) == seq!['"'] + literal@ + seq!['"'] + join(items_of(args@, quoted)),
            forall|k: int| 0 <= k < args@.len() ==> wf_expr(#[trigger] args@[k]),
            malformed == (TemplateError { syntax, fault: TemplateFault::Malformed }),
            has == exists|t: Template| shaped(t) && template_text(t, syntax) == text@,
            has_wf == exists|t: Template| wf_template(t) && template_text(t, syntax) == text@,
            has_wf ==> wf_template(w),
            has ==> template_text(w, syntax) == text@,
            has ==> shaped(w) && literal@ == w.literal@ && args@.len() <= big_w.len()
                && text@.subrange(p as int, hi as int) == tail_text(big_w, args@.len() as int),
        decreases hi - p,
    {
        let ghost k = args@.len() as int;
        proof {
            if has {
                if k >= big_w.len() {
                    assert(text@.subrange(p as int, hi as int).len() == 0);
                }
                lemma_item_split(text@, p as int, hi as int, big_w, k, w.args@[k], quoted);
            }
        }
        if hi - p < 2 || text.get_char(p) != ',' || text.get_char(p + 1) != ' ' {
            return Err(malformed);
        }
        let q = find_char(text, ',', p + 2, hi);
        proof {
            if has {
                let wk = big_w[k];
                if q < p + 2 + wk.len() {
                    assert(text@[q as int] == text@.subrange(p + 2, p + 2 + wk.len())[q - p - 2]);
                    assert(false);
                }
                assert(q == p + 2 + wk.len());
            }
        }
        let parsed = if quoted {
            if q - (p + 2) < 2 || text.get_char(p + 2) != '"' || text.get_char(q - 1) != '"' {
                proof {
                    if has {
                        let wk = big_w[k];
                        assert(wk[0] == text@[p + 2]);
                        assert(wk[wk.len() - 1] == text@[q - 1]);
                    }
                }
                return Err(malformed);
            }
            proof {
                if has {
                    let ex = expr_text(w.args@[k]);
                    let item = text@.subrange(p + 2, q as int);
                    assert forall|i: int| 0 <= i < ex.len() implies text@.subrange(p + 3, q - 1)[i] == ex[i] by {
                        assert(item[1 + i] == text@[p + 3 + i]);
                        assert(item[1 + i] == big_w[k][1 + i]);
                    }
                    assert(text@.subrange(p + 3, q - 1) =~= ex);
                }
            }
            parse_expr(text, p + 3, q - 1)
        } else {
            parse_expr(text, p + 2, q)
        };
        let e = match parsed {
            Some(e) => e,
            None => {
                return Err(malformed);
            },
        };
        proof {
            if quoted {
                assert(text@.subrange(p + 2, q as int) =~= item_text(e, quoted));
            } else {
                assert(text@.subrange(p + 2, q as int) =~= item_text(e, quoted));
            }
        }
        let ghost prev = args@;
        args.push(e);
        proof {
            assert(items_of(args@, quoted) =~= items_of(prev, quoted).push(item_text(e, quoted)));
            lemma_join_push(items_of(prev, quoted), item_text(e, quoted));
            assert(text@.subrange(lo as int, q as int) =~= text@.subrange(lo as int, p as int) + seq![',', ' ']
                + text@.subrange(p + 2, q as int));
        }
        p = q;
    }
    let t = Template { literal, args };
    proof {
        if has {
            if (t.args@.len() as int) < big_w.len() {
                assert(tail_text(big_w, t.args@.len() as int).len() > 0);
            }
        }
        assert(text@.subrange(lo as int, hi as int) == text@.subrange(lo as int, p as int));
        assert(!t.literal@.contains('"')) by {
            if t.literal@.contains('"') {
                let i = choose|i: int| 0 <= i < t.literal@.len() && t.literal@[i] == '"';
                assert(t.literal@[i] == text@[lo + 1 + i]);
            }
        }
        if syntax == TemplateSyntax::Packed {
            assert(template_text(t, syntax) =~= text@);
        } else {
            assert(template_text(t, syntax) =~= text@.subrange(lo as int, hi as int));
            assert(text@.subrange(lo as int, hi as int) =~= text@);
        }
        assert(shaped(t));
    }
    proof {
        assert forall|u: Template| wf_template(u) && #[trigger] template_text(u, syntax) == text@
            implies same_template(t, u) by {
            lemma_template_text_injective(t, u, syntax);
        }
    }
    match count_placeholders(t.literal.as_str()) {
        Some(c) => {
            if c == t.args.len() {
                Ok(t)
            } else {
                Err(TemplateError { syntax, fault: TemplateFault::PlaceholderMismatch })
            }
        },
        None => Err(TemplateError { syntax, fault: TemplateFault::PlaceholderMismatch }),
    }
}

} // verus!
