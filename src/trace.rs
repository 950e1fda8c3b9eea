use vstd::prelude::*;

verus! {

/// One resolved symbol of a stack frame.
#[derive(Debug, Clone, PartialEq, Eq)]
pub struct Symbol {
    /// The symbol's display name, when it is known.
    pub name: Option<String>,
    /// The source file that the symbol comes from, when it is known.
    pub file: Option<String>,
    /// The line in that file, when it is known.
    pub line: Option<u32>,
}

/// One frame of a captured stack, with the symbols resolved for it.
#[derive(Debug, Clone, PartialEq, Eq)]
pub struct Frame {
    pub symbols: Vec<Symbol>,
}

/// A backtrace starting from the beginning of the thread.
#[derive(Debug)]
pub struct Backtrace {
    frames: Vec<Frame>,
}

/// Decimal digit `d` as a character.
pub open spec fn digit_char(d: nat) -> char {
    if d == 0 { '0' }
    else if d == 1 { '1' }
    else if d == 2 { '2' }
    else if d == 3 { '3' }
    else if d == 4 { '4' }
    else if d == 5 { '5' }
    else if d == 6 { '6' }
    else if d == 7 { '7' }
    else if d == 8 { '8' }
    else { '9' }
}

/// The number of decimal digits of `n` (one for zero).
pub open spec fn digits(n: nat) -> nat
    decreases n,
{
    if n < 10 { 1 } else { 1 + digits(n / 10) }
}

/// The decimal text of `n`, without leading zeros.
pub open spec fn decimal(n: nat) -> Seq<char>
    decreases n,
{
    if n < 10 { seq![digit_char(n)] } else { decimal(n / 10).push(digit_char(n % 10)) }
}

/// `k` spaces.
pub open spec fn spaces(k: nat) -> Seq<char> {
    Seq::new(k, |i: int| ' ')
}

/// `s` right-aligned in a column of `w` characters.
pub open spec fn pad_left(s: Seq<char>, w: nat) -> Seq<char> {
    if s.len() >= w { s } else { spaces((w - s.len()) as nat) + s }
}

/// How a symbol's name is shown.
pub open spec fn name_text(sym: Symbol) -> Seq<char> {
    match sym.name {
        Some(n) => n@,
        None => "<unknown>"@,
    }
}

/// How a symbol's location is shown: the file, then `:line` when the line
/// is known. No location without a file.
pub open spec fn location_text(sym: Symbol) -> Option<Seq<char>> {
    match sym.file {
        Some(f) => Some(
            match sym.line {
                Some(l) => f@ + ":"@ + decimal(l as nat),
                None => f@,
            },
        ),
        None => None,
    }
}

/// The lines of one symbol: the index column `col`, the name, then the
/// location under a blank column of width `w` when there is one.
pub open spec fn symbol_text(sym: Symbol, col: Seq<char>, w: nat) -> Seq<char> {
    let head = col + " "@ + name_text(sym) + "\n"@;
    match location_text(sym) {
        Some(loc) => head + spaces(w) + " "@ + loc + "\n"@,
        None => head,
    }
}

/// The index column of the `j`-th symbol of frame `index`: the index on the
/// first symbol, blank on the others.
pub open spec fn index_column(index: nat, j: nat, w: nat) -> Seq<char> {
    if j == 0 { pad_left(decimal(index), w) } else { spaces(w) }
}

/// The lines of the first `k` symbols of frame `index`.
pub open spec fn frame_text(syms: Seq<Symbol>, index: nat, w: nat, k: nat) -> Seq<char>
    decreases k,
{
    if k == 0 {
        Seq::empty()
    } else {
        frame_text(syms, index, w, (k - 1) as nat) + symbol_text(
            syms[k - 1],
            index_column(index, (k - 1) as nat, w),
            w,
        )
    }
}

/// The lines of the first `k` frames, with an index column of width `w`.
pub open spec fn frames_text(frames: Seq<Frame>, w: nat, k: nat) -> Seq<char>
    decreases k,
{
    if k == 0 {
        Seq::empty()
    } else {
        frames_text(frames, w, (k - 1) as nat) + frame_text(
            frames[k - 1].symbols@,
            (k - 1) as nat,
            w,
            frames[k - 1].symbols@.len(),
        )
    }
}

/// The rendering of a whole backtrace: the index column is as wide as the
/// frame count has digits.
pub open spec fn render_text(frames: Seq<Frame>) -> Seq<char> {
    frames_text(frames, digits(frames.len()), frames.len())
}

proof fn lemma_decimal_len(n: nat)
    ensures
        decimal(n).len() == digits(n),
    decreases n,
{
    if n >= 10 {
        lemma_decimal_len(n / 10);
    }
}

proof fn lemma_digits_le(n: nat)
    requires
        n >= 1,
    ensures
        digits(n) <= n,
    decreases n,
{
    if n >= 10 {
        lemma_digits_le(n / 10);
    }
}

/// The number of decimal digits of `n`: the width of the index column of a
/// backtrace with `n` frames.
pub fn index_width(n: usize) -> (r: usize)
    ensures
        r == digits(n as nat),
{
    let mut w: usize = 1;
    let mut m: usize = n;
    while m >= 10
        invariant
            w as nat + digits(m as nat) == digits(n as nat) + 1,
            m <= n,
        decreases m,
    {
        proof {
            lemma_digits_le(n as nat);
            assert(digits(m as nat) == 1 + digits((m / 10) as nat));
        }
        m = m / 10;
        w = w + 1;
    }
    w
}

fn digit_str(d: usize) -> (r: &'static str)
    requires
        d < 10,
    ensures
        r@ == seq![digit_char(d as nat)],
{
    if d == 0 {
        proof { reveal_strlit("0"); }
        "0"
    } else if d == 1 {
        proof { reveal_strlit("1"); }
        "1"
    } else if d == 2 {
        proof { reveal_strlit("2"); }
        "2"
    } else if d == 3 {
        proof { reveal_strlit("3"); }
        "3"
    } else if d == 4 {
        proof { reveal_strlit("4"); }
        "4"
    } else if d == 5 {
        proof { reveal_strlit("5"); }
        "5"
    } else if d == 6 {
        proof { reveal_strlit("6"); }
        "6"
    } else if d == 7 {
        proof { reveal_strlit("7"); }
        "7"
    } else if d == 8 {
        proof { reveal_strlit("8"); }
        "8"
    } else {
        proof { reveal_strlit("9"); }
        "9"
    }
}

/// The decimal text of `n`.
pub fn decimal_string(n: usize) -> (r: String)
    ensures
        r@ == decimal(n as nat),
    decreases n,
{
    if n < 10 {
        String::from_str(digit_str(n))
    } else {
        let mut s = decimal_string(n / 10);
        s.append(digit_str(n % 10));
        s
    }
}

/// A string of `k` spaces.
pub fn spaces_string(k: usize) -> (r: String)
    ensures
        r@ == spaces(k as nat),
{
    let mut s = String::new();
    let mut i: usize = 0;
    while i < k
        invariant
            i <= k,
            s@ == spaces(i as nat),
        decreases k - i,
    {
        proof { reveal_strlit(" "); }
        s.append(" ");
        i = i + 1;
        assert(s@ =~= spaces(i as nat));
    }
    s
}

/// `decimal(n)` right-aligned in a column of `w` characters.
pub fn padded_decimal(n: usize, w: usize) -> (r: String)
    ensures
        r@ == pad_left(decimal(n as nat), w as nat),
{
    let d = decimal_string(n);
    let len = index_width(n);
    proof { lemma_decimal_len(n as nat); }
    if len >= w {
        d
    } else {
        let mut s = spaces_string(w - len);
        s.append(d.as_str());
        s
    }
}

/// How a symbol's name is shown: the name, or `<unknown>`.
pub fn symbol_name(sym: &Symbol) -> (r: String)
    ensures
        r@ == name_text(*sym),
{
    match &sym.name {
        Some(n) => n.clone(),
        None => String::from_str("<unknown>"),
    }
}

/// How a symbol's location is shown, when it has a file.
pub fn symbol_location(sym: &Symbol) -> (r: Option<String>)
    ensures
        r matches Some(s) ==> location_text(*sym) == Some(s@),
        r is None <==> location_text(*sym) is None,
{
    match &sym.file {
        Some(f) => {
            let mut s = f.clone();
            match sym.line {
                Some(l) => {
                    s.append(":");
                    let d = decimal_string(l as usize);
                    s.append(d.as_str());
                },
                None => {},
            }
            Some(s)
        },
        None => None,
    }
}

/// Appends the lines of one symbol under the index column `col`.
fn append_symbol(out: &mut String, sym: &Symbol, col: &String, w: usize)
    ensures
        final(out)@ == old(out)@ + symbol_text(*sym, col@, w as nat),
{
    out.append(col.as_str());
    out.append(" ");
    let name = symbol_name(sym);
    out.append(name.as_str());
    out.append("\n");
    match symbol_location(sym) {
        Some(loc) => {
            let blank = spaces_string(w);
            out.append(blank.as_str());
            out.append(" ");
            out.append(loc.as_str());
            out.append("\n");
        },
        None => {},
    }
    assert(final(out)@ =~= old(out)@ + symbol_text(*sym, col@, w as nat));
}

/// Renders frames as text, one line per symbol with its index column,
/// and one more under it for each known location. A frame without symbols
/// gives no line.
pub fn render_frames(frames: &Vec<Frame>) -> (r: String)
    ensures
        r@ == render_text(frames@),
{
    let w = index_width(frames.len());
    let mut out = String::new();
    let mut i: usize = 0;
    while i < frames.len()
        invariant
            i <= frames.len(),
            w == digits(frames@.len()),
            out@ == frames_text(frames@, w as nat, i as nat),
        decreases frames.len() - i,
    {
        let syms = &frames[i].symbols;
        let ghost before = out@;
        let mut j: usize = 0;
        while j < syms.len()
            invariant
                j <= syms.len(),
                syms == frames@[i as int].symbols,
                out@ == before + frame_text(syms@, i as nat, w as nat, j as nat),
            decreases syms.len() - j,
        {
            let col = if j == 0 {
                padded_decimal(i, w)
            } else {
                spaces_string(w)
            };
            append_symbol(&mut out, &syms[j], &col, w);
            assert(out@ =~= before + frame_text(syms@, i as nat, w as nat, (j + 1) as nat));
            j = j + 1;
        }
        i = i + 1;
    }
    out
}

/// Relies on backtrace::Backtrace::new, which records the calling thread's
/// stack and resolves the symbols of each frame; each symbol is carried over
/// with the display form of its name (demangled by the crate), its file path
/// and its line number. What it holds depends on the running program, so
/// nothing is stated of it.
#[verifier::external_body]
#[inline(always)]
fn capture_frames() -> (r: Vec<Frame>) {
    backtrace::Backtrace::new().frames().iter().map(|f| Frame {
        symbols: f.symbols().iter().map(|s| Symbol {
            name: s.name().map(|n| format!("{}", n)),
            file: s.filename().map(|p| format!("{}", p.display())),
            line: s.lineno(),
        }).collect(),
    }).collect()
}

impl View for Backtrace {
    type V = Seq<Frame>;

    /// The frames, innermost first.
    closed spec fn view(&self) -> Seq<Frame> {
        self.frames@
    }
}

impl Backtrace {
    /// Captures the backtrace of the calling thread.
    #[inline(always)]
    pub fn new() -> (r: Self) {
        Backtrace { frames: capture_frames() }
    }

    /// A backtrace made of the given frames.
    pub fn from_frames(frames: Vec<Frame>) -> (r: Self)
        ensures
            r@ == frames@,
    {
        Backtrace { frames }
    }

    /// The captured frames, innermost first.
    pub fn frames(&self) -> (r: &Vec<Frame>)
        ensures
            r@ == self@,
    {
        &self.frames
    }

    /// The backtrace as text: one line per resolved symbol, the frame's
    /// index right-aligned on its first symbol, and a line with the source
    /// location under each symbol that has one.
    pub fn to_string(&self) -> (r: String)
        ensures
            r@ == render_text(self@),
    {
        render_frames(&self.frames)
    }
}

impl Default for Backtrace {
    #[inline(always)]
    fn default() -> (r: Self) {
        Self::new()
    }
}

} // verus!
