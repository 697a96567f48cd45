//! Small verified building blocks for assembling the target-language
//! expression text: decimal rendering, list joining, and the expression
//! value that production rules pass around.

use vstd::prelude::*;

verus! {

/// Ghost value of one translated expression: its text, plus whether the last
/// applied modifier was the `nullable` wrapper.
#[verifier::ext_equal]
pub struct ExprS {
    pub text: Seq<char>,
    pub nullable: bool,
}

/// One translated expression.  The `nullable` wrapper is tracked as a flag
/// rather than spliced into the text at once, so that an enclosing object
/// rule can collapse `nullable` + `optional` into a single `nullish`
/// wrapper.
pub struct Expr {
    pub text: String,
    pub nullable: bool,
}

impl View for Expr {
    type V = ExprS;

    open spec fn view(&self) -> ExprS {
        ExprS { text: self.text@, nullable: self.nullable }
    }
}

/// The rendered text of an expression: its body, followed by the `nullable`
/// modifier when the flag is set.
pub open spec fn render(e: ExprS) -> Seq<char> {
    if e.nullable {
        e.text + ".nullable()"@
    } else {
        e.text
    }
}

impl Expr {
    /// An expression with no pending modifier.
    pub(crate) fn plain(text: String) -> (e: Expr)
        ensures
            e@ == (ExprS { text: text@, nullable: false }),
    {
        Expr { text, nullable: false }
    }

    /// Render into a plain string, appending the pending `nullable` modifier.
    pub(crate) fn into_rendered(self) -> (r: String)
        ensures
            r@ == render(self@),
    {
        if self.nullable {
            let mut t = self.text;
            t.append(".nullable()");
            t
        } else {
            self.text
        }
    }
}

/// Relies on `str` equality: slices are equal exactly when they hold the
/// same characters.
#[verifier::external_body]
pub(crate) fn str_eq(a: &str, b: &str) -> (r: bool)
    ensures
        r == (a@ == b@),
{
    a == b
}

/// Relies on `String::push`: appends the given character to the end of the
/// string.
#[verifier::external_body]
pub(crate) fn push_char(s: &mut String, c: char)
    ensures
        final(s)@ == old(s)@.push(c),
{
    s.push(c);
}

/// The decimal digit character of a value below ten.
pub open spec fn dec_digit(n: nat) -> char {
    if n == 0 {
        '0'
    } else if n == 1 {
        '1'
    } else if n == 2 {
        '2'
    } else if n == 3 {
        '3'
    } else if n == 4 {
        '4'
    } else if n == 5 {
        '5'
    } else if n == 6 {
        '6'
    } else if n == 7 {
        '7'
    } else if n == 8 {
        '8'
    } else {
        '9'
    }
}

/// The canonical decimal rendering of a natural number.
pub open spec fn dec_seq(n: nat) -> Seq<char>
    decreases n,
{
    if n < 10 {
        seq![dec_digit(n)]
    } else {
        dec_seq(n / 10).push(dec_digit(n % 10))
    }
}

/// The decimal digit character of a value below ten.
fn dec_digit_exec(n: u32) -> (c: char)
    requires
        n < 10,
    ensures
        c == dec_digit(n as nat),
{
    match n {
        0 => '0',
        1 => '1',
        2 => '2',
        3 => '3',
        4 => '4',
        5 => '5',
        6 => '6',
        7 => '7',
        8 => '8',
        _ => '9',
    }
}

/// Render a number in canonical decimal form.
pub(crate) fn u32_dec(n: u32) -> (r: String)
    ensures
        r@ == dec_seq(n as nat),
    decreases n,
{
    if n < 10 {
        let mut s = String::new();
        push_char(&mut s, dec_digit_exec(n));
        proof {
            assert(s@ =~= seq![dec_digit(n as nat)]);
        }
        s
    } else {
        let mut s = u32_dec(n / 10);
        push_char(&mut s, dec_digit_exec(n % 10));
        proof {
            assert(s@ =~= dec_seq((n / 10) as nat).push(dec_digit((n % 10) as nat)));
        }
        s
    }
}

/// The views of a sequence of strings.
pub open spec fn views_of(parts: Seq<String>) -> Seq<Seq<char>> {
    parts.map_values(|s: String| s@)
}

/// The given pieces joined by the separator.
pub open spec fn join_with(parts: Seq<Seq<char>>, sep: Seq<char>) -> Seq<char>
    decreases parts.len(),
{
    if parts.len() == 0 {
        Seq::empty()
    } else if parts.len() == 1 {
        parts[0]
    } else {
        join_with(parts.drop_last(), sep) + sep + parts.last()
    }
}

/// Join the given strings with the separator.
pub(crate) fn join_strings(parts: &Vec<String>, sep: &str) -> (r: String)
    ensures
        r@ == join_with(views_of(parts@), sep@),
{
    let ghost pv = views_of(parts@);
    let mut out = String::new();
    let n = parts.len();
    assert(out@ =~= join_with(pv.take(0), sep@));
    for i in 0..n
        invariant
            n == parts@.len(),
            pv == views_of(parts@),
            out@ == join_with(pv.take(i as int), sep@),
    {
        if i > 0 {
            out.append(sep);
        }
        out.append(parts[i].as_str());
        proof {
            assert(pv.take(i + 1).drop_last() =~= pv.take(i as int));
            assert(pv.take(i + 1).last() == parts@[i as int]@);
            if i == 0 {
                assert(out@ =~= pv.take(1)[0]);
            } else {
                assert(out@ =~= join_with(pv.take(i as int), sep@) + sep@ + parts@[i as int]@);
            }
        }
    }
    proof {
        assert(pv.take(n as int) =~= pv);
    }
    out
}

/// Whether some string of the sequence has the given characters.
pub open spec fn contains_string(v: Seq<String>, s: Seq<char>) -> bool {
    exists|i: int| 0 <= i < v.len() && v[i]@ == s
}

/// A string occurs in a sequence of strings exactly when its characters
/// occur among their views.
pub proof fn lemma_contains_views(v: Seq<String>, s: Seq<char>)
    ensures
        contains_string(v, s) == views_of(v).contains(s),
{
    if contains_string(v, s) {
        let i = choose|i: int| 0 <= i < v.len() && v[i]@ == s;
        assert(views_of(v)[i] == s);
    }
    if views_of(v).contains(s) {
        let i = choose|i: int| 0 <= i < views_of(v).len() && views_of(v)[i] == s;
        assert(v[i]@ == s);
    }
}

/// Whether some string of the vector equals the given one.
pub(crate) fn vec_contains_string(v: &Vec<String>, s: &String) -> (r: bool)
    ensures
        r == contains_string(v@, s@),
{
    let n = v.len();
    for i in 0..n
        invariant
            n == v@.len(),
            forall|j: int| 0 <= j < i ==> v@[j]@ != s@,
    {
        if v[i] == *s {
            return true;
        }
    }
    false
}

} // verus!
