//! Writing a polynomial as a sum of monomials, highest degree first.

use crate::decimal::{decimal, decimal_string};
use crate::ring::Ring;
use vstd::prelude::*;
use vstd::string::StringExecFns;

verus! {

/// What stands between two terms: a plus sign between two spaces.
pub open spec fn separator() -> Seq<char> {
    seq![' ', '+', ' ']
}

/// One term: the bare coefficient at degree 0, the coefficient and `x` at
/// degree 1, the coefficient, `x^` and the degree in decimal above that.
pub open spec fn term_text<R: Ring>(c: R, degree: nat) -> Seq<char> {
    if degree == 0 {
        c.text_spec()
    } else if degree == 1 {
        c.text_spec() + seq!['x']
    } else {
        c.text_spec() + seq!['x', '^'] + decimal(degree)
    }
}

/// The terms of degree `from` and above whose coefficient is not zero,
/// highest degree first.
pub open spec fn terms_from<R: Ring>(p: Seq<R>, from: nat) -> Seq<Seq<char>>
    decreases p.len() - from,
{
    if from >= p.len() {
        Seq::empty()
    } else if p[from as int] == R::zero_spec() {
        terms_from(p, from + 1)
    } else {
        terms_from(p, from + 1).push(term_text(p[from as int], from))
    }
}

/// The parts one after another, with the separator between any two.
pub open spec fn joined(parts: Seq<Seq<char>>, sep: Seq<char>) -> Seq<char>
    decreases parts.len(),
{
    if parts.len() == 0 {
        Seq::empty()
    } else if parts.len() == 1 {
        parts[0]
    } else {
        joined(parts.drop_last(), sep) + sep + parts.last()
    }
}

/// A polynomial written out: its terms with a coefficient other than zero,
/// highest degree first, joined by ` + `. The zero polynomial is written as
/// the empty text.
pub open spec fn rendering<R: Ring>(p: Seq<R>) -> Seq<char> {
    joined(terms_from(p, 0), separator())
}

/// Writes one term.
pub fn render_term<R: Ring>(c: R, degree: usize) -> (s: String)
    ensures
        s@ == term_text(c, degree as nat),
{
    let mut text: String = c.to_text();
    if degree == 1 {
        proof {
            reveal_strlit("x");
        }
        text.append("x");
    } else if degree >= 2 {
        proof {
            reveal_strlit("x^");
        }
        text.append("x^");
        let exponent: String = decimal_string(degree as u64);
        text.append(exponent.as_str());
    }
    text
}

/// Writes a polynomial as a sum of monomials.
pub fn render<R: Ring>(poly: &[R]) -> (s: String)
    ensures
        s@ == rendering(poly@),
{
    let mut out: String = String::new();
    let mut any: bool = false;
    let mut i: usize = poly.len();
    while i > 0
        invariant
            i <= poly@.len(),
            out@ == joined(terms_from(poly@, i as nat), separator()),
            any == (terms_from(poly@, i as nat).len() > 0),
        decreases i,
    {
        i -= 1;
        let c: R = poly[i];
        if !c.is_zero() {
            let ghost above = terms_from(poly@, (i + 1) as nat);
            if any {
                proof {
                    reveal_strlit(" + ");
                }
                out.append(" + ");
            }
            let term: String = render_term(c, i);
            out.append(term.as_str());
            any = true;
            assert(above.push(term@).drop_last() =~= above);
        }
    }
    out
}

} // verus!
