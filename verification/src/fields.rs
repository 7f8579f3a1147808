//! Field-code substitution: every occurrence of `%f`, `%F`, `%u` or `%U` in
//! a command template is replaced by a caller-supplied value.

use vstd::prelude::*;
use vstd::string::StrSliceExecFns;
use vstd::string::StringExecFns;

verus! {

/// The two characters of a field code: `%` followed by `f`, `F`, `u` or `U`.
pub open spec fn is_field_code(a: char, b: char) -> bool {
    a == '%' && (b == 'f' || b == 'F' || b == 'u' || b == 'U')
}

/// The template with every field code replaced by `arg`, scanned left to
/// right; all other characters are preserved.
pub open spec fn subst(t: Seq<char>, arg: Seq<char>) -> Seq<char>
    decreases t.len(),
{
    if t.len() >= 2 && is_field_code(t[0], t[1]) {
        arg + subst(t.skip(2), arg)
    } else if t.len() >= 1 {
        seq![t[0]] + subst(t.skip(1), arg)
    } else {
        Seq::<char>::empty()
    }
}

/// Replace every field code of `template` by `arg`, proved against `subst`.
pub fn substitute(template: &str, arg: &str) -> (r: String)
    ensures
        r@ == subst(template@, arg@),
{
    let n = template.unicode_len();
    let mut out = String::new();
    let mut i: usize = 0;
    proof {
        assert(template@.skip(0) =~= template@);
    }
    while i < n
        invariant
            n == template@.len(),
            i <= n,
            subst(template@, arg@) == out@ + subst(template@.skip(i as int), arg@),
        decreases n - i,
    {
        let ghost rest = template@.skip(i as int);
        proof {
            assert(rest[0] == template@[i as int]);
            if i + 1 < n {
                assert(rest[1] == template@[i as int + 1]);
            }
            assert(rest.skip(1) =~= template@.skip(i as int + 1));
            if i + 2 <= n {
                assert(rest.skip(2) =~= template@.skip(i as int + 2));
            }
        }
        let c = template.get_char(i);
        let mut code = false;
        if c == '%' && i + 1 < n {
            let d = template.get_char(i + 1);
            if d == 'f' || d == 'F' || d == 'u' || d == 'U' {
                code = true;
            }
        }
        if code {
            out.append(arg);
            i = i + 2;
        } else {
            let piece = template.substring_char(i, i + 1);
            proof {
                assert(piece@ =~= seq![template@[i as int]]);
            }
            out.append(piece);
            i = i + 1;
        }
    }
    proof {
        assert(template@.skip(n as int) =~= Seq::<char>::empty());
    }
    out
}

} // verus!
