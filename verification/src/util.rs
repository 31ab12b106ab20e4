use crate::text::to_chars;
use vstd::prelude::*;
use vstd::string::StringSliceAdditionalSpecFns;

verus! {

/// Whether `name` ends with `suffix`.
pub open spec fn ends_with(name: Seq<char>, suffix: Seq<char>) -> bool {
    suffix.len() <= name.len() && name.subrange(name.len() - suffix.len(), name.len() as int)
        == suffix
}

/// Whether a file name is taken in by a pattern. A pattern that begins with
/// `*` takes the names that end with the rest of it; any other pattern takes
/// every name.
pub open spec fn glob_matches(name: Seq<char>, glob: Seq<char>) -> bool {
    if glob.len() > 0 && glob[0] == '*' {
        ends_with(name, glob.drop_first())
    } else {
        true
    }
}

/// Whether a file name is taken in by a pattern such as `*.xml`.
pub fn matches_glob(name: &str, glob: &str) -> (r: bool)
    ensures
        r == glob_matches(name@, glob@),
{
    let g = to_chars(glob);
    if g.len() == 0 || g[0] != '*' {
        return true;
    }
    let n = to_chars(name);
    let m = g.len() - 1;
    if m > n.len() {
        return false;
    }
    let start = n.len() - m;
    let ghost suffix = g@.drop_first();
    let mut i: usize = 0;
    while i < m
        invariant
            i <= m,
            g@ == glob@,
            n@ == name@,
            g.len() > 0 && g@[0] == '*',
            m == g.len() - 1,
            m <= n.len(),
            start == n.len() - m,
            suffix == g@.drop_first(),
            n@.subrange(start as int, start + i) == suffix.take(i as int),
        decreases m - i,
    {
        if n[start + i] != g[i + 1] {
            assert(n@.subrange(start as int, n.len() as int)[i as int] != suffix[i as int]);
            return false;
        }
        assert(n@.subrange(start as int, start + i + 1) =~= n@.subrange(
            start as int,
            start + i,
        ).push(n@[start + i]));
        assert(suffix.take(i + 1) =~= suffix.take(i as int).push(suffix[i as int]));
        i = i + 1;
    }
    assert(suffix.take(m as int) == suffix);
    true
}

/// About how many tokens a text of `bytes` bytes takes: four bytes to a
/// token, the last one begun counted whole.
pub open spec fn approx_tokens(bytes: nat) -> nat {
    (bytes + 3) / 4
}

/// A rough estimate of the tokens in a text, from its length in bytes of UTF-8.
pub fn estimate_tokens_approx(text: &str) -> (r: usize)
    ensures
        r == approx_tokens(text.spec_bytes().len()),
{
    let n = text.as_bytes().len();
    if n % 4 == 0 {
        n / 4
    } else {
        n / 4 + 1
    }
}

} // verus!
