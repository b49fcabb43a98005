//! Expansion of the substitution tokens in an ELF run-path entry.

use vstd::prelude::*;
use vstd::string::*;

verus! {

/// A substitution token that may appear in a run-path entry.
#[derive(Debug, Clone, Copy, PartialEq, Eq, Structural)]
pub enum RunPathToken {
    Origin,
    Lib,
    Platform,
}

/// Why a run-path entry could not be expanded.
#[derive(Debug, Clone, Copy, PartialEq, Eq, Structural)]
pub enum RunPathError {
    /// The entry names a token whose expansion is not supported.
    UnsupportedToken(RunPathToken),
}

pub open spec fn pat_origin_braced() -> Seq<char> {
    seq!['$', '{', 'O', 'R', 'I', 'G', 'I', 'N', '}']
}

pub open spec fn pat_lib_braced() -> Seq<char> {
    seq!['$', '{', 'L', 'I', 'B', '}']
}

pub open spec fn pat_platform_braced() -> Seq<char> {
    seq!['$', '{', 'P', 'L', 'A', 'T', 'F', 'O', 'R', 'M', '}']
}

pub open spec fn pat_origin() -> Seq<char> {
    seq!['$', 'O', 'R', 'I', 'G', 'I', 'N']
}

pub open spec fn pat_lib() -> Seq<char> {
    seq!['$', 'L', 'I', 'B']
}

pub open spec fn pat_platform() -> Seq<char> {
    seq!['$', 'P', 'L', 'A', 'T', 'F', 'O', 'R', 'M']
}

pub open spec fn starts_with(s: Seq<char>, p: Seq<char>) -> bool {
    p.len() <= s.len() && s.subrange(0, p.len() as int) == p
}

/// The token that `s` begins with, and its length. The braced forms are
/// tried first, so `${ORIGIN}` is one token and not `$` followed by text.
pub open spec fn token_prefix(s: Seq<char>) -> Option<(RunPathToken, Seq<char>)> {
    if starts_with(s, pat_origin_braced()) {
        Some((RunPathToken::Origin, pat_origin_braced()))
    } else if starts_with(s, pat_lib_braced()) {
        Some((RunPathToken::Lib, pat_lib_braced()))
    } else if starts_with(s, pat_platform_braced()) {
        Some((RunPathToken::Platform, pat_platform_braced()))
    } else if starts_with(s, pat_origin()) {
        Some((RunPathToken::Origin, pat_origin()))
    } else if starts_with(s, pat_lib()) {
        Some((RunPathToken::Lib, pat_lib()))
    } else if starts_with(s, pat_platform()) {
        Some((RunPathToken::Platform, pat_platform()))
    } else {
        None
    }
}

/// The run-path `t` with every origin token replaced by `origin`, scanning
/// from left to right; `None` when it holds a token other than the origin.
pub open spec fn expand_spec(t: Seq<char>, origin: Seq<char>) -> Option<Seq<char>>
    decreases t.len(),
{
    if t.len() == 0 {
        Some(Seq::empty())
    } else {
        match token_prefix(t) {
            Some((tok, p)) => {
                if tok == RunPathToken::Origin && 0 < p.len() <= t.len() {
                    prepend(origin, expand_spec(t.skip(p.len() as int), origin))
                } else {
                    None
                }
            },
            None => prepend(seq![t[0]], expand_spec(t.skip(1), origin)),
        }
    }
}

pub open spec fn prepend(a: Seq<char>, r: Option<Seq<char>>) -> Option<Seq<char>> {
    match r {
        Some(s) => Some(a + s),
        None => None,
    }
}

/// The first token other than the origin that the scan meets in `t`.
pub open spec fn first_unsupported(t: Seq<char>) -> Option<RunPathToken>
    decreases t.len(),
{
    if t.len() == 0 {
        None
    } else {
        match token_prefix(t) {
            Some((tok, p)) => {
                if tok == RunPathToken::Origin && 0 < p.len() <= t.len() {
                    first_unsupported(t.skip(p.len() as int))
                } else {
                    Some(tok)
                }
            },
            None => first_unsupported(t.skip(1)),
        }
    }
}

/// Whether `p` occurs in `s` at char position `i`.
fn matches_at(s: &str, i: usize, p: &str) -> (r: bool)
    requires
        i <= s@.len(),
    ensures
        r == starts_with(s@.skip(i as int), p@),
{
    let n = s.unicode_len();
    let m = p.unicode_len();
    if m > n - i {
        return false;
    }
    let mut k: usize = 0;
    while k < m
        invariant
            n == s@.len(),
            m == p@.len(),
            i + m <= n,
            k <= m,
            forall|j: int| 0 <= j < k ==> s@[i + j] == p@[j],
        decreases m - k,
    {
        if s.get_char(i + k) != p.get_char(k) {
            assert(s@.skip(i as int).subrange(0, m as int)[k as int] != p@[k as int]);
            return false;
        }
        k = k + 1;
    }
    assert(s@.skip(i as int).subrange(0, m as int) =~= p@);
    true
}

/// Replaces each origin token (`$ORIGIN` or `${ORIGIN}`) in `template` by
/// `origin`, the directory that holds the binary. A `$LIB` or `$PLATFORM`
/// token, braced or not, is refused rather than guessed at.
pub fn expand_tokens(template: &str, origin: &str) -> (r: Result<String, RunPathError>)
    ensures
        match r {
            Ok(s) => expand_spec(template@, origin@) == Some(s@),
            Err(RunPathError::UnsupportedToken(tok)) => {
                expand_spec(template@, origin@) is None
                    && first_unsupported(template@) == Some(tok)
            },
        },
        expand_spec(template@, origin@) is None <==> first_unsupported(template@) is Some,
{
    proof {
        lemma_expand_fails_iff(template@, origin@);
    }
    let n = template.unicode_len();
    let mut out = String::new();
    let mut i: usize = 0;
    proof {
        assert(template@.skip(0) =~= template@);
        assert(out@ =~= Seq::<char>::empty());
        match expand_spec(template@, origin@) {
            Some(e) => assert(Seq::<char>::empty() + e =~= e),
            None => {},
        }
    }
    while i < n
        invariant
            n == template@.len(),
            i <= n,
            expand_spec(template@, origin@) == prepend(out@, expand_spec(template@.skip(i as int), origin@)),
            first_unsupported(template@) == first_unsupported(template@.skip(i as int)),
        decreases n - i,
    {
        let ghost rest = template@.skip(i as int);
        let ob = matches_at(template, i, "${ORIGIN}");
        let lb = matches_at(template, i, "${LIB}");
        let pb = matches_at(template, i, "${PLATFORM}");
        let o = matches_at(template, i, "$ORIGIN");
        let l = matches_at(template, i, "$LIB");
        let p = matches_at(template, i, "$PLATFORM");
        proof {
            reveal_strlit("${ORIGIN}");
            reveal_strlit("${LIB}");
            reveal_strlit("${PLATFORM}");
            reveal_strlit("$ORIGIN");
            reveal_strlit("$LIB");
            reveal_strlit("$PLATFORM");
            assert("${ORIGIN}"@ =~= pat_origin_braced());
            assert("${LIB}"@ =~= pat_lib_braced());
            assert("${PLATFORM}"@ =~= pat_platform_braced());
            assert("$ORIGIN"@ =~= pat_origin());
            assert("$LIB"@ =~= pat_lib());
            assert("$PLATFORM"@ =~= pat_platform());
        }
        if ob || (!lb && !pb && o) {
            let step: usize = if ob { 9 } else { 7 };
            proof {
                assert(rest.skip(step as int) =~= template@.skip(i + step));
            }
            out.append(origin);
            i = i + step;
        } else if lb || pb || l || p {
            let tok = if lb || l { RunPathToken::Lib } else { RunPathToken::Platform };
            return Err(RunPathError::UnsupportedToken(tok));
        } else {
            let c = template.substring_char(i, i + 1);
            proof {
                assert(c@ =~= seq![rest[0]]);
                assert(rest.skip(1) =~= template@.skip(i + 1));
            }
            out.append(c);
            i = i + 1;
        }
    }
    proof {
        assert(template@.skip(n as int) =~= Seq::<char>::empty());
        assert(out@ + Seq::<char>::empty() =~= out@);
    }
    Ok(out)
}

proof fn lemma_expand_fails_iff(t: Seq<char>, origin: Seq<char>)
    ensures
        expand_spec(t, origin) is None <==> first_unsupported(t) is Some,
    decreases t.len(),
{
    if t.len() > 0 {
        match token_prefix(t) {
            Some((tok, p)) => {
                if tok == RunPathToken::Origin && 0 < p.len() <= t.len() {
                    lemma_expand_fails_iff(t.skip(p.len() as int), origin);
                }
            },
            None => {
                lemma_expand_fails_iff(t.skip(1), origin);
            },
        }
    }
}

} // verus!
