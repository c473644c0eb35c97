//! Glob patterns for files that are never served.
use vstd::prelude::*;
use vstd::string::*;

verus! {

/// Whether glob `p` matches all of `s`: `*` matches any run of characters
/// (`/` included), `?` any one character, and every other character itself.
pub open spec fn glob_match(p: Seq<char>, s: Seq<char>) -> bool
    decreases p.len() + s.len(),
{
    if p.len() == 0 {
        s.len() == 0
    } else if p[0] == '*' {
        glob_match(p.drop_first(), s) || (s.len() > 0 && glob_match(p, s.drop_first()))
    } else {
        s.len() > 0 && (p[0] == '?' || p[0] == s[0]) && glob_match(p.drop_first(), s.drop_first())
    }
}

/// Whether `pattern` matches all of `text`.
pub fn matches_glob(pattern: &str, text: &str) -> (r: bool)
    ensures
        r == glob_match(pattern@, text@),
{
    let plen = pattern.unicode_len();
    let slen = text.unicode_len();
    let ghost p = pattern@;
    let ghost s = text@;
    // next[j] tells whether the pattern from index i + 1 matches the text from j.
    let mut next: Vec<bool> = Vec::new();
    let mut j: usize = 0;
    while j < slen
        invariant
            slen == s.len(),
            j <= slen,
            next@.len() == j,
            forall|k: int| 0 <= k < j ==> !next@[k],
        decreases slen - j,
    {
        next.push(false);
        j = j + 1;
    }
    next.push(true);
    assert forall|k: int| 0 <= k <= slen implies next@[k] == glob_match(
        p.subrange(plen as int, plen as int),
        #[trigger] s.subrange(k, slen as int),
    ) by {
        assert(p.subrange(plen as int, plen as int).len() == 0);
    }
    let mut i: usize = plen;
    while i > 0
        invariant
            p == pattern@,
            s == text@,
            plen == p.len(),
            slen == s.len(),
            i <= plen,
            next@.len() == slen + 1,
            forall|k: int|
                0 <= k <= slen ==> next@[k] == glob_match(
                    p.subrange(i as int, plen as int),
                    #[trigger] s.subrange(k, slen as int),
                ),
        decreases i,
    {
        let c = pattern.get_char(i - 1);
        let ghost pi = p.subrange(i - 1, plen as int);
        assert(pi.drop_first() =~= p.subrange(i as int, plen as int));
        assert(pi[0] == c);
        let mut cur: Vec<bool> = Vec::new();
        let mut k: usize = 0;
        while k < slen
            invariant
                slen == s.len(),
                k <= slen,
                cur@.len() == k,
            decreases slen - k,
        {
            cur.push(false);
            k = k + 1;
        }
        let at_end = c == '*' && next[slen];
        cur.push(at_end);
        assert(s.subrange(slen as int, slen as int).len() == 0);
        let mut j: usize = slen;
        while j > 0
            invariant
                p == pattern@,
                s == text@,
                slen == s.len(),
                plen == p.len(),
                1 <= i <= plen,
                j <= slen,
                cur@.len() == slen + 1,
                next@.len() == slen + 1,
                pi == p.subrange(i - 1, plen as int),
                pi.drop_first() == p.subrange(i as int, plen as int),
                pi[0] == c,
                forall|k: int|
                    0 <= k <= slen ==> next@[k] == glob_match(
                        p.subrange(i as int, plen as int),
                        #[trigger] s.subrange(k, slen as int),
                    ),
                forall|k: int| j <= k <= slen ==> cur@[k] == glob_match(pi, #[trigger] s.subrange(k, slen as int)),
            decreases j,
        {
            let jj = j - 1;
            let ghost t = s.subrange(jj as int, slen as int);
            assert(t.drop_first() =~= s.subrange(jj + 1, slen as int));
            assert(t[0] == s[jj as int]);
            let value = if c == '*' {
                next[jj] || cur[jj + 1]
            } else {
                (c == '?' || c == text.get_char(jj)) && next[jj + 1]
            };
            cur.set(jj, value);
            j = jj;
        }
        next = cur;
        i = i - 1;
    }
    assert(p.subrange(0, plen as int) =~= p);
    assert(s.subrange(0, slen as int) =~= s);
    next[0]
}

} // verus!
