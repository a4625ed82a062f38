//! Manifest readiness.
//!
//! A cache entry is ready the instant its manifest contains at least one
//! line that, after trimming whitespace, is non-empty and does not begin
//! with the comment marker `#`. The check works on the manifest's raw bytes,
//! so the caller reads the file and hands the contents over unparsed.
//! Readiness is re-evaluated on every poll on purpose: the manifest is the
//! only signal that can observe partial progress from the external writer.
//!
//! Note that one reference line is deliberately taken as sufficient while
//! the writer may still be appending further segments: a consumer can begin
//! playback against an incomplete, still-growing stream. Whether that is
//! progressive readiness or a latent race is a property of the external
//! writer's ordering (a reference is expected only after its segment is
//! fully written), not re-verified here.

use vstd::prelude::*;

verus! {

/// Whitespace that trimming removes within a line: space, tab, carriage
/// return. The line feed itself separates lines.
pub open spec fn spec_is_blank(b: u8) -> bool {
    b == 32 || b == 9 || b == 13
}

/// Whether the text, scanned from the start of a line, contains a reference
/// line: some line whose first non-blank byte exists and is not `#`.
pub open spec fn spec_has_reference(s: Seq<u8>) -> bool
    decreases s.len(),
{
    if s.len() == 0 {
        false
    } else if s[0] == 10 || spec_is_blank(s[0]) {
        spec_has_reference(s.drop_first())
    } else if s[0] == 35 {
        spec_has_reference_after_comment(s.drop_first())
    } else {
        true
    }
}

/// Whether the text, scanned from within a comment line, contains a
/// reference line further on.
pub open spec fn spec_has_reference_after_comment(s: Seq<u8>) -> bool
    decreases s.len(),
{
    if s.len() == 0 {
        false
    } else if s[0] == 10 {
        spec_has_reference(s.drop_first())
    } else {
        spec_has_reference_after_comment(s.drop_first())
    }
}

/// Whether manifest contents mark the cache entry as ready: they hold at
/// least one line that, trimmed of whitespace, is non-empty and does not
/// begin with `#`.
pub fn manifest_is_ready(contents: &[u8]) -> (r: bool)
    ensures
        r == spec_has_reference(contents@),
{
    let n = contents.len();
    let mut i: usize = 0;
    let mut in_comment: bool = false;
    assert(contents@.skip(0) =~= contents@);
    while i < n
        invariant
            i <= n,
            n == contents@.len(),
            spec_has_reference(contents@) == if in_comment {
                spec_has_reference_after_comment(contents@.skip(i as int))
            } else {
                spec_has_reference(contents@.skip(i as int))
            },
        decreases n - i,
    {
        let b = contents[i];
        proof {
            assert(contents@.skip(i as int)[0] == contents@[i as int]);
            assert(contents@.skip(i as int).drop_first() =~= contents@.skip(i as int + 1));
        }
        if in_comment {
            if b == 10 {
                in_comment = false;
            }
        } else {
            if b == 10 || b == 32 || b == 9 || b == 13 {
                // still at the (blank) head of a line
            } else if b == 35 {
                in_comment = true;
            } else {
                return true;
            }
        }
        i = i + 1;
    }
    false
}

/// Law: readiness is monotonic. Once a manifest contains a reference line,
/// no append can take it away: the external writer only ever extends the
/// file, so the entry is never considered unready again.
pub proof fn lemma_readiness_monotonic(s: Seq<u8>, t: Seq<u8>)
    ensures
        spec_has_reference(s) ==> spec_has_reference(s + t),
    decreases s.len(),
{
    if s.len() > 0 && spec_has_reference(s) {
        assert((s + t)[0] == s[0]);
        if s[0] == 10 || spec_is_blank(s[0]) {
            assert((s + t).drop_first() =~= s.drop_first() + t);
            lemma_readiness_monotonic(s.drop_first(), t);
        } else if s[0] == 35 {
            assert((s + t).drop_first() =~= s.drop_first() + t);
            lemma_readiness_monotonic_in_comment(s.drop_first(), t);
        }
    }
}

/// Monotonicity, from within a comment line.
pub proof fn lemma_readiness_monotonic_in_comment(s: Seq<u8>, t: Seq<u8>)
    ensures
        spec_has_reference_after_comment(s) ==> spec_has_reference_after_comment(s + t),
    decreases s.len(),
{
    if s.len() > 0 && spec_has_reference_after_comment(s) {
        assert((s + t)[0] == s[0]);
        assert((s + t).drop_first() =~= s.drop_first() + t);
        if s[0] == 10 {
            lemma_readiness_monotonic(s.drop_first(), t);
        } else {
            lemma_readiness_monotonic_in_comment(s.drop_first(), t);
        }
    }
}

} // verus!
