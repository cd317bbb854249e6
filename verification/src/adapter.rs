//! Adapter abstraction for embedding projections.
//!
//! Ensures projection prompts are not leaked into the runtime prompt stream.

use crate::text::{chars_of, occurs_at, stands_at};
use vstd::prelude::*;

verus! {

/// An adapter and the projection text it stands for, if it has one.
#[derive(Debug, Clone)]
pub struct Adapter {
    pub id: String,
    /// Encoded projection that the adapter represents (if any).
    pub encoded_projection: Option<String>,
}

/// `text` without the occurrences of `pattern` that a scan from left to right
/// meets; after an occurrence the scan goes on behind it. The empty pattern
/// removes nothing.
pub open spec fn without(text: Seq<char>, pattern: Seq<char>) -> Seq<char>
    decreases text.len(),
{
    if pattern.len() == 0 || text.len() < pattern.len() {
        text
    } else if occurs_at(text, pattern, 0) {
        without(text.skip(pattern.len() as int), pattern)
    } else {
        seq![text[0]] + without(text.skip(1), pattern)
    }
}

/// `text` once scan after scan has removed `pattern`, until a scan meets no
/// occurrence any more.
pub open spec fn stripped(text: Seq<char>, pattern: Seq<char>) -> Seq<char>
    decreases text.len(),
{
    let rest = without(text, pattern);
    if rest.len() < text.len() {
        stripped(rest, pattern)
    } else {
        text
    }
}

/// Whether `pattern` occurs nowhere in `text`.
pub open spec fn is_free_of(text: Seq<char>, pattern: Seq<char>) -> bool {
    forall|at: int| !occurs_at(text, pattern, at)
}

/// A scan that removes nothing has met no occurrence.
proof fn lemma_scan_finds_occurrences(text: Seq<char>, pattern: Seq<char>)
    requires
        pattern.len() > 0,
    ensures
        without(text, pattern).len() <= text.len(),
        without(text, pattern).len() == text.len() ==> is_free_of(text, pattern),
    decreases text.len(),
{
    if text.len() >= pattern.len() {
        if occurs_at(text, pattern, 0) {
            lemma_scan_finds_occurrences(text.skip(pattern.len() as int), pattern);
        } else {
            let rest = text.skip(1);
            lemma_scan_finds_occurrences(rest, pattern);
            if without(text, pattern).len() == text.len() {
                assert forall|at: int| !occurs_at(text, pattern, at) by {
                    if at > 0 && occurs_at(text, pattern, at) {
                        assert(rest.subrange(at - 1, at - 1 + pattern.len()) =~= text.subrange(
                            at,
                            at + pattern.len(),
                        ));
                        assert(occurs_at(rest, pattern, at - 1));
                    }
                }
            }
        }
    }
}

proof fn lemma_stripped_is_free(text: Seq<char>, pattern: Seq<char>)
    requires
        pattern.len() > 0,
    ensures
        is_free_of(stripped(text, pattern), pattern),
    decreases text.len(),
{
    lemma_scan_finds_occurrences(text, pattern);
    let rest = without(text, pattern);
    if rest.len() < text.len() {
        lemma_stripped_is_free(rest, pattern);
    }
}

/// One scan of `text` for `pattern`.
fn scanned(text: &str, pattern: &Vec<char>) -> (kept_text: String)
    requires
        pattern@.len() > 0,
    ensures
        kept_text@ == without(text@, pattern@),
{
    let chars = chars_of(text);
    let n: usize = chars.len();
    let m: usize = pattern.len();
    let mut out = String::new();
    // `chars[kept..at]` is scanned and not yet copied.
    let mut kept: usize = 0;
    let mut at: usize = 0;
    assert(chars@.skip(0) =~= chars@);
    assert(out@ + chars@.subrange(0, 0) + without(chars@, pattern@) =~= without(
        chars@,
        pattern@,
    ));
    while at < n && m <= n - at
        invariant
            chars@ == text@,
            n == chars@.len(),
            m == pattern@.len(),
            m > 0,
            kept <= at <= n,
            without(chars@, pattern@) == out@ + chars@.subrange(kept as int, at as int) + without(
                chars@.skip(at as int),
                pattern@,
            ),
        decreases n - at,
    {
        let ghost rest = chars@.skip(at as int);
        assert(rest.subrange(0, m as int) =~= chars@.subrange(at as int, at + m));
        if stands_at(&chars, pattern, at) {
            if kept < at {
                let run = text.substring_char(kept, at);
                out.append(run);
            }
            assert(rest.skip(m as int) =~= chars@.skip(at + m));
            at = at + m;
            kept = at;
            assert(chars@.subrange(kept as int, at as int) =~= Seq::<char>::empty());
        } else {
            assert(rest.skip(1) =~= chars@.skip(at + 1));
            assert(chars@.subrange(kept as int, at as int) + seq![chars@[at as int]]
                =~= chars@.subrange(kept as int, at + 1));
            at = at + 1;
        }
        assert(without(chars@, pattern@) =~= out@ + chars@.subrange(kept as int, at as int)
            + without(chars@.skip(at as int), pattern@));
    }
    if kept < n {
        let run = text.substring_char(kept, n);
        out.append(run);
    }
    assert(chars@.subrange(kept as int, at as int) + chars@.skip(at as int) =~= chars@.subrange(
        kept as int,
        n as int,
    ));
    assert(without(chars@, pattern@) =~= out@);
    out
}

impl Adapter {
    pub fn new(id: &str, encoded_projection: Option<&str>) -> (a: Self)
        ensures
            a.id@ == id@,
            a.encoded_projection is Some <==> encoded_projection is Some,
            encoded_projection matches Some(text) ==> a.encoded_projection->0@ == text@,
    {
        let projection = match encoded_projection {
            Some(s) => Some(s.to_string()),
            None => None,
        };
        Adapter { id: id.to_string(), encoded_projection: projection }
    }

    /// Apply adapter to a prompt, stripping any encoded projection text: what is
    /// returned does not hold it anywhere, not even where removing it joins two
    /// pieces of the prompt into it again.
    pub fn apply_to_prompt(&self, base_prompt: &str) -> (applied: String)
        ensures
            self.encoded_projection matches Some(text) ==> {
                &&& applied@ == stripped(base_prompt@, text@)
                &&& text@.len() > 0 ==> forall|at: int| !occurs_at(applied@, text@, at)
            },
            self.encoded_projection is None ==> applied@ == base_prompt@,
    {
        let projection = match &self.encoded_projection {
            Some(p) => p,
            None => {
                return base_prompt.to_string();
            },
        };
        let pattern = chars_of(projection.as_str());
        if pattern.len() == 0 {
            return base_prompt.to_string();
        }
        proof {
            lemma_stripped_is_free(base_prompt@, pattern@);
        }
        let mut applied = base_prompt.to_string();
        let mut left: usize = chars_of(base_prompt).len();
        loop
            invariant
                pattern@ == projection@,
                pattern@.len() > 0,
                left == applied@.len(),
                stripped(base_prompt@, pattern@) == stripped(applied@, pattern@),
                is_free_of(stripped(base_prompt@, pattern@), pattern@),
                Some(*projection) == self.encoded_projection,
            decreases left,
        {
            let next = scanned(applied.as_str(), &pattern);
            let next_left: usize = chars_of(next.as_str()).len();
            if next_left >= left {
                return applied;
            }
            applied = next;
            left = next_left;
        }
    }
}

/// A prompt in which the projection does not occur is left as it is.
pub proof fn law_clean_prompt_is_kept(prompt: Seq<char>, projection: Seq<char>)
    requires
        is_free_of(prompt, projection),
    ensures
        stripped(prompt, projection) == prompt,
{
    lemma_scan_keeps_clean_text(prompt, projection);
}

proof fn lemma_scan_keeps_clean_text(text: Seq<char>, pattern: Seq<char>)
    requires
        is_free_of(text, pattern),
    ensures
        without(text, pattern) == text,
    decreases text.len(),
{
    if pattern.len() != 0 && text.len() >= pattern.len() {
        let rest = text.skip(1);
        assert forall|at: int| !occurs_at(rest, pattern, at) by {
            if occurs_at(rest, pattern, at) {
                assert(text.subrange(at + 1, at + 1 + pattern.len()) =~= rest.subrange(
                    at,
                    at + pattern.len(),
                ));
                assert(occurs_at(text, pattern, at + 1));
            }
        }
        lemma_scan_keeps_clean_text(rest, pattern);
        assert(!occurs_at(text, pattern, 0));
        assert(seq![text[0]] + rest =~= text);
    }
}

/// The projection never leaks: what a prompt is stripped to does not hold it, and
/// stripping it once more changes nothing.
pub proof fn law_projection_never_leaks(prompt: Seq<char>, projection: Seq<char>)
    requires
        projection.len() > 0,
    ensures
        is_free_of(stripped(prompt, projection), projection),
        stripped(stripped(prompt, projection), projection) == stripped(prompt, projection),
{
    lemma_stripped_is_free(prompt, projection);
    law_clean_prompt_is_kept(stripped(prompt, projection), projection);
}

/// Where one scan leaves no occurrence behind, stripping is that scan.
pub proof fn law_one_scan_can_be_enough(prompt: Seq<char>, projection: Seq<char>)
    requires
        is_free_of(without(prompt, projection), projection),
    ensures
        stripped(prompt, projection) == without(prompt, projection),
{
    let rest = without(prompt, projection);
    law_clean_prompt_is_kept(rest, projection);
    if rest.len() >= prompt.len() && projection.len() > 0 {
        lemma_scan_finds_occurrences(prompt, projection);
        lemma_scan_keeps_clean_text(prompt, projection);
    }
}

/// A scan keeps what stands before the first occurrence, leaves the occurrence out,
/// and goes on behind it.
pub proof fn law_scan_leaves_out_occurrences(text: Seq<char>, pattern: Seq<char>, at: int)
    requires
        pattern.len() > 0,
        occurs_at(text, pattern, at),
        forall|i: int| #![trigger occurs_at(text, pattern, i)] 0 <= i < at ==> !occurs_at(
            text,
            pattern,
            i,
        ),
    ensures
        without(text, pattern) == text.take(at) + without(
            text.skip(at + pattern.len()),
            pattern,
        ),
    decreases at,
{
    if at == 0 {
        assert(text.take(0) + without(text.skip(pattern.len() as int), pattern) =~= without(
            text.skip(pattern.len() as int),
            pattern,
        ));
    } else {
        let rest = text.skip(1);
        assert(!occurs_at(text, pattern, 0));
        assert(rest.subrange(at - 1, at - 1 + pattern.len()) =~= text.subrange(
            at,
            at + pattern.len(),
        ));
        assert forall|i: int|
            #![trigger occurs_at(rest, pattern, i)]
            0 <= i < at - 1 implies !occurs_at(rest, pattern, i) by {
            if occurs_at(rest, pattern, i) {
                assert(text.subrange(i + 1, i + 1 + pattern.len()) =~= rest.subrange(
                    i,
                    i + pattern.len(),
                ));
                assert(occurs_at(text, pattern, i + 1));
            }
        }
        law_scan_leaves_out_occurrences(rest, pattern, at - 1);
        assert(rest.skip(at - 1 + pattern.len()) =~= text.skip(at + pattern.len()));
        assert(seq![text[0]] + (rest.take(at - 1) + without(
            text.skip(at + pattern.len()),
            pattern,
        )) =~= text.take(at) + without(text.skip(at + pattern.len()), pattern));
    }
}

} // verus!
