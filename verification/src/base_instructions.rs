//! Guidance on throughput that is added to the model's base instructions.

use vstd::prelude::*;

use crate::text::{contains, occurs_at, str_contains};
use vstd::string::StringExecFns;

verus! {

/// The heading text that marks the throughput guidance.
pub const THROUGHPUT_MARKER: &'static str = "Throughput and batching";

/// The guidance that follows the heading.
pub const THROUGHPUT_GUIDANCE_BODY: &'static str = r#"

- Prefer completing multiple related, high-leverage tasks in a single turn (aim for 36-48 when feasible).
- If the task is open-ended or the user says "Continue", proactively select a batch of adjacent improvements (code, tests, docs) and finish them.
- Avoid micro-changes; expand to the next meaningful slice that compounds and reduces follow-on work.
- Keep going until you deliver a substantial result; only pause when blocked by missing info or risk."#;

/// The whole throughput guidance section: `## Throughput and batching`
/// followed by its body.
pub open spec fn throughput_guidance() -> Seq<char> {
    "## "@ + THROUGHPUT_MARKER@ + THROUGHPUT_GUIDANCE_BODY@
}

/// Base instructions with the throughput guidance: unchanged when they
/// already mention it, otherwise followed by a blank line and the guidance.
pub open spec fn with_throughput_guidance(base: Seq<char>) -> Seq<char> {
    if contains(base, THROUGHPUT_MARKER@) {
        base
    } else {
        base + "\n\n"@ + throughput_guidance()
    }
}

/// Appends the throughput guidance to `base_instructions` unless they
/// already hold it.
pub fn ensure_throughput_guidance(base_instructions: String) -> (res: String)
    ensures
        res@ == with_throughput_guidance(base_instructions@),
{
    if str_contains(base_instructions.as_str(), THROUGHPUT_MARKER) {
        return base_instructions;
    }
    let mut res = base_instructions;
    res.append("\n\n## ");
    res.append(THROUGHPUT_MARKER);
    res.append(THROUGHPUT_GUIDANCE_BODY);
    proof {
        assert("\n\n## "@ =~= "\n\n"@ + "## "@) by {
            reveal_strlit("\n\n## ");
            reveal_strlit("\n\n");
            reveal_strlit("## ");
        }
        assert(res@ =~= with_throughput_guidance(base_instructions@));
    }
    res
}

/// The result of adding the guidance always mentions it.
pub proof fn law_guidance_is_present(base: Seq<char>)
    ensures
        contains(with_throughput_guidance(base), THROUGHPUT_MARKER@),
{
    if !contains(base, THROUGHPUT_MARKER@) {
        let res = with_throughput_guidance(base);
        let at = (base.len() + "\n\n"@.len() + "## "@.len()) as int;
        assert(res.subrange(at, at + THROUGHPUT_MARKER@.len()) =~= THROUGHPUT_MARKER@);
        assert(occurs_at(res, THROUGHPUT_MARKER@, at));
    }
}

/// Adding the guidance twice is the same as adding it once.
pub proof fn law_guidance_is_idempotent(base: Seq<char>)
    ensures
        with_throughput_guidance(with_throughput_guidance(base)) == with_throughput_guidance(base),
{
    law_guidance_is_present(base);
}

/// The given instructions are always kept, as a prefix of the result.
pub proof fn law_instructions_are_kept(base: Seq<char>)
    ensures
        with_throughput_guidance(base).subrange(0, base.len() as int) == base,
{
    assert(with_throughput_guidance(base).subrange(0, base.len() as int) =~= base);
}

} // verus!
