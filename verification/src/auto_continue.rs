//! The `AUTO_MODE_NEXT=continue|stop` directive that ends an agent message
//! in auto-continue mode, and the prompts that ask the agent for it.

use vstd::prelude::*;

use crate::text::{
    ascii_lower, ascii_upper, char_ascii_lower, char_is_whitespace, chars_of, contains, find,
    find_chars, is_whitespace, lemma_find, occurs_at, to_ascii_lower, to_ascii_upper, trim,
    trim_bounds, trim_end, trim_start, upper_range,
};

verus! {

/// What the agent asked for at the end of its turn.
#[derive(Debug, Clone, Copy, PartialEq, Eq, Structural)]
pub enum AutoModeNext {
    Continue,
    Stop,
}

/// The index of the end of the line that starts at `i`: the first newline at
/// or after `i`, or the end of `s`.
pub open spec fn line_end(s: Seq<char>, i: int) -> int
    decreases s.len() - i,
{
    if 0 <= i < s.len() && s[i] != '\n' {
        line_end(s, i + 1)
    } else {
        i
    }
}

pub proof fn lemma_line_end(s: Seq<char>, i: int)
    requires
        0 <= i <= s.len(),
    ensures
        i <= line_end(s, i) <= s.len(),
        line_end(s, i) < s.len() ==> s[line_end(s, i)] == '\n',
        forall|k: int| i <= k < line_end(s, i) ==> s[k] != '\n',
    decreases s.len() - i,
{
    if i < s.len() && s[i] != '\n' {
        lemma_line_end(s, i + 1);
    }
}

/// The current directive key.
pub open spec fn mode_key() -> Seq<char> {
    "AUTO_MODE_NEXT="@
}

/// The legacy spelling of the directive key.
pub open spec fn legacy_mode_key() -> Seq<char> {
    "AUTO_CONTINUE_NEXT="@
}

/// What follows the directive key in a (trimmed) line, if the line holds a
/// key: the key is matched case-insensitively, the current key before the
/// legacy one, each at its first occurrence.
pub open spec fn directive_rest(line: Seq<char>) -> Option<Seq<char>> {
    let upper = to_ascii_upper(line);
    match find(upper, mode_key()) {
        Some(p) => Some(line.subrange(p + mode_key().len(), line.len() as int)),
        None => match find(upper, legacy_mode_key()) {
            Some(p) => Some(line.subrange(p + legacy_mode_key().len(), line.len() as int)),
            None => None,
        },
    }
}

/// The length of the run of non-whitespace characters that starts `s`.
pub open spec fn word_len(s: Seq<char>) -> nat
    decreases s.len(),
{
    if s.len() > 0 && !is_whitespace(s[0]) {
        1 + word_len(s.drop_first())
    } else {
        0
    }
}

/// `s.split_whitespace().next().unwrap_or_default()`: the first
/// whitespace-separated word of `s`, or the empty sequence.
pub open spec fn first_word(s: Seq<char>) -> Seq<char> {
    let t = trim_start(s);
    t.take(word_len(t) as int)
}

/// The punctuation that may trail a directive value.
pub open spec fn is_trailing_punct(c: char) -> bool {
    c == '#' || c == ';' || c == ',' || c == '.'
}

/// `s.trim_end_matches(['#', ';', ',', '.'])`.
pub open spec fn trim_end_punct(s: Seq<char>) -> Seq<char>
    decreases s.len(),
{
    if s.len() > 0 && is_trailing_punct(s.last()) {
        trim_end_punct(s.drop_last())
    } else {
        s
    }
}

/// `str::eq_ignore_ascii_case`.
pub open spec fn eq_ignore_ascii_case(a: Seq<char>, b: Seq<char>) -> bool {
    a.len() == b.len() && forall|i: int| 0 <= i < a.len() ==> ascii_lower(a[i]) == ascii_lower(b[i])
}

/// The decision that a directive value stands for, if it is recognised.
pub open spec fn decision_of(value: Seq<char>) -> Option<AutoModeNext> {
    if eq_ignore_ascii_case(value, "continue"@) {
        Some(AutoModeNext::Continue)
    } else if eq_ignore_ascii_case(value, "stop"@) {
        Some(AutoModeNext::Stop)
    } else {
        None
    }
}

/// What one line of a message says: `None` when the line is blank or holds no
/// directive key (the search goes on), otherwise the final answer, which is
/// `None` itself when the value after the key is not recognised.
pub open spec fn line_directive(line: Seq<char>) -> Option<Option<AutoModeNext>> {
    let t = trim(line);
    if t.len() == 0 {
        None
    } else {
        match directive_rest(t) {
            Some(rest) => Some(decision_of(trim_end_punct(first_word(rest)))),
            None => None,
        }
    }
}

/// The answer for the lines of `s` from index `i` on: the first line that
/// holds a directive key decides.
pub open spec fn directive_from(s: Seq<char>, i: int) -> Option<AutoModeNext>
    decreases s.len() + 1 - i,
{
    if i < 0 || i > s.len() {
        None
    } else {
        let j = line_end(s, i);
        proof {
            lemma_line_end(s, i);
        }
        match line_directive(s.subrange(i, j)) {
            Some(answer) => answer,
            None => if j < s.len() {
                directive_from(s, j + 1)
            } else {
                None
            },
        }
    }
}

/// The directive of a whole message.
pub open spec fn message_directive(text: Seq<char>) -> Option<AutoModeNext> {
    directive_from(text, 0)
}

/// Developer instructions injected when `--auto-continue` is enabled.
///
/// The key requirement is that *every* final response ends with an explicit
/// `AUTO_MODE_NEXT=continue|stop` marker so the frontend can deterministically
/// decide whether to auto-run the next turn.
pub const AUTO_CONTINUE_DEVELOPER_INSTRUCTIONS: &'static str = "\
- This project is in a rolling style. Until stable, all revisions/refactors are granted, and compatibility with former versions is not mandatory, given changes meet the rules below.\n\
- Make decisions based on making this project modern, elegant, efficient, technically solid, and future-proof.\n\
- If there is uncertainty, refer to the repository’s documentation (if any) and conduct further research to ensure updates and accuracy.\n\
- Prefer fundamental, high-leverage work over cheap tweaks: address root causes, reduce future maintenance burden, and pick the change that compounds.\n\
- Keep the implementation SOLID and maintainable: single-responsibility components, clear boundaries, minimal coupling, and testable units.\n\
- Optimize for correctness and robustness first, then performance (measure when possible).\n\
- Assume full tool access. Do not claim network/git/tool execution is blocked by policy unless a tool call explicitly returns that error; if a tool call fails, report the error and proceed.\n\
- Keep documentation and implementation in sync: if behavior, APIs, configs, or workflows change, update the relevant docs/READMEs/examples so they remain correct.\n\
- Prioritize feature-completing work and user-facing deliverables over maintenance tasks (CI, refactors, formatting, cleanup).\n\
- Maintenance work outranks features only when it unblocks feature delivery, or it mitigates P0/P1 risks (crash, data loss, security, build break), or the user explicitly requests it.\n\
- When multiple feature gaps exist, choose the highest-leverage task that unlocks or accelerates the next milestone (avoid cheap, low-impact work).\n\
- When proposing next steps, list feature deliverables first and maintenance last.\n\
- For complex changes, prefer drafting/updating a design/spec document first (even a short one): state goals, non-goals, constraints, and proposed architecture before implementing.\n\
- If the previous turn surfaced important proposals/next steps, prioritize the most beneficial one first, then keep going with other high-leverage items while context is fresh.\n\
- Use the planning tool (`update_plan`) actively: create a macro plan early, refine into micro-steps, and use multiple plans per turn when it improves throughput (finish one plan, then start the next).\n\
- When multiple tasks remain, prefer batching several into one coherent patch while context is fresh. Aim for substantial progress (often hundreds to ~1000+ lines across code + docs) rather than stopping after tiny edits. Do not inflate line count with churn—make meaningful changes.\n\
- Make each turn dense: complete a cluster of related tasks (prefer 48-72) including implementation + tests + docs + verification; avoid one-off micro fixes.\n\
- Minimum bar: deliver 48+ meaningful tasks per turn; if scope is thin, expand into adjacent tests, docs, tooling, and config hardening.\n\
- Do not end a turn after a single small fix; keep going until the bar is met or you are blocked.\n\
- Aim for at least four substantial deliverables per turn (feature or behavior changes plus tests/docs) unless blocked.\n\
- Implement as many tasks as possible in this turn, and if you finish early, immediately continue with the next highest‑leverage items instead of stopping.\n\
- If you need explicit user approval for a required step (e.g., a full test suite), ask once, then continue with other tasks; do not stall or repeatedly ask in a loop.\n\
- Before ending the turn:\n\
  a. If new task(s) are identified, capture them in the repo’s task tracker (if any).\n\
  b. Reweight and update tasks in the tracker, keeping it succinct.\n\
  c. Verify changes (tests/build/lint as appropriate). If there are code and/or documentation changes, `git diff --stat`, then commit the changes. If the repo has a writable remote and pushing is permitted, push; otherwise note why push was skipped.\n\
  d. Keep the workspace lean, but don’t delete useful caches by default: only prune build artifacts/caches if they are unusually large, clearly one-off, or the repo has an established cleanup workflow/script; otherwise keep caches that materially speed up iteration.\n\
- End your response with `AUTO_MODE_NEXT=continue` to request another turn, or `AUTO_MODE_NEXT=stop` to stop.\n\
";

/// Curated follow-up prompt submitted by the client when `--auto-continue` is enabled.
///
/// This is sent as a normal user prompt after each completed turn unless the agent
/// explicitly requests stop.
/// The follow-up should grant approval for any required step the agent requested
/// in the prior turn unless the user explicitly declined.
pub const AUTO_CONTINUE_FOLLOWUP_PROMPT: &'static str = "\
Continue.\n\
\n\
- This \"Continue\" also grants approval for any previously requested required step (e.g., full test suite) unless the user explicitly declined.\n\
\n\
- Use the most recent context and proceed without waiting for user input.\n\
\n\
Priority:\n\
1) If the most recent user message contains explicit tasks/questions, execute those first (avoid repeating generic process boilerplate).\n\
2) Else if the most recent assistant message ended with choices/options:\n\
   - Options may be compatible; prefer a best default, but take multiple if they are non-conflicting and increase leverage.\n\
   - Prefer reversible/low-risk moves when uncertainty is high.\n\
   - Ask a clarifying question only if the choice materially affects correctness, data loss, security, or long-term architecture.\n\
   - If you do ask, ask exactly one tight question and propose a default you will proceed with if unanswered.\n\
3) Else: pick a batch of high-leverage tasks (typically 48-72) that compound and reduce future maintenance.\n\
   - Feature-delivering work comes before maintenance unless maintenance unblocks features or mitigates P0/P1 risks.\n\
\n\
Execution style:\n\
- Use multiple plans within the turn (macro plan → micro steps). Finish one plan, then start the next without stopping; update plan statuses as you execute.\n\
- Prefer fundamental fixes over ad-hoc tweaks. Keep the implementation SOLID and future-proof (reduce coupling, improve boundaries, add tests that lock in behavior).\n\
- Aim for substantial progress per turn; batch 48-72 related tasks when possible and avoid tiny tweaks.\n\
- Minimum bar: deliver 48+ meaningful tasks per turn (code + tests + docs or adjacent feature work).\n\
- If you finish a small fix quickly, keep going and expand into adjacent tests/docs/perf until you deliver a substantive slice.\n\
- Deliver multiple substantial changes per turn (target 48-72 related tasks); do not stop after a single small change.\n\
- Aim for at least four substantial deliverables per turn unless blocked; if not possible, explain the blocker.\n\
- If you cannot find enough tasks, widen scope by auditing nearby codepaths, tests, docs, config, and tooling for gaps.\n\
- If you need explicit user approval for a required step, ask once and keep moving on other tasks; avoid repeated approval pings.\n\
- Prioritize feature-completing work over maintenance unless maintenance unblocks features or mitigates P0/P1 risks.\n\
- Assume full tool access. Do not claim network/git/tool execution is blocked by policy unless a tool call explicitly returns that error.\n\
- Keep documentation and implementation in sync: when behavior/config/workflows change, update docs/READMEs/examples/help text so they remain correct.\n\
- Maintain a succinct task tracker (if present): add newly discovered tasks and reweight/reprioritize.\n\
- Keep the workspace lean, but don’t delete useful caches by default: only prune unusually large or clearly one-off artifacts, or follow an established cleanup workflow/script.\n\
\n\
Before ending the turn:\n\
- Run appropriate verification (tests/build/lint) for the changes you made.\n\
- If there are code and/or documentation changes: show `git diff --stat`, commit, and push if the repo has a writable remote and pushing is permitted (otherwise note why push was skipped).\n\
\n\
End your final response with exactly one line:\n\
AUTO_MODE_NEXT=continue\n\
or\n\
AUTO_MODE_NEXT=stop\n\
";

/// The end of the line of `s` that starts at `i`.
fn line_end_index(s: &Vec<char>, i: usize) -> (j: usize)
    requires
        i <= s.len(),
    ensures
        j == line_end(s@, i as int),
{
    let mut j = i;
    while j < s.len() && s[j] != '\n'
        invariant
            i <= j <= s.len(),
            line_end(s@, i as int) == line_end(s@, j as int),
        decreases s.len() - j,
    {
        j = j + 1;
    }
    j
}

/// The bounds of the first whitespace-separated word of `s[lo..hi]`.
fn first_word_bounds(s: &Vec<char>, lo: usize, hi: usize) -> (res: (usize, usize))
    requires
        lo <= hi <= s.len(),
    ensures
        lo <= res.0 <= res.1 <= hi,
        s@.subrange(res.0 as int, res.1 as int) == first_word(s@.subrange(lo as int, hi as int)),
{
    let mut a = lo;
    while a < hi && char_is_whitespace(s[a])
        invariant
            lo <= a <= hi <= s.len(),
            trim_start(s@.subrange(lo as int, hi as int)) == trim_start(
                s@.subrange(a as int, hi as int),
            ),
        decreases hi - a,
    {
        assert(s@.subrange(a as int, hi as int).drop_first() =~= s@.subrange(a + 1, hi as int));
        a = a + 1;
    }
    assert(trim_start(s@.subrange(a as int, hi as int)) == s@.subrange(a as int, hi as int));
    let mut b = a;
    while b < hi && !char_is_whitespace(s[b])
        invariant
            a <= b <= hi <= s.len(),
            word_len(s@.subrange(a as int, hi as int)) == (b - a) + word_len(
                s@.subrange(b as int, hi as int),
            ),
        decreases hi - b,
    {
        assert(s@.subrange(b as int, hi as int).drop_first() =~= s@.subrange(b + 1, hi as int));
        b = b + 1;
    }
    assert(word_len(s@.subrange(b as int, hi as int)) == 0);
    assert(s@.subrange(a as int, hi as int).take(b - a) =~= s@.subrange(a as int, b as int));
    (a, b)
}

/// The end of `s[lo..hi]` once trailing directive punctuation is dropped.
fn trim_end_punct_index(s: &Vec<char>, lo: usize, hi: usize) -> (res: usize)
    requires
        lo <= hi <= s.len(),
    ensures
        lo <= res <= hi,
        s@.subrange(lo as int, res as int) == trim_end_punct(s@.subrange(lo as int, hi as int)),
{
    let mut b = hi;
    while b > lo && (s[b - 1] == '#' || s[b - 1] == ';' || s[b - 1] == ',' || s[b - 1] == '.')
        invariant
            lo <= b <= hi <= s.len(),
            trim_end_punct(s@.subrange(lo as int, hi as int)) == trim_end_punct(
                s@.subrange(lo as int, b as int),
            ),
        decreases b - lo,
    {
        assert(s@.subrange(lo as int, b as int).drop_last() =~= s@.subrange(lo as int, b - 1));
        b = b - 1;
    }
    b
}

/// Whether `s[lo..hi]` equals `word` up to ASCII case.
fn range_eq_ignore_ascii_case(s: &Vec<char>, lo: usize, hi: usize, word: &Vec<char>) -> (res:
    bool)
    requires
        lo <= hi <= s.len(),
    ensures
        res == eq_ignore_ascii_case(s@.subrange(lo as int, hi as int), word@),
{
    if hi - lo != word.len() {
        return false;
    }
    let n = word.len();
    for k in 0..n
        invariant
            n == word.len(),
            lo + n == hi <= s.len(),
            forall|j: int| 0 <= j < k ==> ascii_lower(s@[lo + j]) == ascii_lower(word@[j]),
    {
        if char_ascii_lower(s[lo + k]) != char_ascii_lower(word[k]) {
            return false;
        }
    }
    true
}

/// Parse an `AUTO_MODE_NEXT=continue|stop` directive from an agent message.
///
/// Supported forms (case-insensitive, whitespace-tolerant):
/// - `AUTO_MODE_NEXT=continue`
/// - `auto_mode_next=stop`
/// - `AUTO_CONTINUE_NEXT=continue` (legacy alias)
///
/// The first line that holds a directive key decides; trailing `#`, `;`,
/// `,` and `.` after the value are ignored. Returns `None` when no
/// directive is found, or when the first one has an unrecognised value.
pub fn parse_auto_mode_next(text: &str) -> (res: Option<AutoModeNext>)
    ensures
        res == message_directive(text@),
{
    let s = chars_of(text);
    let key = chars_of("AUTO_MODE_NEXT=");
    let legacy = chars_of("AUTO_CONTINUE_NEXT=");
    let cont = chars_of("continue");
    let stop = chars_of("stop");
    let n = s.len();
    let mut i: usize = 0;
    loop
        invariant
            i <= n == s.len(),
            s@ == text@,
            key@ == mode_key(),
            legacy@ == legacy_mode_key(),
            cont@ == "continue"@,
            stop@ == "stop"@,
            message_directive(s@) == directive_from(s@, i as int),
        decreases n - i,
    {
        let j = line_end_index(&s, i);
        proof {
            lemma_line_end(s@, i as int);
        }
        let (a, b) = trim_bounds(&s, i, j);
        let ghost line = s@.subrange(i as int, j as int);
        let ghost t = s@.subrange(a as int, b as int);
        if a < b {
            let upper = upper_range(&s, a, b);
            proof {
                lemma_find(upper@, key@);
                lemma_find(upper@, legacy@);
            }
            let start = match find_chars(&upper, &key) {
                Some(p) => Some(a + p + key.len()),
                None => match find_chars(&upper, &legacy) {
                    Some(p) => Some(a + p + legacy.len()),
                    None => None,
                },
            };
            if let Some(r) = start {
                assert(directive_rest(t) == Some(s@.subrange(r as int, b as int))) by {
                    assert(t.subrange(r - a, t.len() as int) =~= s@.subrange(r as int, b as int));
                }
                let (wa, wb) = first_word_bounds(&s, r, b);
                let we = trim_end_punct_index(&s, wa, wb);
                assert(line_directive(line) == Some(
                    decision_of(s@.subrange(wa as int, we as int)),
                ));
                if range_eq_ignore_ascii_case(&s, wa, we, &cont) {
                    return Some(AutoModeNext::Continue);
                }
                if range_eq_ignore_ascii_case(&s, wa, we, &stop) {
                    return Some(AutoModeNext::Stop);
                }
                return None;
            }
            assert(directive_rest(t) is None);
        }
        assert(line_directive(line) is None);
        if j >= n {
            return None;
        }
        i = j + 1;
    }
}

/// `s` with every character replaced by its image under `f`.
pub open spec fn map_chars(s: Seq<char>, f: spec_fn(char) -> char) -> Seq<char> {
    Seq::new(s.len(), |i: int| f(s[i]))
}

/// `f` changes at most the ASCII case of a character.
pub open spec fn changes_ascii_case_only(f: spec_fn(char) -> char) -> bool {
    forall|c: char| #[trigger] ascii_lower(f(c)) == ascii_lower(c)
}

proof fn lemma_case_char(f: spec_fn(char) -> char, c: char)
    requires
        changes_ascii_case_only(f),
    ensures
        is_whitespace(f(c)) == is_whitespace(c),
        (f(c) == '\n') == (c == '\n'),
        is_trailing_punct(f(c)) == is_trailing_punct(c),
        ascii_upper(f(c)) == ascii_upper(c),
        ascii_lower(f(c)) == ascii_lower(c),
{
    assert(ascii_lower(f(c)) == ascii_lower(c));
}

proof fn lemma_map_subrange(s: Seq<char>, f: spec_fn(char) -> char, a: int, b: int)
    requires
        0 <= a <= b <= s.len(),
    ensures
        map_chars(s, f).subrange(a, b) == map_chars(s.subrange(a, b), f),
{
    assert(map_chars(s, f).subrange(a, b) =~= map_chars(s.subrange(a, b), f));
}

proof fn lemma_line_end_map(s: Seq<char>, f: spec_fn(char) -> char, i: int)
    requires
        changes_ascii_case_only(f),
        0 <= i <= s.len(),
    ensures
        line_end(map_chars(s, f), i) == line_end(s, i),
    decreases s.len() - i,
{
    if i < s.len() {
        lemma_case_char(f, s[i]);
        lemma_line_end_map(s, f, i + 1);
    }
}

proof fn lemma_trim_start_map(s: Seq<char>, f: spec_fn(char) -> char)
    requires
        changes_ascii_case_only(f),
    ensures
        trim_start(map_chars(s, f)) == map_chars(trim_start(s), f),
    decreases s.len(),
{
    if s.len() > 0 {
        lemma_case_char(f, s[0]);
        assert(map_chars(s, f).drop_first() =~= map_chars(s.drop_first(), f));
        lemma_trim_start_map(s.drop_first(), f);
    }
}

proof fn lemma_trim_end_map(s: Seq<char>, f: spec_fn(char) -> char)
    requires
        changes_ascii_case_only(f),
    ensures
        trim_end(map_chars(s, f)) == map_chars(trim_end(s), f),
    decreases s.len(),
{
    if s.len() > 0 {
        lemma_case_char(f, s.last());
        assert(map_chars(s, f).drop_last() =~= map_chars(s.drop_last(), f));
        lemma_trim_end_map(s.drop_last(), f);
    }
}

proof fn lemma_trim_end_punct_map(s: Seq<char>, f: spec_fn(char) -> char)
    requires
        changes_ascii_case_only(f),
    ensures
        trim_end_punct(map_chars(s, f)) == map_chars(trim_end_punct(s), f),
    decreases s.len(),
{
    if s.len() > 0 {
        lemma_case_char(f, s.last());
        assert(map_chars(s, f).drop_last() =~= map_chars(s.drop_last(), f));
        lemma_trim_end_punct_map(s.drop_last(), f);
    }
}

proof fn lemma_word_len_map(s: Seq<char>, f: spec_fn(char) -> char)
    requires
        changes_ascii_case_only(f),
    ensures
        word_len(map_chars(s, f)) == word_len(s),
    decreases s.len(),
{
    if s.len() > 0 {
        lemma_case_char(f, s[0]);
        assert(map_chars(s, f).drop_first() =~= map_chars(s.drop_first(), f));
        lemma_word_len_map(s.drop_first(), f);
    }
}

proof fn lemma_word_len_bound(s: Seq<char>)
    ensures
        word_len(s) <= s.len(),
    decreases s.len(),
{
    if s.len() > 0 {
        lemma_word_len_bound(s.drop_first());
    }
}

proof fn lemma_first_word_map(s: Seq<char>, f: spec_fn(char) -> char)
    requires
        changes_ascii_case_only(f),
    ensures
        first_word(map_chars(s, f)) == map_chars(first_word(s), f),
{
    lemma_trim_start_map(s, f);
    let t = trim_start(s);
    lemma_word_len_map(t, f);
    lemma_word_len_bound(t);
    assert(map_chars(t, f).take(word_len(t) as int) =~= map_chars(t.take(word_len(t) as int), f));
}

proof fn lemma_directive_rest_map(t: Seq<char>, f: spec_fn(char) -> char)
    requires
        changes_ascii_case_only(f),
    ensures
        directive_rest(map_chars(t, f)) == match directive_rest(t) {
            Some(r) => Some(map_chars(r, f)),
            None => None,
        },
{
    assert forall|i: int| 0 <= i < t.len() implies ascii_upper(f(t[i])) == ascii_upper(t[i]) by {
        lemma_case_char(f, t[i]);
    }
    assert(to_ascii_upper(map_chars(t, f)) =~= to_ascii_upper(t));
    let upper = to_ascii_upper(t);
    lemma_find(upper, mode_key());
    lemma_find(upper, legacy_mode_key());
    match find(upper, mode_key()) {
        Some(p) => {
            lemma_map_subrange(t, f, p + mode_key().len(), t.len() as int);
        },
        None => match find(upper, legacy_mode_key()) {
            Some(p) => {
                lemma_map_subrange(t, f, p + legacy_mode_key().len(), t.len() as int);
            },
            None => {},
        },
    }
}

proof fn lemma_decision_map(v: Seq<char>, f: spec_fn(char) -> char)
    requires
        changes_ascii_case_only(f),
    ensures
        decision_of(map_chars(v, f)) == decision_of(v),
{
    assert forall|i: int| 0 <= i < v.len() implies ascii_lower(map_chars(v, f)[i]) == ascii_lower(
        v[i],
    ) by {
        lemma_case_char(f, v[i]);
    }
    assert(eq_ignore_ascii_case(map_chars(v, f), "continue"@) == eq_ignore_ascii_case(
        v,
        "continue"@,
    ));
    assert(eq_ignore_ascii_case(map_chars(v, f), "stop"@) == eq_ignore_ascii_case(v, "stop"@));
}

proof fn lemma_line_directive_map(line: Seq<char>, f: spec_fn(char) -> char)
    requires
        changes_ascii_case_only(f),
    ensures
        line_directive(map_chars(line, f)) == line_directive(line),
{
    lemma_trim_start_map(line, f);
    lemma_trim_end_map(trim_start(line), f);
    let t = trim(line);
    lemma_directive_rest_map(t, f);
    match directive_rest(t) {
        Some(rest) => {
            lemma_first_word_map(rest, f);
            lemma_trim_end_punct_map(first_word(rest), f);
            lemma_decision_map(trim_end_punct(first_word(rest)), f);
        },
        None => {},
    }
}

proof fn lemma_directive_from_map(s: Seq<char>, f: spec_fn(char) -> char, i: int)
    requires
        changes_ascii_case_only(f),
        0 <= i <= s.len(),
    ensures
        directive_from(map_chars(s, f), i) == directive_from(s, i),
    decreases s.len() + 1 - i,
{
    let j = line_end(s, i);
    lemma_line_end(s, i);
    lemma_line_end_map(s, f, i);
    lemma_map_subrange(s, f, i, j);
    lemma_line_directive_map(s.subrange(i, j), f);
    if j < s.len() {
        lemma_directive_from_map(s, f, j + 1);
    }
}

/// The directive is read without regard to ASCII case: changing the case of
/// any letters of a message leaves its directive unchanged.
pub proof fn law_directive_ignores_ascii_case(text: Seq<char>, f: spec_fn(char) -> char)
    requires
        changes_ascii_case_only(f),
    ensures
        message_directive(map_chars(text, f)) == message_directive(text),
{
    lemma_directive_from_map(text, f, 0);
}

/// In particular, lowering or raising the ASCII case of a whole message
/// leaves its directive unchanged.
pub proof fn law_directive_of_case_mapped_message(text: Seq<char>)
    ensures
        message_directive(to_ascii_lower(text)) == message_directive(text),
        message_directive(to_ascii_upper(text)) == message_directive(text),
{
    let lower = |c: char| ascii_lower(c);
    let upper = |c: char| ascii_upper(c);
    assert(changes_ascii_case_only(lower));
    assert(changes_ascii_case_only(upper));
    assert(map_chars(text, lower) =~= to_ascii_lower(text));
    assert(map_chars(text, upper) =~= to_ascii_upper(text));
    law_directive_ignores_ascii_case(text, lower);
    law_directive_ignores_ascii_case(text, upper);
}

proof fn lemma_trim_start_suffix(s: Seq<char>) -> (k: int)
    ensures
        0 <= k <= s.len(),
        trim_start(s) == s.subrange(k, s.len() as int),
    decreases s.len(),
{
    if s.len() > 0 && is_whitespace(s[0]) {
        let k1 = lemma_trim_start_suffix(s.drop_first());
        assert(s.drop_first().subrange(k1, s.drop_first().len() as int) =~= s.subrange(
            k1 + 1,
            s.len() as int,
        ));
        k1 + 1
    } else {
        assert(s.subrange(0, s.len() as int) =~= s);
        0
    }
}

proof fn lemma_trim_end_prefix(s: Seq<char>) -> (k: int)
    ensures
        0 <= k <= s.len(),
        trim_end(s) == s.subrange(0, k),
    decreases s.len(),
{
    if s.len() > 0 && is_whitespace(s.last()) {
        let k1 = lemma_trim_end_prefix(s.drop_last());
        assert(s.drop_last().subrange(0, k1) =~= s.subrange(0, k1));
        k1
    } else {
        assert(s.subrange(0, s.len() as int) =~= s);
        s.len() as int
    }
}

/// A line of `text` whose uppercase holds no directive key says nothing.
proof fn lemma_line_without_key(text: Seq<char>, i: int, j: int)
    requires
        0 <= i <= j <= text.len(),
        !contains(to_ascii_upper(text), mode_key()),
        !contains(to_ascii_upper(text), legacy_mode_key()),
    ensures
        line_directive(text.subrange(i, j)) is None,
{
    let line = text.subrange(i, j);
    let k1 = lemma_trim_start_suffix(line);
    let k2 = lemma_trim_end_prefix(trim_start(line));
    let x = i + k1;
    let y = i + k1 + k2;
    let t = trim(line);
    assert(t =~= text.subrange(x, y));
    let upper = to_ascii_upper(t);
    assert(upper =~= to_ascii_upper(text).subrange(x, y));
    lemma_find(upper, mode_key());
    lemma_find(upper, legacy_mode_key());
    if let Some(p) = find(upper, mode_key()) {
        assert(to_ascii_upper(text).subrange(x + p, x + p + mode_key().len()) =~= upper.subrange(
            p,
            p + mode_key().len(),
        ));
        assert(occurs_at(to_ascii_upper(text), mode_key(), x + p));
    }
    if let Some(p) = find(upper, legacy_mode_key()) {
        assert(to_ascii_upper(text).subrange(x + p, x + p + legacy_mode_key().len())
            =~= upper.subrange(p, p + legacy_mode_key().len()));
        assert(occurs_at(to_ascii_upper(text), legacy_mode_key(), x + p));
    }
}

proof fn lemma_directive_from_without_key(text: Seq<char>, i: int)
    requires
        0 <= i <= text.len(),
        !contains(to_ascii_upper(text), mode_key()),
        !contains(to_ascii_upper(text), legacy_mode_key()),
    ensures
        directive_from(text, i) is None,
    decreases text.len() + 1 - i,
{
    let j = line_end(text, i);
    lemma_line_end(text, i);
    lemma_line_without_key(text, i, j);
    if j < text.len() {
        lemma_directive_from_without_key(text, j + 1);
    }
}

/// Returns `None` when no directive is found: a message in which neither
/// directive key occurs, in any ASCII case, has no directive.
pub proof fn law_no_key_means_no_directive(text: Seq<char>)
    requires
        !contains(to_ascii_upper(text), mode_key()),
        !contains(to_ascii_upper(text), legacy_mode_key()),
    ensures
        message_directive(text) is None,
{
    lemma_directive_from_without_key(text, 0);
}

proof fn lemma_line_end_shift(pre: Seq<char>, t: Seq<char>, i: int)
    requires
        0 <= i <= t.len(),
    ensures
        line_end(pre + t, pre.len() + i) == pre.len() + line_end(t, i),
    decreases t.len() - i,
{
    if i < t.len() {
        assert((pre + t)[pre.len() + i] == t[i]);
        lemma_line_end_shift(pre, t, i + 1);
    }
}

proof fn lemma_directive_from_shift(pre: Seq<char>, t: Seq<char>, i: int)
    requires
        0 <= i <= t.len(),
    ensures
        directive_from(pre + t, pre.len() + i) == directive_from(t, i),
    decreases t.len() + 1 - i,
{
    let s = pre + t;
    let n = pre.len() as int;
    let j = line_end(t, i);
    lemma_line_end(t, i);
    lemma_line_end_shift(pre, t, i);
    assert(s.subrange(n + i, n + j) =~= t.subrange(i, j));
    if j < t.len() {
        lemma_directive_from_shift(pre, t, j + 1);
    }
}

proof fn lemma_line_end_within(s: Seq<char>, m: int, k: int)
    requires
        0 <= k <= m < s.len(),
        s[m] == '\n',
        forall|x: int| 0 <= x < m ==> s[x] != '\n',
    ensures
        line_end(s, k) == m,
    decreases m - k,
{
    if k < m {
        lemma_line_end_within(s, m, k + 1);
    }
}

/// A line without a directive, put in front of a message, never changes its
/// directive: a line (blank ones included) in whose uppercase neither
/// directive key occurs is passed over.
pub proof fn law_keyless_line_prefix(line: Seq<char>, text: Seq<char>)
    requires
        forall|k: int| 0 <= k < line.len() ==> line[k] != '\n',
        !contains(to_ascii_upper(line), mode_key()),
        !contains(to_ascii_upper(line), legacy_mode_key()),
    ensures
        message_directive(line + seq!['\n'] + text) == message_directive(text),
{
    let pre = line + seq!['\n'];
    let s = pre + text;
    let m = line.len() as int;
    assert(line + seq!['\n'] + text == s);
    assert(s[m] == '\n');
    assert forall|x: int| 0 <= x < m implies s[x] != '\n' by {
        assert(s[x] == line[x]);
    }
    lemma_line_end_within(s, m, 0);
    assert(s.subrange(0, m) =~= line.subrange(0, m));
    lemma_line_without_key(line, 0, m);
    lemma_directive_from_shift(pre, text, 0);
    assert(pre.len() + 0 == m + 1);
}

proof fn lemma_line_end_skip(s: Seq<char>, i: int, m: int)
    requires
        0 <= i <= m <= s.len(),
        forall|x: int| i <= x < m ==> s[x] != '\n',
    ensures
        line_end(s, i) == line_end(s, m),
    decreases m - i,
{
    if i < m {
        lemma_line_end_skip(s, i + 1, m);
    }
}

proof fn lemma_trim_end_append(a: Seq<char>, b: Seq<char>)
    requires
        a.len() > 0,
        !is_whitespace(a.last()),
    ensures
        trim_end(a + b) == a + trim_end(b),
    decreases b.len(),
{
    if b.len() == 0 {
        assert(a + b =~= a);
        assert(a + trim_end(b) =~= a);
    } else {
        assert((a + b).last() == b.last());
        if is_whitespace(b.last()) {
            assert((a + b).drop_last() =~= a + b.drop_last());
            lemma_trim_end_append(a, b.drop_last());
        }
    }
}

proof fn lemma_word_len_append(a: Seq<char>, b: Seq<char>)
    requires
        forall|x: int| 0 <= x < a.len() ==> !is_whitespace(#[trigger] a[x]),
    ensures
        word_len(a + b) == a.len() + word_len(b),
    decreases a.len(),
{
    if a.len() == 0 {
        assert(a + b =~= b);
    } else {
        assert((a + b)[0] == a[0]);
        assert((a + b).drop_first() =~= a.drop_first() + b);
        assert forall|x: int| 0 <= x < a.drop_first().len() implies !is_whitespace(
            #[trigger] a.drop_first()[x],
        ) by {
            assert(a.drop_first()[x] == a[x + 1]);
        }
        lemma_word_len_append(a.drop_first(), b);
    }
}

proof fn lemma_trim_end_punct_append(a: Seq<char>, b: Seq<char>)
    requires
        forall|x: int| 0 <= x < b.len() ==> is_trailing_punct(#[trigger] b[x]),
    ensures
        trim_end_punct(a + b) == trim_end_punct(a),
    decreases b.len(),
{
    if b.len() == 0 {
        assert(a + b =~= a);
    } else {
        assert((a + b).last() == b.last());
        assert((a + b).drop_last() =~= a + b.drop_last());
        lemma_trim_end_punct_append(a, b.drop_last());
    }
}

/// A message that starts with the directive key is decided by the first
/// word after the key, once trailing `#`, `;`, `,` and `.` are dropped from
/// that word, whatever follows the word on its line and on later lines; a
/// line without a key put in front of it changes nothing.
#[verifier::rlimit(40)]
#[verifier::spinoff_prover]
pub proof fn law_value_word_decides(
    value: Seq<char>,
    punct: Seq<char>,
    rest: Seq<char>,
    before: Seq<char>,
)
    requires
        eq_ignore_ascii_case(value, "continue"@) || eq_ignore_ascii_case(value, "stop"@),
        forall|k: int|
            0 <= k < punct.len() ==> (#[trigger] punct[k] == '#' || punct[k] == ';' || punct[k]
                == ',' || punct[k] == '.'),
        rest.len() == 0 || is_whitespace(rest[0]),
        forall|k: int| 0 <= k < before.len() ==> before[k] != '\n',
        !contains(to_ascii_upper(before), mode_key()),
        !contains(to_ascii_upper(before), legacy_mode_key()),
    ensures
        eq_ignore_ascii_case(value, "continue"@) ==> message_directive(
            "AUTO_MODE_NEXT="@ + value + punct + rest,
        ) == Some(AutoModeNext::Continue),
        eq_ignore_ascii_case(value, "stop"@) ==> message_directive(
            "AUTO_MODE_NEXT="@ + value + punct + rest,
        ) == Some(AutoModeNext::Stop),
        message_directive(before + seq!['\n'] + ("AUTO_MODE_NEXT="@ + value + punct + rest))
            == message_directive("AUTO_MODE_NEXT="@ + value + punct + rest),
{
    reveal_strlit("AUTO_MODE_NEXT=");
    reveal_strlit("continue");
    reveal_strlit("stop");
    let key = mode_key();
    let vp = value + punct;
    let pre = key + vp;
    let s = pre + rest;
    assert("AUTO_MODE_NEXT="@ + value + punct + rest == s);
    // The key, the value and the punctuation hold no whitespace and no newline.
    assert forall|x: int| 0 <= x < value.len() implies #[trigger] ascii_lower(value[x]) != value[x]
        || ('a' <= value[x] && value[x] <= 'z') by {
        if eq_ignore_ascii_case(value, "continue"@) {
            assert(ascii_lower(value[x]) == ascii_lower("continue"@[x]));
        } else {
            assert(ascii_lower(value[x]) == ascii_lower("stop"@[x]));
        }
    }
    assert forall|x: int| 0 <= x < vp.len() implies !is_whitespace(#[trigger] vp[x]) && vp[x]
        != '\n' by {
        if x < value.len() {
            assert(vp[x] == value[x]);
            assert(ascii_lower(value[x]) != value[x] || ('a' <= value[x] && value[x] <= 'z'));
        } else {
            assert(vp[x] == punct[x - value.len()]);
        }
    }
    assert forall|x: int| 0 <= x < pre.len() implies !is_whitespace(#[trigger] pre[x]) && pre[x]
        != '\n' by {
        if x >= key.len() {
            assert(pre[x] == vp[x - key.len()]);
        }
    }
    // The first line ends where `rest` has its first newline.
    let m = pre.len() as int;
    let e = line_end(rest, 0);
    lemma_line_end(rest, 0);
    assert forall|x: int| 0 <= x < m implies s[x] != '\n' by {
        assert(s[x] == pre[x]);
    }
    lemma_line_end_skip(s, 0, m);
    lemma_line_end_shift(pre, rest, 0);
    let line = s.subrange(0, m + e);
    let wl = rest.take(e);
    assert(line =~= pre + wl);
    // Trimming keeps the key and value, and what is left of `rest` starts
    // with whitespace.
    assert(line[0] == 'A');
    assert(trim_start(line) == line);
    lemma_trim_end_append(pre, wl);
    let wt = trim_end(wl);
    let kt = lemma_trim_end_prefix(wl);
    assert(wt.len() > 0 ==> wt[0] == rest[0]);
    let t = pre + wt;
    assert(trim(line) == t);
    // The key is found at the start of the trimmed line.
    let upper = to_ascii_upper(t);
    assert(upper.subrange(0, key.len() as int) =~= key);
    assert(occurs_at(upper, key, 0));
    lemma_find(upper, key);
    assert(find(upper, key) == Some(0int));
    let after = t.subrange(key.len() as int, t.len() as int);
    assert(after =~= vp + wt);
    assert(directive_rest(t) == Some(after));
    // The first word is the value with its punctuation.
    assert(vp[0] == value[0]);
    assert(trim_start(after) == after);
    lemma_word_len_append(vp, wt);
    assert(word_len(wt) == 0);
    assert(first_word(after) =~= vp);
    assert forall|x: int| 0 <= x < punct.len() implies is_trailing_punct(#[trigger] punct[x]) by {}
    lemma_trim_end_punct_append(value, punct);
    assert(!is_trailing_punct(value.last())) by {
        assert(ascii_lower(value[value.len() - 1]) != value[value.len() - 1] || ('a'
            <= value[value.len() - 1] && value[value.len() - 1] <= 'z'));
    }
    assert(trim_end_punct(value) == value);
    assert(!(eq_ignore_ascii_case(value, "continue"@) && eq_ignore_ascii_case(value, "stop"@)));
    assert(line_directive(line) == Some(decision_of(value)));
    assert(directive_from(s, 0) == decision_of(value));
    law_keyless_line_prefix(before, s);
}

} // verus!
