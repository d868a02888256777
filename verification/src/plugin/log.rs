//! The lines that a plugin logs during one call: bounded, cleaned, newest kept.

use std::collections::VecDeque;
use vstd::prelude::*;
use vstd::string::*;
use vstd::utf8::*;

use crate::text::{byte_len, chars_of, decimal_u64, join, truncate};

verus! {

broadcast use vstd::seq_lib::group_seq_properties;

/// The most lines that one call leaves behind. Older lines go first: the reason
/// of a failure is mostly in the newest ones.
pub const LOG_LINES_MAX: usize = 16;

/// The most bytes of one line. A longer one is cut and gets an ellipsis of
/// three more bytes.
pub const LOG_LINE_MAX: usize = 200;

/// What the rendering sets aside for the note on omitted lines.
pub const NOTE_RESERVE: usize = 48;

/// A control character (`Cc`).
pub open spec fn is_control(c: char) -> bool {
    let n = c as u32;
    n <= 0x1F || 0x7F <= n <= 0x9F
}

/// A character that breaks the one-entry-per-line display or disguises text:
/// control characters, the line and paragraph separators, and the invisible
/// format characters (zero width, bidirectional controls and the like).
pub open spec fn is_breaking(c: char) -> bool {
    let n = c as u32;
    ||| is_control(c)
    ||| n == 0x2028
    ||| n == 0x2029
    ||| n == 0x00AD
    ||| 0x0600 <= n <= 0x0605
    ||| n == 0x061C
    ||| n == 0x06DD
    ||| n == 0x070F
    ||| 0x0890 <= n <= 0x0891
    ||| n == 0x08E2
    ||| n == 0x180E
    ||| 0x200B <= n <= 0x200F
    ||| 0x202A <= n <= 0x202E
    ||| 0x2060 <= n <= 0x2064
    ||| 0x2066 <= n <= 0x206F
    ||| n == 0xFEFF
    ||| 0xFFF9 <= n <= 0xFFFB
    ||| n == 0x110BD
    ||| n == 0x110CD
    ||| 0x13430 <= n <= 0x1343F
    ||| 0x1BCA0 <= n <= 0x1BCA3
    ||| 0x1D173 <= n <= 0x1D17A
    ||| n == 0xE0001
    ||| 0xE0020 <= n <= 0xE007F
}

/// Whether `c` would break the display or disguise text.
pub fn breaks_display(c: char) -> (r: bool)
    ensures
        r == is_breaking(c),
{
    let n: u32 = c as u32;
    let control = n <= 0x1F || (0x7F <= n && n <= 0x9F);
    let separator = n == 0x2028 || n == 0x2029;
    let format = n == 0x00AD || (0x0600 <= n && n <= 0x0605) || n == 0x061C || n == 0x06DD || n
        == 0x070F || (0x0890 <= n && n <= 0x0891) || n == 0x08E2 || n == 0x180E || (0x200B <= n && n
        <= 0x200F) || (0x202A <= n && n <= 0x202E) || (0x2060 <= n && n <= 0x2064) || (0x2066 <= n
        && n <= 0x206F) || n == 0xFEFF || (0xFFF9 <= n && n <= 0xFFFB) || n == 0x110BD || n
        == 0x110CD || (0x13430 <= n && n <= 0x1343F) || (0x1BCA0 <= n && n <= 0x1BCA3) || (0x1D173
        <= n && n <= 0x1D17A) || n == 0xE0001 || (0xE0020 <= n && n <= 0xE007F);
    control || separator || format
}

/// A text with a space in place of each breaking character.
pub open spec fn cleaned(s: Seq<char>) -> Seq<char> {
    Seq::new(
        s.len(),
        |i: int|
            if is_breaking(s[i]) {
                ' '
            } else {
                s[i]
            },
    )
}

/// The line that is kept of a logged text.
pub open spec fn log_line(s: Seq<char>) -> Seq<char> {
    crate::text::truncated(cleaned(s), LOG_LINE_MAX as int)
}

fn clean(s: &str) -> (r: String)
    ensures
        r@ == cleaned(s@),
{
    let v = chars_of(s);
    let mut r = String::new();
    let mut i: usize = 0;
    while i < v.len()
        invariant
            i <= v@.len(),
            v@ == s@,
            r@ == cleaned(s@).take(i as int),
        decreases v@.len() - i,
    {
        r.push(
            if breaks_display(v[i]) {
                ' '
            } else {
                v[i]
            },
        );
        assert(cleaned(s@).take(i + 1) =~= cleaned(s@).take(i as int).push(cleaned(s@)[i as int]));
        i = i + 1;
    }
    assert(cleaned(s@).take(i as int) =~= cleaned(s@));
    r
}

/// What a log holds: the newest lines, oldest first, and how many were dropped.
pub ghost struct LogModel {
    pub lines: Seq<Seq<char>>,
    pub dropped: usize,
}

impl LogModel {
    /// The bounds that hold of every log.
    pub open spec fn wf(self) -> bool {
        &&& self.lines.len() <= LOG_LINES_MAX
        &&& forall|i: int|
            0 <= i < self.lines.len() ==> encode_utf8(#[trigger] self.lines[i]).len()
                <= LOG_LINE_MAX + 3
        &&& forall|i: int, k: int|
            0 <= i < self.lines.len() && 0 <= k < self.lines[i].len() ==> !is_breaking(
                #[trigger] self.lines[i][k],
            )
    }

    /// The log with one more text in it.
    pub open spec fn pushed(self, text: Seq<char>) -> LogModel {
        let lines = self.lines.push(log_line(text));
        if lines.len() > LOG_LINES_MAX {
            LogModel { lines: lines.skip(1), dropped: self.dropped.wrapping_add(1) }
        } else {
            LogModel { lines, dropped: self.dropped }
        }
    }
}

/// The lines that a plugin logged during one call, for the panel to show why a
/// dispatch failed. Every level is kept.
///
/// The bounds hold on the writing side: a call that was given up on may go on
/// writing, and no bound on the reading side would stop it.
pub struct PluginLog {
    /// Newest last.
    lines: VecDeque<String>,
    /// How many lines were pushed out.
    dropped: usize,
}

/// Where one call's lines are gathered.
pub type LogSink = PluginLog;

impl View for PluginLog {
    type V = LogModel;

    closed spec fn view(&self) -> LogModel {
        LogModel { lines: crate::text::texts(self.lines@), dropped: self.dropped }
    }
}

/// An empty sink. One for each call: sharing it would mix two calls' lines.
pub fn new_log_sink() -> (log: LogSink)
    ensures
        log@.lines.len() == 0,
        log@.dropped == 0,
        log@.wf(),
{
    PluginLog { lines: VecDeque::new(), dropped: 0 }
}

/// A kept line is short and free of breaking characters.
pub proof fn lemma_log_line(s: Seq<char>)
    ensures
        encode_utf8(log_line(s)).len() <= LOG_LINE_MAX + 3,
        forall|k: int| 0 <= k < log_line(s).len() ==> !is_breaking(#[trigger] log_line(s)[k]),
{
    let c = cleaned(s);
    crate::text::lemma_truncated_len(c, LOG_LINE_MAX as int);
    crate::text::lemma_clipped(c, LOG_LINE_MAX as int);
    assert forall|k: int| 0 <= k < log_line(s).len() implies !is_breaking(
        #[trigger] log_line(s)[k],
    ) by {
        let clip = crate::text::clipped(c, LOG_LINE_MAX as int);
        if encode_utf8(c).len() > LOG_LINE_MAX && k < clip.len() {
            assert(clip =~= c.take(clip.len() as int));
            assert(log_line(s)[k] == c[k]);
        }
    }
}

impl PluginLog {
    /// Keeps one line. Breaking characters become spaces: the panel shows one
    /// entry per line, and a line break or a direction override in a plugin's
    /// text would forge or disguise one.
    pub fn push(&mut self, line: &str)
        requires
            old(self)@.wf(),
        ensures
            final(self)@ == old(self)@.pushed(line@),
            final(self)@.wf(),
    {
        let kept = truncate(clean(line).as_str(), LOG_LINE_MAX);
        proof {
            lemma_log_line(line@);
        }
        self.lines.push_back(kept);
        assert(self@.lines =~= old(self)@.lines.push(log_line(line@)));
        if self.lines.len() > LOG_LINES_MAX {
            let _ = self.lines.pop_front();
            self.dropped = self.dropped.wrapping_add(1);
            assert(self@.lines =~= old(self)@.lines.push(log_line(line@)).skip(1));
        }
    }

    /// How many lines are kept.
    pub fn len(&self) -> (n: usize)
        ensures
            n == self@.lines.len(),
    {
        self.lines.len()
    }

    /// How many lines were pushed out by newer ones.
    pub fn dropped(&self) -> (n: usize)
        ensures
            n == self@.dropped,
    {
        self.dropped
    }

    /// A kept line by its place, the oldest at 0.
    pub fn line(&self, i: usize) -> (r: Option<String>)
        ensures
            match r {
                Some(s) => i < self@.lines.len() && s@ == self@.lines[i as int],
                None => i >= self@.lines.len(),
            },
    {
        if i < self.lines.len() {
            Some(self.lines[i].clone())
        } else {
            None
        }
    }
}

// ---------------------------------------------------------------------------
// Rendering
// ---------------------------------------------------------------------------

/// What a line costs in a rendering: its bytes and a line break.
pub open spec fn line_cost(line: Seq<char>) -> int {
    encode_utf8(line).len() as int + 1
}

/// What the lines from `k` on cost together.
pub open spec fn cost_from(lines: Seq<Seq<char>>, k: int) -> int
    decreases lines.len() - k,
{
    if k >= lines.len() {
        0
    } else {
        line_cost(lines[k]) + cost_from(lines, k + 1)
    }
}

/// The first line of the longest run of newest lines that costs at most
/// `budget`, at `k` or before it.
pub open spec fn first_kept(lines: Seq<Seq<char>>, budget: int, k: int) -> int
    decreases k,
{
    if k > 0 && cost_from(lines, k - 1) <= budget {
        first_kept(lines, budget, k - 1)
    } else {
        k
    }
}

/// The lines that a rendering keeps: the longest run of newest ones that fits
/// the budget, or the newest alone, truncated to the budget, where it does not
/// fit by itself.
pub open spec fn kept_lines(lines: Seq<Seq<char>>, budget: int) -> Seq<Seq<char>> {
    if lines.len() == 0 {
        lines
    } else if line_cost(lines.last()) > budget {
        seq![crate::text::truncated(lines.last(), budget)]
    } else {
        lines.skip(first_kept(lines, budget, lines.len() as int))
    }
}

/// What is left of `max` bytes for the lines.
pub open spec fn line_budget(max: usize) -> int {
    if max <= NOTE_RESERVE {
        0
    } else {
        max - NOTE_RESERVE
    }
}

/// How many lines a rendering leaves out, those that were dropped among them.
pub open spec fn omitted_lines(log: LogModel, max: usize) -> usize {
    log.dropped.wrapping_add(
        (log.lines.len() - kept_lines(log.lines, line_budget(max)).len()) as usize,
    )
}

/// The note on omitted lines.
pub open spec fn omission_note(n: usize) -> Seq<char> {
    "…（更早的 "@ + crate::text::decimal(n as nat) + " 行已省略）\n"@
}

/// The rendering of a log within `max` bytes.
pub open spec fn rendered(log: LogModel, max: usize) -> Option<Seq<char>> {
    if log.lines.len() == 0 {
        None
    } else {
        let body = crate::text::joined(kept_lines(log.lines, line_budget(max)), seq!['\n']);
        let omitted = omitted_lines(log, max);
        if omitted == 0 {
            Some(body)
        } else {
            Some(omission_note(omitted) + body)
        }
    }
}

proof fn lemma_first_kept(lines: Seq<Seq<char>>, budget: int, k: int)
    requires
        0 <= k <= lines.len(),
    ensures
        0 <= first_kept(lines, budget, k) <= k,
        cost_from(lines, k) <= budget ==> cost_from(lines, first_kept(lines, budget, k)) <= budget,
    decreases k,
{
    if k > 0 && cost_from(lines, k - 1) <= budget {
        lemma_first_kept(lines, budget, k - 1);
    }
}

/// Renders a log for a dispatch's detail: the newest lines that fit `max`
/// bytes, in the order in which they were logged, after a note on how many are
/// missing. `None` where nothing was logged.
///
/// The note stands first because the panel shows the last line as a summary,
/// and that has to be the plugin's newest.
pub fn render_log(log: &LogSink, max: usize) -> (r: Option<String>)
    requires
        log@.wf(),
    ensures
        match r {
            Some(s) => rendered(log@, max) == Some(s@),
            None => rendered(log@, max) is None,
        },
{
    let n: usize = log.lines.len();
    if n == 0 {
        return None;
    }
    let ghost lines = log@.lines;
    let budget: usize = max.saturating_sub(NOTE_RESERVE);
    let mut kept: Vec<String> = Vec::new();
    let newest_cost: usize = byte_len(log.lines[n - 1].as_str()) + 1;
    if newest_cost > budget {
        kept.push(truncate(log.lines[n - 1].as_str(), budget));
        assert(crate::text::texts(kept@) =~= kept_lines(lines, budget as int));
    } else {
        let mut from: usize = n;
        let mut used: usize = 0;
        let mut more = true;
        while more && from > 0
            invariant
                from <= n <= LOG_LINES_MAX,
                n == log.lines@.len(),
                lines == log@.lines,
                log@.wf(),
                used == cost_from(lines, from as int),
                used <= 204 * (n - from),
                first_kept(lines, budget as int, from as int) == first_kept(
                    lines,
                    budget as int,
                    n as int,
                ),
                !more ==> first_kept(lines, budget as int, from as int) == from,
            decreases from,
                (if more {
                    1int
                } else {
                    0
                }),
        {
            let cost: usize = byte_len(log.lines[from - 1].as_str()) + 1;
            assert(log.lines@[from - 1]@ == lines[from - 1]);
            assert(cost_from(lines, from - 1) == cost + cost_from(lines, from as int));
            if used + cost > budget {
                more = false;
            } else {
                used = used + cost;
                from = from - 1;
            }
        }
        let mut i: usize = from;
        while i < n
            invariant
                from <= i <= n,
                n == log.lines@.len(),
                lines == log@.lines,
                crate::text::texts(kept@) == lines.subrange(from as int, i as int),
            decreases n - i,
        {
            let ghost before = kept@;
            kept.push(log.lines[i].clone());
            proof {
                crate::text::lemma_texts_push(before, log.lines@[i as int]);
                assert(lines.subrange(from as int, i + 1) =~= lines.subrange(
                    from as int,
                    i as int,
                ).push(lines[i as int]));
            }
            i = i + 1;
        }
        assert(crate::text::texts(kept@) =~= kept_lines(lines, budget as int));
    }
    proof {
        lemma_first_kept(lines, budget as int, n as int);
        assert(crate::text::texts(kept@).len() == kept@.len());
    }
    let omitted: usize = log.dropped.wrapping_add(n - kept.len());
    let body = join(&kept, "\n");
    proof {
        reveal_strlit("\n");
        assert("\n"@ =~= seq!['\n']);
    }
    if omitted == 0 {
        return Some(body);
    }
    let mut r = "…（更早的 ".to_owned();
    r.append(decimal_u64(omitted as u64).as_str());
    r.append(" 行已省略）\n");
    r.append(body.as_str());
    Some(r)
}

// ---------------------------------------------------------------------------
// Laws
// ---------------------------------------------------------------------------

/// Joining costs one byte per line break, so it takes one byte less than the
/// lines cost.
proof fn lemma_joined_len(lines: Seq<Seq<char>>, k: int)
    requires
        0 <= k < lines.len(),
    ensures
        encode_utf8(crate::text::joined(lines.skip(k), seq!['\n'])).len() == cost_from(lines, k) - 1,
    decreases lines.len(),
{
    let part = lines.skip(k);
    if part.len() == 1 {
        assert(cost_from(lines, k + 1) == 0);
    } else {
        let shorter = lines.drop_last();
        assert(part.drop_last() =~= shorter.skip(k));
        lemma_joined_len(shorter, k);
        lemma_cost_drop_last(lines, k);
        let front = crate::text::joined(part.drop_last(), seq!['\n']);
        crate::text::lemma_encode_concat(front, seq!['\n']);
        crate::text::lemma_encode_concat(front + seq!['\n'], part.last());
        is_ascii_chars_encode_utf8(seq!['\n']);
    }
}

proof fn lemma_cost_drop_last(lines: Seq<Seq<char>>, k: int)
    requires
        0 <= k < lines.len(),
    ensures
        cost_from(lines, k) == cost_from(lines.drop_last(), k) + line_cost(lines.last()),
    decreases lines.len() - k,
{
    if k + 1 < lines.len() {
        lemma_cost_drop_last(lines, k + 1);
    } else {
        assert(cost_from(lines, k + 1) == 0);
    }
}

proof fn lemma_note_len(n: usize)
    requires
        n < 1_000_000_000_000,
    ensures
        encode_utf8(omission_note(n)).len() <= 45,
{
    let digits = crate::text::decimal(n as nat);
    assert(crate::text::ten_to(12) == 1_000_000_000_000) by {
        reveal_with_fuel(crate::text::ten_to, 13);
    }
    crate::text::lemma_decimal_len(n as nat, 12);
    reveal_strlit("…（更早的 ");
    reveal_strlit(" 行已省略）\n");
    let front = "…（更早的 "@;
    let back = " 行已省略）\n"@;
    crate::text::lemma_encode_concat(front, digits);
    crate::text::lemma_encode_concat(front + digits, back);
    assert(encode_utf8(front).len() == 16) by {
        assert(front =~= seq!['…', '（', '更', '早', '的', ' ']);
        reveal_with_fuel(encode_utf8, 8);
    }
    assert(encode_utf8(back).len() == 17) by {
        assert(back =~= seq![' ', '行', '已', '省', '略', '）', '\n']);
        reveal_with_fuel(encode_utf8, 8);
    }
}

/// A rendering takes at most `max` bytes, for every `max` that leaves room for
/// the note and every count of omitted lines that the note has room for.
pub proof fn law_rendering_fits(log: LogModel, max: usize)
    requires
        max >= NOTE_RESERVE,
        omitted_lines(log, max) < 1_000_000_000_000,
    ensures
        rendered(log, max) matches Some(s) ==> encode_utf8(s).len() <= max,
{
    if log.lines.len() > 0 {
        let lines = log.lines;
        let budget = line_budget(max);
        let kept = kept_lines(lines, budget);
        let body = crate::text::joined(kept, seq!['\n']);
        assert(encode_utf8(body).len() <= budget + 3) by {
            if line_cost(lines.last()) > budget {
                crate::text::lemma_truncated_len(lines.last(), budget);
            } else {
                let n = lines.len() as int;
                let k = first_kept(lines, budget, n);
                lemma_first_kept(lines, budget, n);
                assert(cost_from(lines, n) == 0);
                assert(cost_from(lines, n - 1) == line_cost(lines.last()));
                lemma_first_kept(lines, budget, n - 1);
                lemma_joined_len(lines, k);
            }
        }
        let omitted = omitted_lines(log, max);
        lemma_note_len(omitted);
        crate::text::lemma_encode_concat(omission_note(omitted), body);
    }
}

/// The note that stands before a rendering: nothing where no line is missing.
pub open spec fn note_before(missing: nat) -> Seq<char> {
    if missing == 0 {
        Seq::empty()
    } else {
        "…（更早的 "@ + crate::text::decimal(missing) + " 行已省略）\n"@
    }
}

/// A rendering is the longest run of newest lines that takes, joined by line
/// breaks, less than what `max` leaves beside 48 bytes; where the newest line
/// alone is longer, it stands alone and is truncated. Before it stands a note
/// of how many lines are missing, those that were dropped among them. A log
/// without lines has no rendering.
pub proof fn law_rendering_is_the_newest_run(log: LogModel, max: usize)
    requires
        log.dropped + log.lines.len() <= usize::MAX,
    ensures
        log.lines.len() == 0 <==> rendered(log, max) is None,
        log.lines.len() > 0 ==> {
            let n = log.lines.len() as int;
            let budget = if max > 48 {
                max - 48
            } else {
                0
            };
            &&& encode_utf8(log.lines.last()).len() >= budget ==> rendered(log, max) == Some(
                note_before((log.dropped + n - 1) as nat) + crate::text::truncated(
                    log.lines.last(),
                    budget,
                ),
            )
            &&& encode_utf8(log.lines.last()).len() < budget ==> exists|k: int|
                #![trigger log.lines.skip(k)]
                0 <= k < n && encode_utf8(
                    crate::text::joined(log.lines.skip(k), seq!['\n']),
                ).len() < budget && (k == 0 || encode_utf8(
                    crate::text::joined(log.lines.skip(k - 1), seq!['\n']),
                ).len() >= budget) && rendered(log, max) == Some(
                    note_before((log.dropped + k) as nat) + crate::text::joined(
                        log.lines.skip(k),
                        seq!['\n'],
                    ),
                )
        },
{
    if log.lines.len() > 0 {
        let lines = log.lines;
        let n = lines.len() as int;
        let budget = line_budget(max);
        let body = crate::text::joined(kept_lines(lines, budget), seq!['\n']);
        assert(cost_from(lines, n) == 0);
        assert(cost_from(lines, n - 1) == line_cost(lines.last()));
        if line_cost(lines.last()) > budget {
            assert(omitted_lines(log, max) == log.dropped + n - 1);
            assert(body == crate::text::truncated(lines.last(), budget));
            assert(Seq::<char>::empty() + body =~= body);
        } else {
            let k = first_kept(lines, budget, n);
            lemma_first_kept(lines, budget, n);
            lemma_first_kept(lines, budget, n - 1);
            lemma_first_kept_is_least(lines, budget, n);
            assert(k == first_kept(lines, budget, n - 1));
            lemma_joined_len(lines, k);
            if k > 0 {
                lemma_joined_len(lines, k - 1);
            }
            assert(omitted_lines(log, max) == log.dropped + k);
            assert(Seq::<char>::empty() + body =~= body);
            assert(body == crate::text::joined(lines.skip(k), seq!['\n']));
        }
    }
}

proof fn lemma_first_kept_is_least(lines: Seq<Seq<char>>, budget: int, k: int)
    requires
        0 <= k <= lines.len(),
    ensures
        first_kept(lines, budget, k) > 0 ==> cost_from(lines, first_kept(lines, budget, k) - 1)
            > budget,
    decreases k,
{
    if k > 0 && cost_from(lines, k - 1) <= budget {
        lemma_first_kept_is_least(lines, budget, k - 1);
    }
}

/// A rendering ends with the newest line, whole where it fits the budget.
pub proof fn law_newest_line_is_last(log: LogModel, max: usize)
    requires
        log.lines.len() > 0,
    ensures
        rendered(log, max) is Some,
        line_cost(log.lines.last()) <= line_budget(max) ==> log.lines.last().is_suffix_of(
            rendered(log, max)->0,
        ),
        line_cost(log.lines.last()) > line_budget(max) ==> crate::text::truncated(
            log.lines.last(),
            line_budget(max),
        ).is_suffix_of(rendered(log, max)->0),
{
    let lines = log.lines;
    let budget = line_budget(max);
    let n = lines.len() as int;
    let kept = kept_lines(lines, budget);
    let body = crate::text::joined(kept, seq!['\n']);
    let last = kept.last();
    lemma_first_kept(lines, budget, n);
    if line_cost(lines.last()) <= budget {
        assert(cost_from(lines, n) == 0);
        assert(cost_from(lines, n - 1) == line_cost(lines.last()));
        lemma_first_kept(lines, budget, n - 1);
        assert(last == lines.last());
    }
    assert(last.is_suffix_of(body)) by {
        assert(body.subrange(body.len() - last.len(), body.len() as int) =~= last);
    }
    let omitted = omitted_lines(log, max);
    let whole = rendered(log, max)->0;
    assert(whole.subrange(whole.len() - last.len(), whole.len() as int) =~= last) by {
        assert(body.subrange(body.len() - last.len(), body.len() as int) =~= last);
        if omitted != 0 {
            assert forall|i: int| 0 <= i < last.len() implies whole[whole.len() - last.len() + i]
                == last[i] by {
                assert(body[body.len() - last.len() + i] == last[i]);
            }
        }
    }
}

/// The log after some texts, one after the other.
pub open spec fn pushed_all(log: LogModel, given: Seq<Seq<char>>) -> LogModel
    decreases given.len(),
{
    if given.len() == 0 {
        log
    } else {
        pushed_all(log, given.drop_last()).pushed(given.last())
    }
}

/// After any number of pushes, as many as the counter can tell, an empty log
/// holds the newest lines up to its bound, in their order, and has counted
/// every line that was pushed out.
pub proof fn law_log_of_many_lines(log: LogModel, given: Seq<Seq<char>>)
    requires
        log.lines.len() == 0,
        log.dropped == 0,
        given.len() <= usize::MAX + LOG_LINES_MAX,
    ensures
        ({
            let r = pushed_all(log, given);
            let all = given.map_values(|text: Seq<char>| log_line(text));
            let gone = if given.len() > LOG_LINES_MAX {
                given.len() - LOG_LINES_MAX
            } else {
                0
            };
            &&& r.wf()
            &&& r.lines == all.skip(gone)
            &&& r.dropped == gone
            &&& r.dropped + r.lines.len() == given.len()
        }),
    decreases given.len(),
{
    let all = given.map_values(|text: Seq<char>| log_line(text));
    if given.len() == 0 {
        assert(all.skip(0) =~= log.lines);
    } else {
        let front = given.drop_last();
        let before = front.map_values(|text: Seq<char>| log_line(text));
        law_log_of_many_lines(log, front);
        let earlier = pushed_all(log, front);
        law_push_keeps_the_newest(earlier, given.last());
        assert(all =~= before.push(log_line(given.last())));
        let gone: int = if front.len() > LOG_LINES_MAX {
            front.len() - LOG_LINES_MAX
        } else {
            0
        };
        assert(before.skip(gone).push(log_line(given.last())) =~= all.skip(gone));
        if given.len() > LOG_LINES_MAX {
            assert(all.skip(gone).skip(1) =~= all.skip(gone + 1));
        }
    }
}

/// A log never holds more than its bound, and after any push the newest line is
/// the pushed one.
pub proof fn law_push_keeps_the_newest(log: LogModel, text: Seq<char>)
    requires
        log.wf(),
    ensures
        log.pushed(text).wf(),
        log.pushed(text).lines.last() == log_line(text),
        log.lines.len() == LOG_LINES_MAX ==> log.pushed(text).dropped == log.dropped.wrapping_add(1),
        log.lines.len() < LOG_LINES_MAX ==> log.lines.is_prefix_of(log.pushed(text).lines),
        log.dropped < usize::MAX || log.lines.len() < LOG_LINES_MAX ==> log.pushed(text).dropped
            + log.pushed(text).lines.len() == log.dropped + log.lines.len() + 1,
{
    lemma_log_line(text);
    let lines = log.lines.push(log_line(text));
    assert(log.lines =~= lines.take(log.lines.len() as int));
}

} // verus!
