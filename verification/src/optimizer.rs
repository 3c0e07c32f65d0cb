//! What the model sees of tool results: each is cut to a budget of its tool,
//! keeping the head and the tail. The history itself stays as it is.

use crate::language_model::{
    LanguageModelToolResult, LanguageModelToolResultView, MessageContent, MessageContentView,
};
use crate::message::{Message, MessageView};
use crate::text::{
    chars_of, clone_opt_string, dec, find_from, first_index, first_index_is_first, is_digit, join,
    join_strings, joining_goes_by_parts, lines, lines_end_at_line_feeds, push_dec, str_eq, str_lines,
    string_of_range, strs,
};
use vstd::prelude::*;
use vstd::utf8::{encode_scalar, encode_utf8};

verus! {

pub const BUDGET_READ: usize = 24576;

pub const BUDGET_BASH: usize = 16384;

pub const BUDGET_BASH_OUTPUT: usize = 16384;

pub const BUDGET_MONITOR: usize = 16384;

pub const BUDGET_WEB: usize = 16384;

pub const BUDGET_GREP: usize = 8192;

pub const BUDGET_GLOB: usize = 8192;

pub const BUDGET_LIST: usize = 8192;

pub const BUDGET_DEFAULT: usize = 16384;

/// The output budget of a tool in bytes.
pub open spec fn budget_of(tool: Seq<char>) -> usize {
    if tool == "Read"@ {
        BUDGET_READ
    } else if tool == "Bash"@ {
        BUDGET_BASH
    } else if tool == "BashOutput"@ {
        BUDGET_BASH_OUTPUT
    } else if tool == "Monitor"@ {
        BUDGET_MONITOR
    } else if tool == "WebFetch"@ || tool == "WebSearch"@ {
        BUDGET_WEB
    } else if tool == "Grep"@ {
        BUDGET_GREP
    } else if tool == "Glob"@ {
        BUDGET_GLOB
    } else if tool == "List"@ {
        BUDGET_LIST
    } else {
        BUDGET_DEFAULT
    }
}

/// The output budget of a tool in bytes.
pub fn tool_budget(tool_name: &str) -> (r: usize)
    ensures
        r == budget_of(tool_name@),
{
    if str_eq(tool_name, "Read") {
        BUDGET_READ
    } else if str_eq(tool_name, "Bash") {
        BUDGET_BASH
    } else if str_eq(tool_name, "BashOutput") {
        BUDGET_BASH_OUTPUT
    } else if str_eq(tool_name, "Monitor") {
        BUDGET_MONITOR
    } else if str_eq(tool_name, "WebFetch") || str_eq(tool_name, "WebSearch") {
        BUDGET_WEB
    } else if str_eq(tool_name, "Grep") {
        BUDGET_GREP
    } else if str_eq(tool_name, "Glob") {
        BUDGET_GLOB
    } else if str_eq(tool_name, "List") {
        BUDGET_LIST
    } else {
        BUDGET_DEFAULT
    }
}

// ---------------------------------------------------------------------------
// Line numbers
// ---------------------------------------------------------------------------

/// Whether a line is the header `[path#TAG]` of a file that was read.
pub open spec fn is_header(line: Seq<char>) -> bool {
    line.len() > 0 && line[0] == '[' && line.last() == ']' && line.contains('#')
}

/// The text behind the header line, if there is one.
pub open spec fn without_header(raw: Seq<char>) -> Seq<char> {
    let i = first_index(raw, '\n') as int;
    if i < raw.len() && is_header(raw.take(i)) {
        raw.skip(i + 1)
    } else {
        raw
    }
}

fn strip_header(raw: &str) -> (r: String)
    ensures
        r@ == without_header(raw@),
{
    let v = chars_of(raw);
    assert(v@.skip(0) =~= v@);
    let i = find_from(&v, 0, '\n');
    let n: usize = v.len();
    if i < n && i > 0 && v[0] == '[' && v[i - 1] == ']' {
        let ghost line = raw@.take(i as int);
        let mut k: usize = 0;
        while k < i
            invariant
                k <= i < n,
                n == v@.len(),
                v@ == raw@,
                line == raw@.take(i as int),
                i == first_index(raw@, '\n'),
                i > 0,
                v@[0] == '[',
                v@[i - 1] == ']',
                forall|j: int| 0 <= j < k ==> line[j] != '#',
            decreases i - k,
        {
            if v[k] == '#' {
                assert(line[k as int] == '#');
                assert(v@.subrange(i + 1, v@.len() as int) =~= raw@.skip(i + 1));
                return string_of_range(&v, i + 1, n);
            }
            k += 1;
        }
        assert(!line.contains('#'));
    }
    raw.to_owned()
}

/// How many digits a line starts with.
pub open spec fn number_len(line: Seq<char>) -> nat
    decreases line.len(),
{
    if line.len() > 0 && is_digit(line[0]) {
        number_len(line.skip(1)) + 1
    } else {
        0
    }
}

/// The line without the line number and the colon in front.
pub open spec fn unnumbered(line: Seq<char>) -> Seq<char> {
    let n = number_len(line) as int;
    if 0 < n < line.len() && line[n] == ':' {
        line.skip(n + 1)
    } else {
        line
    }
}

proof fn lemma_number_len(line: Seq<char>, n: int)
    requires
        0 <= n <= line.len(),
        forall|i: int| 0 <= i < n ==> is_digit(#[trigger] line[i]),
        n < line.len() ==> !is_digit(line[n]),
    ensures
        number_len(line) == n,
    decreases n,
{
    if n > 0 {
        assert(is_digit(line[0]));
        let rest = line.skip(1);
        assert forall|i: int| 0 <= i < n - 1 implies is_digit(#[trigger] rest[i]) by {
            assert(rest[i] == line[i + 1]);
        }
        lemma_number_len(rest, n - 1);
    }
}

fn strip_number(line: &str) -> (r: String)
    ensures
        r@ == unnumbered(line@),
{
    let v = chars_of(line);
    let mut n: usize = 0;
    while n < v.len() && '0' <= v[n] && v[n] <= '9'
        invariant
            n <= v@.len(),
            v@ == line@,
            forall|i: int| 0 <= i < n ==> is_digit(#[trigger] line@[i]),
        decreases v@.len() - n,
    {
        n += 1;
    }
    proof {
        lemma_number_len(line@, n as int);
    }
    if n > 0 && n < v.len() && v[n] == ':' {
        assert(v@.subrange(n + 1, v@.len() as int) =~= line@.skip(n + 1));
        string_of_range(&v, n + 1, v.len())
    } else {
        line.to_owned()
    }
}

pub open spec fn unnumbered_lines(ls: Seq<Seq<char>>) -> Seq<Seq<char>> {
    Seq::new(ls.len(), |i: int| unnumbered(ls[i]))
}

/// What is left of an output without the header and the line numbers that
/// reading a file adds.
pub open spec fn without_numbering(tool: Seq<char>, raw: Seq<char>) -> Seq<char> {
    if tool == "Read"@ {
        join(unnumbered_lines(lines(without_header(raw))), "\n"@)
    } else {
        raw
    }
}

/// Strips the `[path#TAG]` header and the `N:` line numbers that reading a file
/// adds. The output of other tools stays as it is.
pub fn strip_hashline_numbering(tool_name: &str, raw: &str) -> (r: String)
    ensures
        r@ == without_numbering(tool_name@, raw@),
{
    if !str_eq(tool_name, "Read") {
        return raw.to_owned();
    }
    let body = strip_header(raw);
    let ls = str_lines(body.as_str());
    let ghost all = lines(without_header(raw@));
    let mut out: Vec<String> = Vec::new();
    for i in 0..ls.len()
        invariant
            strs(ls@) == all,
            strs(out@) == unnumbered_lines(all).take(i as int),
    {
        let ghost before = strs(out@);
        assert(all[i as int] == ls@[i as int]@);
        out.push(strip_number(ls[i].as_str()));
        assert(strs(out@) =~= before.push(unnumbered_lines(all)[i as int]));
        assert(strs(out@) =~= unnumbered_lines(all).take(i + 1));
    }
    assert(strs(out@) =~= unnumbered_lines(all));
    join_strings(&out, "\n")
}

// ---------------------------------------------------------------------------
// Truncation
// ---------------------------------------------------------------------------

/// The number of bytes of a character in UTF-8.
pub open spec fn width(c: char) -> nat {
    encode_scalar(c as u32).len()
}

fn char_width(c: char) -> (r: usize)
    ensures
        r == width(c),
        1 <= r <= 4,
{
    let n = c as u32;
    if n <= 0x7F {
        1
    } else if n <= 0x7FF {
        2
    } else if n <= 0xFFFF {
        3
    } else {
        4
    }
}

/// How many characters at the front fit into `n` bytes.
pub open spec fn head_len(s: Seq<char>, n: int) -> nat
    decreases s.len(),
{
    if s.len() == 0 || width(s[0]) > n {
        0
    } else {
        head_len(s.skip(1), n - width(s[0])) + 1
    }
}

/// How many characters at the end fit into `n` bytes.
pub open spec fn tail_len(s: Seq<char>, n: int) -> nat
    decreases s.len(),
{
    if s.len() == 0 || width(s.last()) > n {
        0
    } else {
        tail_len(s.drop_last(), n - width(s.last())) + 1
    }
}

fn count_head(v: &Vec<char>, n: usize) -> (r: usize)
    ensures
        r == head_len(v@, n as int),
        r <= v@.len(),
{
    let mut k: usize = 0;
    let mut left: usize = n;
    assert(v@.skip(0) =~= v@);
    while k < v.len() && char_width(v[k]) <= left
        invariant
            k <= v@.len(),
            head_len(v@, n as int) == k + head_len(v@.skip(k as int), left as int),
        decreases v@.len() - k,
    {
        assert(v@.skip(k as int).skip(1) =~= v@.skip(k + 1));
        left -= char_width(v[k]);
        k += 1;
    }
    k
}

fn count_tail(v: &Vec<char>, n: usize) -> (r: usize)
    ensures
        r == tail_len(v@, n as int),
        r <= v@.len(),
{
    let mut k: usize = 0;
    let mut left: usize = n;
    assert(v@.take(v@.len() as int) =~= v@);
    while k < v.len() && char_width(v[v.len() - 1 - k]) <= left
        invariant
            k <= v@.len(),
            tail_len(v@, n as int) == k + tail_len(v@.take(v@.len() - k), left as int),
        decreases v@.len() - k,
    {
        assert(v@.take(v@.len() - k).drop_last() =~= v@.take(v@.len() - k - 1));
        left -= char_width(v[v.len() - 1 - k]);
        k += 1;
    }
    k
}

/// The bytes kept from the beginning: three fifths of the budget.
pub open spec fn head_budget(budget: usize) -> int {
    budget as int * 3 / 5
}

/// The bytes kept from the end: a quarter of the budget.
pub open spec fn tail_budget(budget: usize) -> int {
    budget as int / 4
}

/// The characters at the front that fit into `n` bytes.
pub open spec fn head(s: Seq<char>, n: int) -> Seq<char> {
    s.take(head_len(s, n) as int)
}

/// The characters at the end that fit into `n` bytes.
pub open spec fn tail(s: Seq<char>, n: int) -> Seq<char> {
    s.skip(s.len() - tail_len(s, n))
}

/// The line that says what is missing.
pub open spec fn elision(total: nat, h: nat, t: nat) -> Seq<char> {
    "\n⚠ Output truncated ("@ + dec(total) + " bytes, showing first "@ + dec(h) + " and last "@
        + dec(t) + "; "@ + dec((total - h - t) as nat) + " bytes elided)\n"@
}

fn elision_line(total: usize, h: usize, t: usize) -> (r: String)
    requires
        h + t <= total,
    ensures
        r@ == elision(total as nat, h as nat, t as nat),
{
    let mut out = "\n⚠ Output truncated (".to_owned();
    push_dec(&mut out, total as u64);
    out.append(" bytes, showing first ");
    push_dec(&mut out, h as u64);
    out.append(" and last ");
    push_dec(&mut out, t as u64);
    out.append("; ");
    push_dec(&mut out, (total - h - t) as u64);
    out.append(" bytes elided)\n");
    out
}

/// A text cut to a budget of bytes: its head and its tail, with a line between
/// that says what is missing.
pub open spec fn truncated(text: Seq<char>, budget: usize) -> Seq<char> {
    let total = encode_utf8(text).len();
    let h = head_budget(budget);
    let t = tail_budget(budget);
    if total <= budget {
        text
    } else {
        head(text, h) + elision(total, h as nat, t as nat) + tail(text, t)
    }
}

/// Cuts `text` to `budget` bytes, keeping the head (three fifths of the budget)
/// and the tail (a quarter). A line says what is missing between.
pub fn truncate_with_budget(text: &str, budget: usize) -> (r: String)
    ensures
        r@ == truncated(text@, budget),
{
    let total: usize = text.as_bytes().len();
    if total <= budget {
        return text.to_owned();
    }
    let head_bytes: usize = budget / 5 * 3 + budget % 5 * 3 / 5;
    let tail_bytes: usize = budget / 4;
    assert(head_bytes == head_budget(budget)) by {
        assert(budget == budget / 5 * 5 + budget % 5);
        assert(budget * 3 == (budget / 5 * 3) * 5 + budget % 5 * 3);
    }
    assert(head_bytes + tail_bytes <= budget);
    let v = chars_of(text);
    let h = count_head(&v, head_bytes);
    let t = count_tail(&v, tail_bytes);
    let mut out = string_of_range(&v, 0, h);
    let line = elision_line(total, head_bytes, tail_bytes);
    out.append(line.as_str());
    let end = string_of_range(&v, v.len() - t, v.len());
    out.append(end.as_str());
    assert(v@.subrange(0, h as int) =~= head(text@, head_bytes as int));
    assert(v@.subrange(v@.len() - t, v@.len() as int) =~= tail(text@, tail_bytes as int));
    assert(out@ =~= truncated(text@, budget));
    out
}

/// What the model sees of an output.
pub open spec fn compacted(tool: Seq<char>, raw: Seq<char>, budget: usize) -> Seq<char> {
    truncated(without_numbering(tool, raw), budget)
}

/// Makes the compact form of an output: without line numbers, cut to the budget.
pub fn compact_tool_output(tool_name: &str, raw: &str, budget: usize) -> (r: String)
    ensures
        r@ == compacted(tool_name@, raw@, budget),
{
    let cleaned = strip_hashline_numbering(tool_name, raw);
    truncate_with_budget(cleaned.as_str(), budget)
}

// ---------------------------------------------------------------------------
// Messages
// ---------------------------------------------------------------------------

/// A block as the model sees it: only tool results change, and only in their
/// text.
pub open spec fn optimized_block(c: MessageContentView) -> MessageContentView {
    match c {
        MessageContentView::ToolResult(r) => MessageContentView::ToolResult(
            LanguageModelToolResultView {
                content: compacted(r.tool_name, r.content, budget_of(r.tool_name)),
                ..r
            },
        ),
        other => other,
    }
}

pub open spec fn optimized_blocks(cs: Seq<MessageContentView>) -> Seq<MessageContentView> {
    Seq::new(cs.len(), |i: int| optimized_block(cs[i]))
}

pub open spec fn optimized_message(m: MessageView) -> MessageView {
    MessageView { content: optimized_blocks(m.content), ..m }
}

pub open spec fn optimized(ms: Seq<MessageView>) -> Seq<MessageView> {
    Seq::new(ms.len(), |i: int| optimized_message(ms[i]))
}

fn optimize_block(c: &MessageContent) -> (r: MessageContent)
    ensures
        r.deep_view() == optimized_block(c.deep_view()),
{
    match c {
        MessageContent::ToolResult(t) => {
            let content = compact_tool_output(
                t.tool_name.as_str(),
                t.content.as_str(),
                tool_budget(t.tool_name.as_str()),
            );
            MessageContent::ToolResult(
                LanguageModelToolResult {
                    tool_use_id: t.tool_use_id.clone(),
                    tool_name: t.tool_name.clone(),
                    is_error: t.is_error,
                    content,
                },
            )
        },
        other => other.clone(),
    }
}

fn optimize_message(m: &Message) -> (r: Message)
    ensures
        r.deep_view() == optimized_message(m.deep_view()),
{
    let ghost wanted = optimized_blocks(m.content.deep_view());
    let mut content: Vec<MessageContent> = Vec::new();
    for i in 0..m.content.len()
        invariant
            wanted == optimized_blocks(m.content.deep_view()),
            content.deep_view() == wanted.take(i as int),
    {
        let ghost before = content.deep_view();
        let c = optimize_block(&m.content[i]);
        content.push(c);
        assert(m.content.deep_view()[i as int] == m.content@[i as int].deep_view());
        assert(content.deep_view() =~= before.push(wanted[i as int]));
        assert(content.deep_view() =~= wanted.take(i + 1));
    }
    assert(content.deep_view() =~= wanted);
    let ui = match &m.ui {
        Some(u) => Some(u.clone()),
        None => None,
    };
    Message {
        id: m.id.clone(),
        timestamp: m.timestamp,
        parent_id: clone_opt_string(&m.parent_id),
        provenance: m.provenance,
        role: m.role,
        content,
        ui,
    }
}

/// Rewrites every tool result through the compact form of its tool. The history
/// is untouched, and nothing but the text of tool results changes.
pub fn optimize(messages: &[Message]) -> (r: Vec<Message>)
    ensures
        r.deep_view() == optimized(messages.deep_view()),
{
    let ghost wanted = optimized(messages.deep_view());
    let mut out: Vec<Message> = Vec::new();
    for i in 0..messages.len()
        invariant
            wanted == optimized(messages.deep_view()),
            out.deep_view() == wanted.take(i as int),
    {
        let ghost before = out.deep_view();
        let m = optimize_message(&messages[i]);
        out.push(m);
        assert(messages.deep_view()[i as int] == messages@[i as int].deep_view());
        assert(out.deep_view() =~= before.push(wanted[i as int]));
        assert(out.deep_view() =~= wanted.take(i + 1));
    }
    assert(out.deep_view() =~= wanted);
    out
}

// ---------------------------------------------------------------------------
// What holds of every output
// ---------------------------------------------------------------------------

proof fn lemma_encoding_of_concat(a: Seq<char>, b: Seq<char>)
    ensures
        encode_utf8(a + b) == encode_utf8(a) + encode_utf8(b),
    decreases a.len(),
{
    if a.len() == 0 {
        assert(a + b =~= b);
        assert(encode_utf8(a) + encode_utf8(b) =~= encode_utf8(b));
    } else {
        lemma_encoding_of_concat(a.drop_first(), b);
        assert((a + b).drop_first() =~= a.drop_first() + b);
        assert((a + b)[0] == a[0]);
        assert(encode_utf8(a + b) =~= encode_utf8(a) + encode_utf8(b));
    }
}

proof fn lemma_head_fits(s: Seq<char>, n: int)
    requires
        n >= 0,
    ensures
        head_len(s, n) <= s.len(),
        encode_utf8(head(s, n)).len() <= n,
    decreases s.len(),
{
    if s.len() == 0 || width(s[0]) > n {
        assert(head(s, n).len() == 0);
        assert(encode_utf8(head(s, n)).len() == 0);
    } else {
        lemma_head_fits(s.skip(1), n - width(s[0]));
        let rest = head(s.skip(1), n - width(s[0]));
        assert(head(s, n).drop_first() =~= rest);
        assert(head(s, n)[0] == s[0]);
        assert(encode_utf8(head(s, n)) == encode_scalar(s[0] as u32) + encode_utf8(rest));
    }
}

proof fn lemma_tail_fits(s: Seq<char>, n: int)
    requires
        n >= 0,
    ensures
        tail_len(s, n) <= s.len(),
        encode_utf8(tail(s, n)).len() <= n,
    decreases s.len(),
{
    if s.len() == 0 || width(s.last()) > n {
        assert(tail(s, n).len() == 0);
        assert(encode_utf8(tail(s, n)).len() == 0);
    } else {
        lemma_tail_fits(s.drop_last(), n - width(s.last()));
        let rest = tail(s.drop_last(), n - width(s.last()));
        let last = seq![s.last()];
        assert(tail(s, n) =~= rest + last);
        lemma_encoding_of_concat(rest, last);
        assert(last.drop_first().len() == 0);
        assert(encode_utf8(last.drop_first()).len() == 0);
        assert(encode_utf8(last) =~= encode_scalar(s.last() as u32));
    }
}

/// What is kept of an output stays within the budget: the head within three
/// fifths of it and the tail within a quarter, so that they never overlap. A
/// text within the budget stays as it is.
pub proof fn what_is_kept_fits_the_budget(text: Seq<char>, budget: usize)
    ensures
        encode_utf8(text).len() <= budget ==> truncated(text, budget) == text,
        encode_utf8(head(text, head_budget(budget))).len() <= head_budget(budget),
        encode_utf8(tail(text, tail_budget(budget))).len() <= tail_budget(budget),
        head_budget(budget) + tail_budget(budget) <= budget,
{
    lemma_head_fits(text, head_budget(budget));
    lemma_tail_fits(text, tail_budget(budget));
}

proof fn lemma_head_is_longest(s: Seq<char>, n: int)
    requires
        n >= 0,
    ensures
        head_len(s, n) <= s.len(),
        head_len(s, n) < s.len() ==> encode_utf8(s.take(head_len(s, n) as int + 1)).len() > n,
    decreases s.len(),
{
    if s.len() == 0 {
    } else if width(s[0]) > n {
        let one = s.take(1);
        assert(one.drop_first() =~= seq![]);
        assert(encode_utf8(one) =~= encode_scalar(s[0] as u32) + encode_utf8(one.drop_first()));
    } else {
        let rest = s.skip(1);
        lemma_head_is_longest(rest, n - width(s[0]));
        let k = head_len(rest, n - width(s[0])) as int;
        if k < rest.len() {
            let more = s.take(k + 2);
            assert(more.drop_first() =~= rest.take(k + 1));
            assert(more[0] == s[0]);
            assert(encode_utf8(more) == encode_scalar(s[0] as u32) + encode_utf8(rest.take(k + 1)));
        }
    }
}

proof fn lemma_encoding_of_one(c: char)
    ensures
        encode_utf8(seq![c]) == encode_scalar(c as u32),
{
    let one = seq![c];
    assert(one.drop_first() =~= seq![]);
    assert(encode_utf8(one) =~= encode_scalar(c as u32) + encode_utf8(one.drop_first()));
}

proof fn lemma_tail_is_longest(s: Seq<char>, n: int)
    requires
        n >= 0,
    ensures
        tail_len(s, n) <= s.len(),
        tail_len(s, n) < s.len() ==> encode_utf8(s.skip(s.len() - tail_len(s, n) - 1)).len() > n,
    decreases s.len(),
{
    if s.len() == 0 {
    } else if width(s.last()) > n {
        assert(s.skip(s.len() - 1) =~= seq![s.last()]);
        lemma_encoding_of_one(s.last());
    } else {
        let rest = s.drop_last();
        lemma_tail_is_longest(rest, n - width(s.last()));
        let k = tail_len(rest, n - width(s.last())) as int;
        if k < rest.len() {
            let less = rest.skip(rest.len() - k - 1);
            let more = s.skip(s.len() - k - 2);
            assert(more =~= less + seq![s.last()]);
            lemma_encoding_of_concat(less, seq![s.last()]);
            lemma_encoding_of_one(s.last());
        }
    }
}

/// Of a text beyond the budget a beginning and an end are kept, apart from each other:
/// the result is the beginning, a line that says what is missing, and the end. The
/// beginning takes up at most three fifths of the budget and the end at most a quarter,
/// in bytes, and neither could be one character longer.
pub proof fn beginning_and_end_are_kept(text: Seq<char>, budget: usize)
    requires
        encode_utf8(text).len() > budget,
    ensures
        exists|i: int, j: int|
            0 <= i <= j <= text.len() && truncated(text, budget) == #[trigger] text.take(i)
                + elision(
                encode_utf8(text).len(),
                (budget as int * 3 / 5) as nat,
                (budget as int / 4) as nat,
            ) + #[trigger] text.skip(j) && encode_utf8(text.take(i)).len() * 5 <= budget * 3 && (i
                < text.len() ==> encode_utf8(text.take(i + 1)).len() * 5 > budget * 3)
                && encode_utf8(text.skip(j)).len() * 4 <= budget && (j > 0 ==> encode_utf8(
                text.skip(j - 1),
            ).len() * 4 > budget),
{
    let h = head_budget(budget);
    let t = tail_budget(budget);
    lemma_head_fits(text, h);
    lemma_tail_fits(text, t);
    lemma_head_is_longest(text, h);
    lemma_tail_is_longest(text, t);
    let i = head_len(text, h) as int;
    let j = text.len() - tail_len(text, t);
    assert(head(text, h) == text.take(i));
    assert(tail(text, t) == text.skip(j));
    if i > j {
        let a = text.take(i);
        let b = text.skip(i);
        assert(text =~= a + b);
        lemma_encoding_of_concat(a, b);
        let c = text.subrange(j, i);
        assert(text.skip(j) =~= c + b);
        lemma_encoding_of_concat(c, b);
        assert(false);
    }
}

/// The line between gives the size of the text, what is shown of its beginning and of
/// its end, and how much is left out, in bytes.
pub proof fn the_line_between_says_what_is_missing(total: nat, h: nat, t: nat)
    requires
        h + t <= total,
    ensures
        elision(total, h, t) == "\n⚠ Output truncated ("@ + dec(total) + " bytes, showing first "@
            + dec(h) + " and last "@ + dec(t) + "; "@ + dec((total - h - t) as nat)
            + " bytes elided)\n"@,
{
}

/// A text within the budget is left alone.
pub proof fn short_texts_stay(text: Seq<char>, budget: usize)
    requires
        encode_utf8(text).len() <= budget,
    ensures
        truncated(text, budget) == text,
{
}

/// The budget of each tool: reading has the largest, searching and listing the
/// smallest, every other tool the one between.
pub proof fn budgets_go_by_tool(tool: Seq<char>)
    ensures
        budget_of("Read"@) == 24 * 1024,
        tool == "Grep"@ || tool == "Glob"@ || tool == "List"@ ==> budget_of(tool) == 8 * 1024,
        tool != "Read"@ && tool != "Grep"@ && tool != "Glob"@ && tool != "List"@ ==> budget_of(tool)
            == 16 * 1024,
{
    reveal_strlit("Read");
    reveal_strlit("Bash");
    reveal_strlit("BashOutput");
    reveal_strlit("Monitor");
    reveal_strlit("WebFetch");
    reveal_strlit("WebSearch");
    reveal_strlit("Grep");
    reveal_strlit("Glob");
    reveal_strlit("List");
    assert("Bash"@[0] != "Grep"@[0] && "Bash"@[0] != "Glob"@[0] && "Bash"@[0] != "List"@[0]);
    assert("Read"@[0] != "Grep"@[0] && "Read"@[0] != "Glob"@[0] && "Read"@[0] != "List"@[0]);
    assert("BashOutput"@.len() != "Grep"@.len() && "BashOutput"@.len() != "Glob"@.len()
        && "BashOutput"@.len() != "List"@.len());
    assert("Monitor"@.len() != "Grep"@.len() && "Monitor"@.len() != "Glob"@.len()
        && "Monitor"@.len() != "List"@.len());
    assert("WebFetch"@.len() != "Grep"@.len() && "WebFetch"@.len() != "Glob"@.len()
        && "WebFetch"@.len() != "List"@.len());
    assert("WebSearch"@.len() != "Grep"@.len() && "WebSearch"@.len() != "Glob"@.len()
        && "WebSearch"@.len() != "List"@.len());
}

/// Only what reading a file puts in front is taken away, and only from its output.
pub proof fn other_outputs_keep_their_text(tool: Seq<char>, raw: Seq<char>)
    requires
        tool != "Read"@,
    ensures
        without_numbering(tool, raw) == raw,
{
}

/// A line number with its colon comes off the line; a line that does not begin with
/// digits and a colon stays.
pub proof fn line_numbers_come_off(number: Seq<char>, line: Seq<char>)
    requires
        number.len() > 0,
        forall|i: int| 0 <= i < number.len() ==> '0' <= #[trigger] number[i] <= '9',
    ensures
        unnumbered(number + seq![':'] + line) == line,
        !(line.len() > 0 && '0' <= line[0] <= '9') ==> unnumbered(line) == line,
        unnumbered(number) == number,
        line.len() > 0 && line[0] != ':' && !('0' <= line[0] <= '9') ==> unnumbered(number + line)
            == number + line,
{
    let numbered = number + seq![':'] + line;
    assert forall|i: int| 0 <= i < number.len() implies is_digit(#[trigger] numbered[i]) by {
        assert(numbered[i] == number[i]);
    }
    lemma_number_len(numbered, number.len() as int);
    assert(numbered.skip(number.len() as int + 1) =~= line);
    assert forall|i: int| 0 <= i < number.len() implies is_digit(#[trigger] number[i]) by {}
    lemma_number_len(number, number.len() as int);
    if line.len() > 0 && line[0] != ':' && !('0' <= line[0] <= '9') {
        let joined = number + line;
        assert forall|i: int| 0 <= i < number.len() implies is_digit(#[trigger] joined[i]) by {
            assert(joined[i] == number[i]);
        }
        assert(joined[number.len() as int] == line[0]);
        lemma_number_len(joined, number.len() as int);
    }
}

/// Reading the numbered form of a line gives back the line, whatever lines follow.
pub proof fn numbered_lines_read_back(number: Seq<char>, line: Seq<char>, more: Seq<char>)
    requires
        number.len() > 0,
        forall|i: int| 0 <= i < number.len() ==> '0' <= #[trigger] number[i] <= '9',
        !line.contains('\n'),
        line.len() == 0 || line.last() != '\r',
        more.len() > 0,
        more[0] != '[',
    ensures
        without_numbering("Read"@, number + seq![':'] + line) == line,
        without_numbering("Read"@, number + seq![':'] + line + seq!['\n'] + more) == line
            + seq!['\n'] + without_numbering("Read"@, more),
{
    reveal_strlit("\n");
    assert("\n"@ =~= seq!['\n']);
    let first = number + seq![':'] + line;
    assert(first[0] == number[0]);
    assert forall|i: int| 0 <= i < first.len() implies first[i] != '\n' by {
        if i < number.len() {
            assert(first[i] == number[i]);
        } else if i > number.len() {
            assert(first[i] == line[i - number.len() - 1]);
        }
    }
    assert(first.last() == if line.len() > 0 { line.last() } else { ':' });
    line_numbers_come_off(number, line);
    lines_end_at_line_feeds(first, more);
    let raw = first + seq!['\n'] + more;
    assert(raw[0] == number[0]);
    lemma_no_header(raw);
    lemma_no_header(first);
    lemma_no_header(more);
    first_index_is_first(more, '\n');
    let rest = lines(more);
    assert(rest.len() > 0);
    assert(lines(raw) == seq![first] + rest);
    assert(unnumbered_lines(seq![first] + rest) =~= seq![line] + unnumbered_lines(rest));
    joining_goes_by_parts(seq![line], unnumbered_lines(rest), "\n"@);
    assert(unnumbered_lines(seq![first]) =~= seq![line]);
}

proof fn lemma_no_header(raw: Seq<char>)
    requires
        raw.len() > 0,
        raw[0] != '[',
    ensures
        without_header(raw) == raw,
{
    first_index_is_first(raw, '\n');
    let i = first_index(raw, '\n') as int;
    if i < raw.len() && i > 0 {
        assert(raw.take(i)[0] == raw[0]);
    }
}

/// The header of a file that was read comes off with its line: it stands in brackets
/// and holds a number sign. What follows is kept, numbers apart.
pub proof fn the_header_comes_off(inner: Seq<char>, body: Seq<char>)
    requires
        inner.contains('#'),
        !inner.contains('\n'),
        body.len() > 0,
        body[0] != '[',
    ensures
        without_numbering("Read"@, seq!['['] + inner + seq![']', '\n'] + body)
            == without_numbering("Read"@, body),
{
    let header = seq!['['] + inner + seq![']'];
    let raw = seq!['['] + inner + seq![']', '\n'] + body;
    assert(raw =~= header + seq!['\n'] + body);
    first_index_is_first(raw, '\n');
    let n = header.len() as int;
    assert(raw[n] == '\n');
    assert forall|i: int| 0 <= i < n implies raw[i] != '\n' by {
        assert(raw[i] == header[i]);
        if 0 < i < n - 1 {
            assert(header[i] == inner[i - 1]);
        }
    }
    assert(first_index(raw, '\n') == n);
    assert(raw.take(n) =~= header);
    let k = choose|k: int| 0 <= k < inner.len() && inner[k] == '#';
    assert(header[k + 1] == '#');
    assert(header[0] == '[' && header.last() == ']');
    assert(raw.skip(n + 1) =~= body);
    lemma_no_header(body);
}

/// What the model sees of a tool result is its text without the numbering, cut to the
/// budget of its tool. The call, the tool and the error flag stay.
pub proof fn tool_results_keep_all_but_their_text(r: LanguageModelToolResultView)
    ensures
        optimized_block(MessageContentView::ToolResult(r)) matches MessageContentView::ToolResult(
            seen,
        ) && seen.tool_use_id == r.tool_use_id && seen.tool_name == r.tool_name && seen.is_error
            == r.is_error && seen.content == truncated(
            without_numbering(r.tool_name, r.content),
            budget_of(r.tool_name),
        ),
        r.tool_name != "Read"@ && encode_utf8(r.content).len() <= budget_of(r.tool_name)
            ==> optimized_block(MessageContentView::ToolResult(r))
            == MessageContentView::ToolResult(r),
{
}

/// The model sees every message in its place, with every block in its place, and all
/// but tool results unchanged.
pub proof fn everything_but_tool_results_is_seen_as_it_is(
    messages: Seq<MessageView>,
    i: int,
    k: int,
)
    requires
        0 <= i < messages.len(),
    ensures
        optimized(messages).len() == messages.len(),
        optimized(messages)[i].id == messages[i].id,
        optimized(messages)[i].timestamp == messages[i].timestamp,
        optimized(messages)[i].parent_id == messages[i].parent_id,
        optimized(messages)[i].provenance == messages[i].provenance,
        optimized(messages)[i].role == messages[i].role,
        optimized(messages)[i].ui == messages[i].ui,
        optimized(messages)[i].content.len() == messages[i].content.len(),
        0 <= k < messages[i].content.len() && messages[i].content[k] !is ToolResult
            ==> optimized(messages)[i].content[k] == messages[i].content[k],
        0 <= k < messages[i].content.len() ==> (messages[i].content[k] is ToolResult
            <==> optimized(messages)[i].content[k] is ToolResult),
{
}

} // verus!
