//! Token usage of a session: per turn, per model, and in total.

use crate::adapt::{is_shown, message_rows, message_rows_in, transcript_rows};
use crate::harness::{AgentMessage, AgentMessageView, HarnessStopReason};
use crate::history::{rows, HistoryEntry, HistoryEntryView};
use crate::language_model::{no_usage, usage_sum, TokenUsage};
use crate::table::Table;
use crate::text::strs;
use vstd::prelude::*;

verus! {

/// The ids of the message rows, in order.
pub open spec fn message_ids(es: Seq<HistoryEntryView>) -> Seq<Seq<char>>
    decreases es.len(),
{
    if es.len() == 0 {
        seq![]
    } else {
        let before = message_ids(es.drop_last());
        match es.last() {
            HistoryEntryView::Message(m) => before.push(m.id),
            HistoryEntryView::Note(_) => before,
        }
    }
}

/// Number of messages that have a row.
pub open spec fn shown_count(ms: Seq<AgentMessageView>) -> nat
    decreases ms.len(),
{
    if ms.len() == 0 {
        0
    } else {
        shown_count(ms.drop_last()) + (if is_shown(ms.last()) {
            1nat
        } else {
            0nat
        })
    }
}

/// Whether the rows and the transcript match one to one.
pub open spec fn lockstep(es: Seq<HistoryEntryView>, ms: Seq<AgentMessageView>) -> bool {
    message_ids(es).len() == shown_count(ms)
}

/// What the walk over a transcript has gathered.
#[verifier::ext_equal]
pub struct Attribution {
    /// The id of the prompt that the current turn answers.
    pub turn: Option<Seq<char>>,
    /// The usage of each turn, by the id of its prompt.
    pub per_turn: Map<Seq<char>, TokenUsage>,
    /// The usage of each model's latest request.
    pub per_model_last: Map<Seq<char>, TokenUsage>,
}

/// `provider/model`, by the model that answered where it is known.
pub open spec fn model_key(
    provider: Seq<char>,
    model: Seq<char>,
    response_model: Option<Seq<char>>,
) -> Seq<char> {
    provider + "/"@ + (match response_model {
        Some(m) => m,
        None => model,
    })
}

/// The map with `u` added to what the key holds.
pub open spec fn with_usage(
    m: Map<Seq<char>, TokenUsage>,
    key: Seq<char>,
    u: TokenUsage,
) -> Map<Seq<char>, TokenUsage> {
    if m.contains_key(key) {
        m.insert(key, usage_sum(m[key], u))
    } else {
        m.insert(key, u)
    }
}

/// One message of the walk; `id` is the id of its row.
pub open spec fn attributed(a: Attribution, m: AgentMessageView, id: Seq<char>) -> Attribution {
    match m {
        AgentMessageView::User { .. } => Attribution { turn: Some(id), ..a },
        AgentMessageView::Assistant { usage, model, provider, response_model, .. } => if usage
            == no_usage() {
            a
        } else {
            Attribution {
                per_turn: match a.turn {
                    Some(key) => with_usage(a.per_turn, key, usage),
                    None => a.per_turn,
                },
                per_model_last: a.per_model_last.insert(
                    model_key(provider, model, response_model),
                    usage,
                ),
                ..a
            }
        },
        _ => a,
    }
}

/// The walk over a transcript in lockstep with the ids of its rows.
pub open spec fn attribution(ids: Seq<Seq<char>>, ms: Seq<AgentMessageView>) -> Attribution
    decreases ms.len(),
{
    if ms.len() == 0 {
        Attribution { turn: None, per_turn: Map::empty(), per_model_last: Map::empty() }
    } else {
        let before = ms.drop_last();
        attributed(attribution(ids, before), ms.last(), ids[shown_count(before) as int])
    }
}

fn collect_ids(history: &Vec<HistoryEntry>) -> (r: Vec<String>)
    ensures
        strs(r@) == message_ids(history.deep_view()),
{
    let mut out: Vec<String> = Vec::new();
    let ghost all = history.deep_view();
    assert(strs(out@) =~= message_ids(all.take(0)));
    for i in 0..history.len()
        invariant
            all == history.deep_view(),
            strs(out@) == message_ids(all.take(i as int)),
    {
        assert(all.take(i + 1).drop_last() =~= all.take(i as int));
        assert(all.take(i + 1).last() == history@[i as int].deep_view());
        let ghost before = strs(out@);
        match &history[i] {
            HistoryEntry::Message(m) => {
                out.push(m.id.clone());
                assert(strs(out@) =~= before.push(m.id@));
            },
            HistoryEntry::Note(_) => {},
        }
    }
    assert(all.take(all.len() as int) =~= all);
    out
}

fn message_is_shown(m: &AgentMessage) -> (r: bool)
    ensures
        r == is_shown(m.deep_view()),
{
    match m {
        AgentMessage::Custom { content, display } => *display && content.len() > 0,
        _ => true,
    }
}

proof fn lemma_shown_monotone(ms: Seq<AgentMessageView>, i: int)
    requires
        0 <= i <= ms.len(),
    ensures
        shown_count(ms.take(i)) <= shown_count(ms),
        i < ms.len() && is_shown(ms[i]) ==> shown_count(ms.take(i)) < shown_count(ms),
        shown_count(ms) <= ms.len(),
    decreases ms.len() - i,
{
    if i < ms.len() {
        lemma_shown_monotone(ms, i + 1);
        assert(ms.take(i + 1).drop_last() =~= ms.take(i));
    } else {
        assert(ms.take(i) =~= ms);
        lemma_shown_bound(ms);
    }
}

proof fn lemma_shown_bound(ms: Seq<AgentMessageView>)
    ensures
        shown_count(ms) <= ms.len(),
    decreases ms.len(),
{
    if ms.len() > 0 {
        lemma_shown_bound(ms.drop_last());
    }
}

/// Whether the mapped history has one row for each shown message of the
/// transcript, as [`request_attribution`] needs it.
pub fn in_lockstep(history: &Vec<HistoryEntry>, messages: &Vec<AgentMessage>) -> (r: bool)
    ensures
        r == lockstep(history.deep_view(), messages.deep_view()),
{
    let ids = collect_ids(history);
    assert(strs(ids@).len() == ids@.len());
    let ghost all = messages.deep_view();
    let mut shown: usize = 0;
    for i in 0..messages.len()
        invariant
            all == messages.deep_view(),
            shown <= i,
            shown == shown_count(all.take(i as int)),
    {
        assert(all.take(i + 1).drop_last() =~= all.take(i as int));
        if message_is_shown(&messages[i]) {
            shown += 1;
        }
    }
    assert(all.take(all.len() as int) =~= all);
    ids.len() == shown
}

pub fn usage_key(provider: &str, model: &str, response_model: &Option<String>) -> (r: String)
    ensures
        r@ == model_key(provider@, model@, response_model.deep_view()),
{
    let mut key = provider.to_owned();
    key.append("/");
    match response_model {
        Some(m) => key.append(m.as_str()),
        None => key.append(model),
    }
    key
}

fn add_usage(table: &mut Table<TokenUsage>, key: String, u: TokenUsage)
    ensures
        final(table)@ == with_usage(old(table)@, key@, u),
{
    let total = match table.get(key.as_str()) {
        Some(before) => *before + u,
        None => u,
    };
    table.insert(key, total);
}

/// Attribute the usage of a transcript: each request accumulates under the
/// prompt that triggered its turn, and each model's latest single request is
/// kept (summing requests would count the repeated prompt prefix once per
/// tool-loop iteration).
pub fn request_attribution(history: &Vec<HistoryEntry>, messages: &Vec<AgentMessage>) -> (r: (
    Table<TokenUsage>,
    Table<TokenUsage>,
))
    requires
        lockstep(history.deep_view(), messages.deep_view()),
    ensures
        ({
            let a = attribution(message_ids(history.deep_view()), messages.deep_view());
            r.0@ == a.per_turn && r.1@ == a.per_model_last
        }),
{
    let ids = collect_ids(history);
    let ghost names = strs(ids@);
    let ghost all = messages.deep_view();
    let mut per_turn: Table<TokenUsage> = Table::new();
    let mut per_model_last: Table<TokenUsage> = Table::new();
    let mut turn: Option<String> = None;
    let mut next: usize = 0;
    for i in 0..messages.len()
        invariant
            all == messages.deep_view(),
            names == strs(ids@),
            names.len() == shown_count(all),
            next <= i,
            next == shown_count(all.take(i as int)),
            per_turn@ == attribution(names, all.take(i as int)).per_turn,
            per_model_last@ == attribution(names, all.take(i as int)).per_model_last,
            turn.deep_view() == attribution(names, all.take(i as int)).turn,
    {
        assert(all.take(i + 1).drop_last() =~= all.take(i as int));
        assert(all.take(i + 1).last() == messages@[i as int].deep_view());
        proof {
            lemma_shown_monotone(all, i as int);
        }
        let shown = message_is_shown(&messages[i]);
        match &messages[i] {
            AgentMessage::User { .. } => {
                assert(names[next as int] == ids@[next as int]@);
                turn = Some(ids[next].clone());
            },
            AgentMessage::Assistant { usage, model, provider, response_model, .. } => {
                if !usage.is_default() {
                    match &turn {
                        Some(key) => add_usage(&mut per_turn, key.clone(), *usage),
                        None => {},
                    }
                    let key = usage_key(provider.as_str(), model.as_str(), response_model);
                    per_model_last.insert(key, *usage);
                }
            },
            _ => {},
        }
        if shown {
            next += 1;
        }
    }
    assert(all.take(all.len() as int) =~= all);
    (per_turn, per_model_last)
}

/// Attributes the usage of a transcript where the mapped history follows it, and
/// says so where it does not.
pub fn checked_attribution(history: &Vec<HistoryEntry>, messages: &Vec<AgentMessage>) -> (r: Result<
    (Table<TokenUsage>, Table<TokenUsage>),
    String,
>)
    ensures
        match r {
            Ok(tables) => {
                let a = attribution(message_ids(history.deep_view()), messages.deep_view());
                &&& lockstep(history.deep_view(), messages.deep_view())
                &&& tables.0@ == a.per_turn
                &&& tables.1@ == a.per_model_last
            },
            Err(e) => {
                &&& !lockstep(history.deep_view(), messages.deep_view())
                &&& e@
                    == "request_attribution id stream out of lockstep with the mapped history"@
            },
        },
{
    if in_lockstep(history, messages) {
        Ok(request_attribution(history, messages))
    } else {
        Err("request_attribution id stream out of lockstep with the mapped history".to_owned())
    }
}

/// The usage of a transcript by its assistant messages alone.
#[verifier::ext_equal]
pub struct UsageTotals {
    pub cumulative: TokenUsage,
    pub per_model: Map<Seq<char>, TokenUsage>,
}

pub open spec fn transcript_usage(ms: Seq<AgentMessageView>) -> UsageTotals
    decreases ms.len(),
{
    if ms.len() == 0 {
        UsageTotals { cumulative: no_usage(), per_model: Map::empty() }
    } else {
        let before = transcript_usage(ms.drop_last());
        match ms.last() {
            AgentMessageView::Assistant { usage, model, provider, response_model, .. } => if usage
                == no_usage() {
                before
            } else {
                UsageTotals {
                    cumulative: usage_sum(before.cumulative, usage),
                    per_model: with_usage(
                        before.per_model,
                        model_key(provider, model, response_model),
                        usage,
                    ),
                }
            },
            _ => before,
        }
    }
}

/// Total usage and usage per model from the assistant messages, for when the
/// session's own statistics are unavailable.
pub fn usage_from_messages(messages: &Vec<AgentMessage>) -> (r: (TokenUsage, Table<TokenUsage>))
    ensures
        r.0 == transcript_usage(messages.deep_view()).cumulative,
        r.1@ == transcript_usage(messages.deep_view()).per_model,
{
    let mut cumulative = TokenUsage::default();
    let mut per_model: Table<TokenUsage> = Table::new();
    let ghost all = messages.deep_view();
    for i in 0..messages.len()
        invariant
            all == messages.deep_view(),
            cumulative == transcript_usage(all.take(i as int)).cumulative,
            per_model@ == transcript_usage(all.take(i as int)).per_model,
    {
        assert(all.take(i + 1).drop_last() =~= all.take(i as int));
        assert(all.take(i + 1).last() == messages@[i as int].deep_view());
        match &messages[i] {
            AgentMessage::Assistant { usage, model, provider, response_model, .. } => {
                if !usage.is_default() {
                    cumulative = cumulative + *usage;
                    let key = usage_key(provider.as_str(), model.as_str(), response_model);
                    add_usage(&mut per_model, key, *usage);
                }
            },
            _ => {},
        }
    }
    assert(all.take(all.len() as int) =~= all);
    (cumulative, per_model)
}

/// Totals as the session's own statistics give them.
#[derive(Debug, Clone, Copy, PartialEq, Eq, Structural)]
pub struct StatsTotals {
    pub input: u64,
    pub output: u64,
    pub cache_write: u64,
    pub cache_read: u64,
}

pub open spec fn usage_of_totals(t: StatsTotals) -> TokenUsage {
    TokenUsage {
        input_tokens: t.input,
        output_tokens: t.output,
        cache_creation_input_tokens: t.cache_write,
        cache_read_input_tokens: t.cache_read,
    }
}

/// Totals as token usage.
pub fn token_usage_from_totals(t: &StatsTotals) -> (r: TokenUsage)
    ensures
        r == usage_of_totals(*t),
{
    TokenUsage {
        input_tokens: t.input,
        output_tokens: t.output,
        cache_creation_input_tokens: t.cache_write,
        cache_read_input_tokens: t.cache_read,
    }
}

/// The usage of each model; of two entries with one key the later counts.
pub open spec fn stats_usage(per_model: Seq<(String, StatsTotals)>) -> Map<Seq<char>, TokenUsage>
    decreases per_model.len(),
{
    if per_model.len() == 0 {
        Map::empty()
    } else {
        stats_usage(per_model.drop_last()).insert(
            per_model.last().0@,
            usage_of_totals(per_model.last().1),
        )
    }
}

/// Total usage and usage per model from the session's statistics.
pub fn usage_from_stats(tokens: &StatsTotals, per_model: &Vec<(String, StatsTotals)>) -> (r: (
    TokenUsage,
    Table<TokenUsage>,
))
    ensures
        r.0 == usage_of_totals(*tokens),
        r.1@ == stats_usage(per_model@),
{
    let mut table: Table<TokenUsage> = Table::new();
    for i in 0..per_model.len()
        invariant
            table@ == stats_usage(per_model@.take(i as int)),
    {
        assert(per_model@.take(i + 1).drop_last() =~= per_model@.take(i as int));
        let usage = token_usage_from_totals(&per_model[i].1);
        table.insert(per_model[i].0.clone(), usage);
    }
    assert(per_model@.take(per_model@.len() as int) =~= per_model@);
    (token_usage_from_totals(tokens), table)
}

/// Whether a message is a response that the provider completed.
pub open spec fn is_response(m: AgentMessageView) -> bool {
    m matches AgentMessageView::Assistant { stop_reason, error_message, .. } && error_message
        is None && stop_reason != Some(HarnessStopReason::Error) && stop_reason != Some(
        HarnessStopReason::Aborted,
    )
}

pub open spec fn response_count(ms: Seq<AgentMessageView>) -> nat
    decreases ms.len(),
{
    if ms.len() == 0 {
        0
    } else {
        response_count(ms.drop_last()) + (if is_response(ms.last()) {
            1nat
        } else {
            0nat
        })
    }
}

pub fn is_successful_response(m: &AgentMessage) -> (r: bool)
    ensures
        r == is_response(m.deep_view()),
{
    match m {
        AgentMessage::Assistant { stop_reason, error_message: None, .. } => match stop_reason {
            Some(HarnessStopReason::Error) => false,
            Some(HarnessStopReason::Aborted) => false,
            _ => true,
        },
        _ => false,
    }
}

/// Number of responses that the provider completed.
pub fn successful_provider_responses(messages: &Vec<AgentMessage>) -> (r: usize)
    ensures
        r == response_count(messages.deep_view()),
{
    let mut n: usize = 0;
    let ghost all = messages.deep_view();
    for i in 0..messages.len()
        invariant
            all == messages.deep_view(),
            n <= i,
            n == response_count(all.take(i as int)),
    {
        assert(all.take(i + 1).drop_last() =~= all.take(i as int));
        if is_successful_response(&messages[i]) {
            n += 1;
        }
    }
    assert(all.take(all.len() as int) =~= all);
    n
}

proof fn lemma_rows_of_transcript(ms: Seq<AgentMessageView>)
    ensures
        transcript_rows(ms).len() == shown_count(ms),
    decreases ms.len(),
{
    if ms.len() > 0 {
        lemma_rows_of_transcript(ms.drop_last());
        assert(message_rows(ms.last()).len() == (if is_shown(ms.last()) {
            1nat
        } else {
            0nat
        }));
    }
}

proof fn lemma_ids_of_rows(history: Seq<HistoryEntry>)
    ensures
        message_ids(entry_views(history)).len() == message_rows_in(rows(history)),
    decreases history.len(),
{
    if history.len() > 0 {
        lemma_ids_of_rows(history.drop_last());
        assert(entry_views(history).drop_last() =~= entry_views(history.drop_last()));
        assert(rows(history).drop_last() =~= rows(history.drop_last()));
        assert(entry_views(history).last() == history.last().deep_view());
        assert(rows(history).last() == history.last().row());
    }
}

pub open spec fn entry_views(history: Seq<HistoryEntry>) -> Seq<HistoryEntryView> {
    Seq::new(history.len(), |i: int| history[i].deep_view())
}

/// A history that shows the messages of a transcript, with notes anywhere between
/// them, is in step with it.
pub proof fn a_mapped_history_is_in_step(history: Seq<HistoryEntry>, ms: Seq<AgentMessageView>)
    requires
        message_rows_in(rows(history)) == transcript_rows(ms).len(),
    ensures
        lockstep(entry_views(history), ms),
{
    lemma_rows_of_transcript(ms);
    lemma_ids_of_rows(history);
}

// ---------------------------------------------------------------------------
// How the walk goes on
// ---------------------------------------------------------------------------

/// A prompt opens a turn under the id of its row and adds no usage.
pub proof fn a_prompt_opens_its_turn(
    ids: Seq<Seq<char>>,
    ms: Seq<AgentMessageView>,
    prompt: AgentMessageView,
)
    requires
        prompt is User,
    ensures
        attribution(ids, ms.push(prompt)).turn == Some(ids[shown_count(ms) as int]),
        attribution(ids, ms.push(prompt)).per_turn == attribution(ids, ms).per_turn,
        attribution(ids, ms.push(prompt)).per_model_last == attribution(ids, ms).per_model_last,
{
    assert(ms.push(prompt).drop_last() =~= ms);
}

/// An answer adds its usage to that of the turn it belongs to, and to no other turn; its
/// model's latest usage is the answer's, under the model that answered. An answer
/// without usage, and any message that is no prompt and no answer, changes nothing.
pub proof fn an_answer_is_counted_in_its_turn(
    ids: Seq<Seq<char>>,
    ms: Seq<AgentMessageView>,
    answer: AgentMessageView,
    other: Seq<char>,
)
    ensures
        ({
            let before = attribution(ids, ms);
            let after = attribution(ids, ms.push(answer));
            match answer {
                AgentMessageView::Assistant { usage, model, provider, response_model, .. } => {
                    let key = provider + "/"@ + (match response_model {
                        Some(m) => m,
                        None => model,
                    });
                    let used = usage.input_tokens > 0 || usage.output_tokens > 0
                        || usage.cache_creation_input_tokens > 0 || usage.cache_read_input_tokens
                        > 0;
                    &&& after.turn == before.turn
                    &&& !used ==> after == before
                    &&& used ==> after.per_model_last.contains_key(key)
                        && after.per_model_last[key] == usage
                    &&& used && other != key ==> (after.per_model_last.contains_key(other)
                        <==> before.per_model_last.contains_key(other)) && (
                    before.per_model_last.contains_key(other) ==> after.per_model_last[other]
                        == before.per_model_last[other])
                    &&& used && before.turn is None ==> after.per_turn == before.per_turn
                    &&& used ==> (before.turn matches Some(t) ==> {
                        &&& after.per_turn.contains_key(t)
                        &&& before.per_turn.contains_key(t) ==> after.per_turn[t] == usage_sum(
                            before.per_turn[t],
                            usage,
                        )
                        &&& !before.per_turn.contains_key(t) ==> after.per_turn[t] == usage
                        &&& other != t ==> (after.per_turn.contains_key(other)
                            <==> before.per_turn.contains_key(other)) && (
                        before.per_turn.contains_key(other) ==> after.per_turn[other]
                            == before.per_turn[other])
                    })
                },
                AgentMessageView::User { .. } => true,
                _ => after == before,
            }
        }),
{
    assert(ms.push(answer).drop_last() =~= ms);
}

/// The ids come from the message rows, in order; notes have none.
pub proof fn ids_come_from_message_rows(es: Seq<HistoryEntryView>, e: HistoryEntryView)
    ensures
        message_ids(Seq::<HistoryEntryView>::empty()).len() == 0,
        e is Note ==> message_ids(es.push(e)) == message_ids(es),
        e matches HistoryEntryView::Message(m) ==> message_ids(es.push(e)) == message_ids(es).push(
            m.id,
        ),
{
    assert(es.push(e).drop_last() =~= es);
}

/// The usage of a whole transcript grows by each answer that used something, in total
/// and under the model that answered, and by nothing else.
pub proof fn every_answer_adds_to_the_total(
    ms: Seq<AgentMessageView>,
    next: AgentMessageView,
    other: Seq<char>,
)
    ensures
        transcript_usage(Seq::<AgentMessageView>::empty()).cumulative == no_usage(),
        transcript_usage(Seq::<AgentMessageView>::empty()).per_model.dom().len() == 0,
        ({
            let before = transcript_usage(ms);
            let after = transcript_usage(ms.push(next));
            match next {
                AgentMessageView::Assistant { usage, model, provider, response_model, .. } => {
                    let key = provider + "/"@ + (match response_model {
                        Some(m) => m,
                        None => model,
                    });
                    let used = usage.input_tokens > 0 || usage.output_tokens > 0
                        || usage.cache_creation_input_tokens > 0 || usage.cache_read_input_tokens
                        > 0;
                    &&& !used ==> after == before
                    &&& used ==> {
                        &&& after.cumulative == usage_sum(before.cumulative, usage)
                        &&& after.per_model.contains_key(key)
                        &&& before.per_model.contains_key(key) ==> after.per_model[key]
                            == usage_sum(before.per_model[key], usage)
                        &&& !before.per_model.contains_key(key) ==> after.per_model[key] == usage
                        &&& other != key ==> (after.per_model.contains_key(other)
                            <==> before.per_model.contains_key(other)) && (
                        before.per_model.contains_key(other) ==> after.per_model[other]
                            == before.per_model[other])
                    }
                },
                _ => after == before,
            }
        }),
{
    assert(ms.push(next).drop_last() =~= ms);
}

/// Statistics give each kind of token as that kind, and each model's entry under its
/// key.
pub proof fn statistics_keep_the_kinds(
    per_model: Seq<(String, StatsTotals)>,
    next: (String, StatsTotals),
    other: Seq<char>,
)
    ensures
        usage_of_totals(next.1).input_tokens == next.1.input,
        usage_of_totals(next.1).output_tokens == next.1.output,
        usage_of_totals(next.1).cache_creation_input_tokens == next.1.cache_write,
        usage_of_totals(next.1).cache_read_input_tokens == next.1.cache_read,
        stats_usage(per_model.push(next)).contains_key(next.0@),
        stats_usage(per_model.push(next))[next.0@] == usage_of_totals(next.1),
        other != next.0@ ==> (stats_usage(per_model.push(next)).contains_key(other) <==> stats_usage(
            per_model,
        ).contains_key(other)),
        other != next.0@ && stats_usage(per_model).contains_key(other) ==> stats_usage(
            per_model.push(next),
        )[other] == stats_usage(per_model)[other],
{
    assert(per_model.push(next).drop_last() =~= per_model);
}

/// An answer counts as completed unless it carries an error, failed or was aborted;
/// nothing else counts.
pub proof fn completed_answers_are_counted(ms: Seq<AgentMessageView>, next: AgentMessageView)
    ensures
        response_count(Seq::<AgentMessageView>::empty()) == 0,
        (next matches AgentMessageView::Assistant { stop_reason, error_message, .. }
            && error_message is None && stop_reason != Some(HarnessStopReason::Error)
            && stop_reason != Some(HarnessStopReason::Aborted)) ==> response_count(ms.push(next))
            == response_count(ms) + 1,
        !(next matches AgentMessageView::Assistant { stop_reason, error_message, .. }
            && error_message is None && stop_reason != Some(HarnessStopReason::Error)
            && stop_reason != Some(HarnessStopReason::Aborted)) ==> response_count(ms.push(next))
            == response_count(ms),
{
    assert(ms.push(next).drop_last() =~= ms);
}

/// A message has a row unless it is a custom one that is hidden or says nothing.
pub proof fn rows_are_counted(ms: Seq<AgentMessageView>, next: AgentMessageView)
    ensures
        shown_count(Seq::<AgentMessageView>::empty()) == 0,
        shown_count(ms.push(next)) == shown_count(ms) + (match next {
            AgentMessageView::Custom { content, display } => if display && content.len() > 0 {
                1int
            } else {
                0int
            },
            _ => 1int,
        }),
{
    assert(ms.push(next).drop_last() =~= ms);
}

} // verus!
