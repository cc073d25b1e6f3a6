//! Context compaction: token estimates, and the split of a history into
//! what is summarized and what is kept as it is.
use crate::soul::message::{
    copy_parts, messages_view, parts_view, ContentPart, Message, MessageView, PartKind,
};
use crate::text::{append_vec, chars_of, dec, dec_exec, eq_vec, string_of};
use vstd::prelude::*;

verus! {

/// Token usage summary from an LLM call.
#[derive(Debug, Clone, Copy, Default)]
pub struct TokenUsage {
    pub input: usize,
    pub output: usize,
}

/// Bytes a character takes in UTF-8.
pub open spec fn utf8_width(c: char) -> nat {
    let u = c as u32;
    if u < 0x80 {
        1
    } else if u < 0x800 {
        2
    } else if u < 0x10000 {
        3
    } else {
        4
    }
}

/// Bytes a text takes in UTF-8 (`str::len`).
pub open spec fn utf8_len(s: Seq<char>) -> nat
    decreases s.len(),
{
    if s.len() == 0 {
        0
    } else {
        utf8_len(s.drop_last()) + utf8_width(s.last())
    }
}

/// UTF-8 bytes of the text parts of the messages.
pub open spec fn text_bytes(ms: Seq<MessageView>) -> nat
    decreases ms.len(),
{
    if ms.len() == 0 {
        0
    } else {
        text_bytes(ms.drop_last()) + parts_text_bytes(ms.last().content)
    }
}

pub open spec fn parts_text_bytes(ps: Seq<(PartKind, Seq<char>)>) -> nat
    decreases ps.len(),
{
    if ps.len() == 0 {
        0
    } else {
        parts_text_bytes(ps.drop_last()) + (if ps.last().0 is Text {
            utf8_len(ps.last().1)
        } else {
            0
        })
    }
}

/// The token estimate of a text size: a quarter of its bytes, rounded up.
pub open spec fn tokens_for(bytes: nat) -> nat {
    if bytes % 4 == 0 {
        bytes / 4
    } else {
        bytes / 4 + 1
    }
}

fn utf8_len_exec(s: &String) -> (r: usize)
    requires
        utf8_len(s@) <= usize::MAX,
    ensures
        r == utf8_len(s@),
{
    let v = chars_of(s.as_str());
    let mut n: usize = 0;
    let mut i: usize = 0;
    while i < v.len()
        invariant
            i <= v.len(),
            v@ == s@,
            utf8_len(s@) <= usize::MAX,
            n == utf8_len(v@.subrange(0, i as int)),
        decreases v.len() - i,
    {
        assert(v@.subrange(0, i + 1).drop_last() =~= v@.subrange(0, i as int));
        proof {
            lemma_utf8_len_prefix(v@, i + 1);
        }
        let u = v[i] as u32;
        let w: usize = if u < 0x80 {
            1
        } else if u < 0x800 {
            2
        } else if u < 0x10000 {
            3
        } else {
            4
        };
        n = n + w;
        i += 1;
    }
    assert(v@.subrange(0, v.len() as int) =~= v@);
    n
}

proof fn lemma_utf8_len_prefix(s: Seq<char>, k: int)
    requires
        0 <= k <= s.len(),
    ensures
        utf8_len(s.subrange(0, k)) <= utf8_len(s),
    decreases s.len() - k,
{
    if k < s.len() {
        lemma_utf8_len_prefix(s, k + 1);
        assert(s.subrange(0, k + 1).drop_last() =~= s.subrange(0, k));
    } else {
        assert(s.subrange(0, k) =~= s);
    }
}

proof fn lemma_parts_bytes_prefix(ps: Seq<(PartKind, Seq<char>)>, k: int)
    requires
        0 <= k <= ps.len(),
    ensures
        parts_text_bytes(ps.subrange(0, k)) <= parts_text_bytes(ps),
    decreases ps.len() - k,
{
    if k < ps.len() {
        lemma_parts_bytes_prefix(ps, k + 1);
        assert(ps.subrange(0, k + 1).drop_last() =~= ps.subrange(0, k));
    } else {
        assert(ps.subrange(0, k) =~= ps);
    }
}

proof fn lemma_text_bytes_prefix(ms: Seq<MessageView>, k: int)
    requires
        0 <= k <= ms.len(),
    ensures
        text_bytes(ms.subrange(0, k)) <= text_bytes(ms),
    decreases ms.len() - k,
{
    if k < ms.len() {
        lemma_text_bytes_prefix(ms, k + 1);
        assert(ms.subrange(0, k + 1).drop_last() =~= ms.subrange(0, k));
    } else {
        assert(ms.subrange(0, k) =~= ms);
    }
}

fn message_text_bytes(m: &Message) -> (r: usize)
    requires
        parts_text_bytes(m@.content) <= usize::MAX,
    ensures
        r == parts_text_bytes(m@.content),
{
    let ghost pv = m@.content;
    let mut n: usize = 0;
    let mut i: usize = 0;
    while i < m.content.len()
        invariant
            i <= m.content.len(),
            pv == parts_view(m.content@),
            parts_text_bytes(pv) <= usize::MAX,
            n == parts_text_bytes(pv.subrange(0, i as int)),
        decreases m.content.len() - i,
    {
        assert(pv.subrange(0, i + 1).drop_last() =~= pv.subrange(0, i as int));
        proof {
            lemma_parts_bytes_prefix(pv, i + 1);
        }
        match &m.content[i] {
            ContentPart::Text { text } => {
                proof {
                    assert(pv[i as int] == (PartKind::Text, text@));
                }
                n = n + utf8_len_exec(text);
            },
            _ => {},
        }
        i += 1;
    }
    assert(pv.subrange(0, m.content.len() as int) =~= pv);
    n
}

/// Estimates the tokens of the messages' text: one per four UTF-8 bytes,
/// rounded up.
pub fn estimate_text_tokens(messages: &[Message]) -> (r: usize)
    requires
        text_bytes(messages_view(messages@)) <= usize::MAX,
    ensures
        r == tokens_for(text_bytes(messages_view(messages@))),
{
    let ghost mv = messages_view(messages@);
    let mut n: usize = 0;
    let mut i: usize = 0;
    while i < messages.len()
        invariant
            i <= messages.len(),
            mv == messages_view(messages@),
            text_bytes(mv) <= usize::MAX,
            n == text_bytes(mv.subrange(0, i as int)),
        decreases messages.len() - i,
    {
        assert(mv.subrange(0, i + 1).drop_last() =~= mv.subrange(0, i as int));
        proof {
            lemma_text_bytes_prefix(mv, i + 1);
        }
        assert(mv[i as int] == messages@[i as int]@);
        n = n + message_text_bytes(&messages[i]);
        i += 1;
    }
    assert(mv.subrange(0, messages.len() as int) =~= mv);
    if n % 4 == 0 {
        n / 4
    } else {
        n / 4 + 1
    }
}

/// Result of a compaction.
#[derive(Debug, Clone)]
pub struct CompactionResult {
    pub messages: Vec<Message>,
    pub usage: Option<TokenUsage>,
}

impl CompactionResult {
    /// Estimated tokens of the compacted messages: with a usage report, the
    /// summary's output tokens stand for the first message.
    pub fn estimated_token_count(&self) -> (r: usize)
        requires
            text_bytes(messages_view(self.messages@)) <= usize::MAX,
            self.usage matches Some(u) ==> u.output + tokens_for(
                text_bytes(messages_view(self.messages@))) <= usize::MAX,
        ensures
            r as int == (match self.usage {
                Some(u) => if self.messages@.len() > 0 {
                    u.output + tokens_for(
                        text_bytes(messages_view(self.messages@.subrange(1, self.messages@.len() as int))),
                    )
                } else {
                    tokens_for(text_bytes(messages_view(self.messages@))) as int
                },
                None => tokens_for(text_bytes(messages_view(self.messages@))) as int,
            }),
    {
        match &self.usage {
            Some(u) => {
                if self.messages.len() > 0 {
                    let rest = vstd::slice::slice_subrange(self.messages.as_slice(), 1, self.messages.len());
                    proof {
                        let mv = messages_view(self.messages@);
                        assert(messages_view(rest@) =~= mv.subrange(1, mv.len() as int));
                        lemma_text_bytes_suffix(mv);
                    }
                    u.output + estimate_text_tokens(rest)
                } else {
                    estimate_text_tokens(self.messages.as_slice())
                }
            },
            None => estimate_text_tokens(self.messages.as_slice()),
        }
    }
}

proof fn lemma_text_bytes_suffix(ms: Seq<MessageView>)
    requires
        ms.len() > 0,
    ensures
        text_bytes(ms.subrange(1, ms.len() as int)) <= text_bytes(ms),
        tokens_for(text_bytes(ms.subrange(1, ms.len() as int))) <= tokens_for(text_bytes(ms)),
    decreases ms.len(),
{
    if ms.len() > 1 {
        lemma_text_bytes_suffix(ms.drop_last());
        assert(ms.subrange(1, ms.len() as int).drop_last() =~= ms.drop_last().subrange(1, ms.len() - 1));
    } else {
        assert(ms.subrange(1, ms.len() as int) =~= Seq::<MessageView>::empty());
    }
}

/// Simple compaction strategy that preserves the last N user or assistant
/// messages.
#[derive(Debug)]
pub struct SimpleCompaction {
    pub max_preserved_messages: usize,
}

/// A user or assistant message: one that counts as preserved conversation.
pub open spec fn is_conversation(m: MessageView) -> bool {
    m.role == "user"@ || m.role == "assistant"@
}

/// Number of conversation messages from position `k` on.
pub open spec fn conv_from(ms: Seq<MessageView>, k: int) -> nat
    decreases ms.len() - k,
{
    if k < 0 || k >= ms.len() {
        0
    } else {
        conv_from(ms, k + 1) + (if is_conversation(ms[k]) {
            1nat
        } else {
            0nat
        })
    }
}

/// Where the preserved messages start: the position of the `n`-th
/// conversation message counted from the end.
pub open spec fn preserve_start(ms: Seq<MessageView>, n: nat) -> int {
    choose|s: int| 0 <= s < ms.len() && is_conversation(ms[s]) && conv_from(ms, s) == n
}

/// The text introducing message `i` (counted from 1) in the summary request.
pub open spec fn message_header(i: nat, role: Seq<char>) -> Seq<char> {
    "## Message "@ + dec(i) + "\nRole: "@ + role + "\nContent:\n"@
}

/// The closing request of the summary message.
pub open spec fn compaction_prompt(custom: Seq<char>) -> Seq<char> {
    "\n"@ + "Compact the above conversation context into a concise summary."@ + (if custom.len() > 0 {
        "\n\n**User's Custom Compaction Instruction:**\n"@ + custom
    } else {
        Seq::empty()
    })
}

/// The parts of the summary request for the messages from position `k`.
pub open spec fn summary_parts(ms: Seq<MessageView>, k: int) -> Seq<(PartKind, Seq<char>)>
    decreases ms.len() - k,
{
    if k < 0 || k >= ms.len() {
        Seq::empty()
    } else {
        seq![(PartKind::Text, message_header((k + 1) as nat, ms[k].role))] + ms[k].content.filter(
            |p: (PartKind, Seq<char>)| p.0 is Text,
        ) + summary_parts(ms, k + 1)
    }
}

/// Every text part of every compacted message, whatever its role, reaches
/// the summary request, and so does each message's header.
pub proof fn lemma_summary_holds_every_text(ms: Seq<MessageView>, k0: int, k: int, j: int)
    requires
        0 <= k0 <= k < ms.len(),
        0 <= j < ms[k].content.len(),
        ms[k].content[j].0 is Text,
    ensures
        summary_parts(ms, k0).contains(ms[k].content[j]),
        summary_parts(ms, k0).contains((PartKind::Text, message_header((k + 1) as nat, ms[k].role))),
    decreases k - k0,
{
    let h = seq![(PartKind::Text, message_header((k0 + 1) as nat, ms[k0].role))];
    let f = ms[k0].content.filter(|p: (PartKind, Seq<char>)| p.0 is Text);
    let rest = summary_parts(ms, k0 + 1);
    assert(summary_parts(ms, k0) == h + f + rest);
    let all = h + f + rest;
    if k0 == k {
        ms[k].content.lemma_filter_contains(|p: (PartKind, Seq<char>)| p.0 is Text, j);
        let i = choose|i: int| 0 <= i < f.len() && f[i] == ms[k].content[j];
        assert(all[1 + i] == ms[k].content[j]);
        assert(all[0] == h[0]);
    } else {
        lemma_summary_holds_every_text(ms, k0 + 1, k, j);
        let i = choose|i: int| 0 <= i < rest.len() && rest[i] == ms[k].content[j];
        assert(all[1 + f.len() + i] == ms[k].content[j]);
        let i2 = choose|i2: int|
            0 <= i2 < rest.len() && rest[i2] == (PartKind::Text, message_header((k + 1) as nat, ms[k].role));
        assert(all[1 + f.len() + i2] == (PartKind::Text, message_header((k + 1) as nat, ms[k].role)));
    }
}

impl SimpleCompaction {
    pub fn new(max_preserved_messages: usize) -> (r: Self)
        ensures
            r.max_preserved_messages == max_preserved_messages,
    {
        SimpleCompaction { max_preserved_messages }
    }
}

impl Default for SimpleCompaction {
    fn default() -> (r: Self)
        ensures
            r.max_preserved_messages == 2,
    {
        SimpleCompaction::new(2)
    }
}

proof fn lemma_conv_from_mono(ms: Seq<MessageView>, k: int, j: int)
    requires
        0 <= k <= j,
    ensures
        conv_from(ms, k) >= conv_from(ms, j),
    decreases j - k,
{
    if k < j {
        lemma_conv_from_mono(ms, k + 1, j);
    }
}

proof fn lemma_preserve_start_unique(ms: Seq<MessageView>, n: nat, s: int)
    requires
        0 <= s < ms.len(),
        is_conversation(ms[s]),
        conv_from(ms, s) == n,
    ensures
        preserve_start(ms, n) == s,
{
    let t = preserve_start(ms, n);
    if t != s {
        if t < s {
            lemma_conv_from_mono(ms, t + 1, s);
        } else {
            lemma_conv_from_mono(ms, s + 1, t);
        }
    }
}

/// What preparing a compaction gives: nothing to summarize when there are
/// no messages, nothing is to be preserved, or there are fewer conversation
/// messages than are to be preserved; otherwise the messages before the
/// last `n` conversation messages make up a user message asking for a
/// summary, and the rest is preserved.
pub open spec fn prepare_spec(ms: Seq<MessageView>, n: nat, custom: Seq<char>) -> (
    Option<MessageView>,
    Seq<MessageView>,
) {
    if ms.len() == 0 || n == 0 || conv_from(ms, 0) < n {
        (None, ms)
    } else {
        let s = preserve_start(ms, n);
        if s == 0 {
            (None, ms)
        } else {
            (
                Some(
                    MessageView {
                        role: "user"@,
                        content: summary_parts(ms.subrange(0, s), 0) + seq![
                            (PartKind::Text, compaction_prompt(custom)),
                        ],
                        tool_calls: None,
                        tool_call_id: None,
                    },
                ),
                ms.subrange(s, ms.len() as int),
            )
        }
    }
}

fn copy_messages(ms: &[Message], lo: usize, hi: usize) -> (r: Vec<Message>)
    requires
        lo <= hi <= ms@.len(),
    ensures
        messages_view(r@) == messages_view(ms@).subrange(lo as int, hi as int),
{
    let mut r: Vec<Message> = Vec::new();
    let mut i = lo;
    while i < hi
        invariant
            lo <= i <= hi <= ms@.len(),
            messages_view(r@) == messages_view(ms@).subrange(lo as int, i as int),
        decreases hi - i,
    {
        let m = ms[i].copy();
        let ghost before = messages_view(r@);
        r.push(m);
        assert(messages_view(r@) =~= before.push(m@));
        assert(messages_view(ms@).subrange(lo as int, i + 1) =~= messages_view(ms@).subrange(lo as int, i as int).push(
            ms@[i as int]@,
        ));
        i += 1;
    }
    r
}

fn is_conversation_exec(m: &Message) -> (r: bool)
    ensures
        r == is_conversation(m@),
{
    let role = chars_of(m.role.as_str());
    eq_vec(&role, &chars_of("user")) || eq_vec(&role, &chars_of("assistant"))
}

fn text_parts_of(ps: &Vec<ContentPart>) -> (r: Vec<ContentPart>)
    ensures
        parts_view(r@) == parts_view(ps@).filter(|p: (PartKind, Seq<char>)| p.0 is Text),
{
    let ghost pv = parts_view(ps@);
    let mut r: Vec<ContentPart> = Vec::new();
    let mut i: usize = 0;
    while i < ps.len()
        invariant
            i <= ps.len(),
            pv == parts_view(ps@),
            parts_view(r@) == pv.subrange(0, i as int).filter(|p: (PartKind, Seq<char>)| p.0 is Text),
        decreases ps.len() - i,
    {
        proof {
            assert(pv.subrange(0, i + 1) =~= pv.subrange(0, i as int).push(pv[i as int]));
            pv.subrange(0, i as int).lemma_filter_push(pv[i as int], |p: (PartKind, Seq<char>)| p.0 is Text);
        }
        if ps[i].is_text() {
            let p = ps[i].copy();
            let ghost before = parts_view(r@);
            r.push(p);
            assert(parts_view(r@) =~= before.push(crate::soul::message::part_view(p)));
        }
        i += 1;
    }
    assert(pv.subrange(0, ps.len() as int) =~= pv);
    r
}

impl SimpleCompaction {
    /// Splits the messages into a summary request for what is compacted and
    /// the preserved messages (see `prepare_spec`).
    pub fn prepare(&self, messages: &[Message], custom_instruction: &str) -> (r: (
        Option<Message>,
        Vec<Message>,
    ))
        requires
            messages@.len() < usize::MAX,
        ensures
            ({
                let s = prepare_spec(
                    messages_view(messages@),
                    self.max_preserved_messages as nat,
                    custom_instruction@,
                );
                &&& messages_view(r.1@) == s.1
                &&& match r.0 {
                    Some(m) => s.0 == Some(m@),
                    None => s.0 is None,
                }
            }),
    {
        let ghost mv = messages_view(messages@);
        let n = self.max_preserved_messages;
        if messages.len() == 0 || n == 0 {
            return (None, copy_messages(messages, 0, messages.len()));
        }
        let mut count: usize = 0;
        let mut i: usize = messages.len();
        let mut start: Option<usize> = None;
        while i > 0
            invariant_except_break
                start is None,
                count == conv_from(mv, i as int),
                count < n,
            invariant
                i <= messages@.len(),
                mv == messages_view(messages@),
                n > 0,
            ensures
                start is None ==> count == conv_from(mv, 0) && count < n,
                start matches Some(st) ==> st < mv.len() && is_conversation(mv[st as int]) && conv_from(mv, st as int) == n,
            decreases i,
        {
            assert(mv[i - 1] == messages@[i - 1]@);
            if is_conversation_exec(&messages[i - 1]) {
                count += 1;
                if count == n {
                    start = Some(i - 1);
                    break;
                }
            }
            i -= 1;
        }
        let start = match start {
            None => {
                return (None, copy_messages(messages, 0, messages.len()));
            },
            Some(s) => s,
        };
        proof {
            lemma_preserve_start_unique(mv, n as nat, start as int);
            lemma_conv_from_mono(mv, 0, start as int);
        }
        let to_preserve = copy_messages(messages, start, messages.len());
        if start == 0 {
            return (None, to_preserve);
        }
        let mut content: Vec<ContentPart> = Vec::new();
        let ghost compacted = mv.subrange(0, start as int);
        let mut k: usize = 0;
        while k < start
            invariant
                k <= start < messages@.len(),
                compacted == messages_view(messages@).subrange(0, start as int),
                parts_view(content@) + summary_parts(compacted, k as int) == summary_parts(compacted, 0),
            decreases start - k,
        {
            let msg = &messages[k];
            assert(compacted[k as int] == msg@);
            let mut header = chars_of("## Message ");
            append_vec(&mut header, &dec_exec(k + 1));
            append_vec(&mut header, &chars_of("\nRole: "));
            append_vec(&mut header, &chars_of(msg.role.as_str()));
            append_vec(&mut header, &chars_of("\nContent:\n"));
            let ghost before = parts_view(content@);
            content.push(ContentPart::Text { text: string_of(&header) });
            let texts = text_parts_of(&msg.content);
            let mut t: usize = 0;
            let ghost mid = parts_view(content@);
            while t < texts.len()
                invariant
                    t <= texts.len(),
                    parts_view(content@) == mid + parts_view(texts@).subrange(0, t as int),
                decreases texts.len() - t,
            {
                let p = texts[t].copy();
                let ghost oc = parts_view(content@);
                content.push(p);
                assert(parts_view(content@) =~= oc.push(crate::soul::message::part_view(p)));
                assert(parts_view(texts@).subrange(0, t + 1) =~= parts_view(texts@).subrange(0, t as int).push(
                    parts_view(texts@)[t as int],
                ));
                t += 1;
            }
            proof {
                assert(parts_view(texts@).subrange(0, texts@.len() as int) =~= parts_view(texts@));
                assert(mid =~= before.push((PartKind::Text, message_header((k + 1) as nat, compacted[k as int].role))));
                assert(summary_parts(compacted, k as int) =~= seq![
                    (PartKind::Text, message_header((k + 1) as nat, compacted[k as int].role)),
                ] + compacted[k as int].content.filter(|p: (PartKind, Seq<char>)| p.0 is Text)
                    + summary_parts(compacted, k + 1));
                assert(parts_view(content@) + summary_parts(compacted, k + 1) =~= before + summary_parts(compacted, k as int));
            }
            k += 1;
        }
        let mut prompt = chars_of("\n");
        append_vec(&mut prompt, &chars_of("Compact the above conversation context into a concise summary."));
        if chars_of(custom_instruction).len() > 0 {
            append_vec(&mut prompt, &chars_of("\n\n**User's Custom Compaction Instruction:**\n"));
            append_vec(&mut prompt, &chars_of(custom_instruction));
            assert(prompt@ =~= compaction_prompt(custom_instruction@));
        } else {
            assert(prompt@ =~= compaction_prompt(custom_instruction@));
        }
        let ghost before = parts_view(content@);
        content.push(ContentPart::Text { text: string_of(&prompt) });
        proof {
            assert(summary_parts(compacted, start as int) =~= Seq::<(PartKind, Seq<char>)>::empty());
            assert(before =~= summary_parts(compacted, 0));
            assert(parts_view(content@) =~= summary_parts(compacted, 0) + seq![
                (PartKind::Text, compaction_prompt(custom_instruction@)),
            ]);
        }
        let m = Message { role: "user".to_string(), content, tool_calls: None, tool_call_id: None };
        (Some(m), to_preserve)
    }
}

proof fn lemma_start_exists(ms: Seq<MessageView>, k: int, n: nat)
    requires
        0 <= k,
        n > 0,
        conv_from(ms, k) >= n,
    ensures
        exists|s: int| k <= s < ms.len() && is_conversation(ms[s]) && conv_from(ms, s) == n,
    decreases ms.len() - k,
{
    if conv_from(ms, k + 1) >= n {
        lemma_start_exists(ms, k + 1, n);
    } else {
        assert(k < ms.len() && is_conversation(ms[k]) && conv_from(ms, k) == n);
    }
}

proof fn lemma_conv_from_suffix(ms: Seq<MessageView>, s: int, j: int)
    requires
        0 <= s <= ms.len(),
        0 <= j,
    ensures
        conv_from(ms.subrange(s, ms.len() as int), j) == conv_from(ms, s + j),
    decreases ms.len() - s - j,
{
    if s + j < ms.len() {
        lemma_conv_from_suffix(ms, s, j + 1);
    }
}

/// Compaction preserves exactly the last `n` conversation messages: the
/// preserved messages are a suffix of the history that starts with a
/// conversation message and holds `n` of them.
pub proof fn lemma_prepare_keeps_last(ms: Seq<MessageView>, n: nat, custom: Seq<char>)
    requires
        n > 0,
        conv_from(ms, 0) >= n,
    ensures
        ({
            let kept = prepare_spec(ms, n, custom).1;
            &&& kept.len() > 0
            &&& is_conversation(kept[0])
            &&& conv_from(kept, 0) == n
            &&& kept == ms.subrange(ms.len() - kept.len(), ms.len() as int)
        }),
{
    lemma_start_exists(ms, 0, n);
    let s = preserve_start(ms, n);
    lemma_conv_from_suffix(ms, s, 0);
    if s == 0 {
        assert(ms.subrange(0, ms.len() as int) =~= ms);
    }
}

/// A compaction asks for a summary of everything it drops: when a summary
/// request is made, every text part of every message not preserved, whatever
/// the message's role, is in that request.
pub proof fn lemma_prepare_summarizes_dropped(ms: Seq<MessageView>, n: nat, custom: Seq<char>, k: int, j: int)
    requires
        prepare_spec(ms, n, custom).0 is Some,
        0 <= k < ms.len() - prepare_spec(ms, n, custom).1.len(),
        0 <= j < ms[k].content.len(),
        ms[k].content[j].0 is Text,
    ensures
        prepare_spec(ms, n, custom).0->0.content.contains(ms[k].content[j]),
{
    lemma_start_exists(ms, 0, n);
    let s = preserve_start(ms, n);
    assert(0 < s < ms.len());
    assert(prepare_spec(ms, n, custom).1 == ms.subrange(s, ms.len() as int));
    assert(k < s);
    let c = ms.subrange(0, s);
    assert(c[k] == ms[k]);
    lemma_summary_holds_every_text(c, 0, k, j);
    let sp = summary_parts(c, 0);
    let content = sp + seq![(PartKind::Text, compaction_prompt(custom))];
    let i = choose|i: int| 0 <= i < sp.len() && sp[i] == ms[k].content[j];
    assert(content[i] == ms[k].content[j]);
}

/// The messages a compaction leaves: with the model's summary, a note that
/// the context was compacted and the summary as an assistant message before
/// the preserved messages; without one (no summary was asked for, or the
/// model failed), the preserved messages alone.
pub fn finish_compaction(summary: Option<Vec<ContentPart>>, to_preserve: Vec<Message>) -> (r: CompactionResult)
    ensures
        r.usage is None,
        match summary {
            Some(parts) => {
                &&& r.messages@.len() == to_preserve@.len() + 2
                &&& r.messages@[0]@ == (MessageView {
                    role: "user"@,
                    content: seq![(PartKind::Text, "Previous context has been compacted. Here is the summary:"@)],
                    tool_calls: None,
                    tool_call_id: None,
                })
                &&& r.messages@[1]@ == (MessageView {
                    role: "assistant"@,
                    content: parts_view(parts@),
                    tool_calls: None,
                    tool_call_id: None,
                })
                &&& messages_view(r.messages@.subrange(2, r.messages@.len() as int)) == messages_view(to_preserve@)
            },
            None => messages_view(r.messages@) == messages_view(to_preserve@),
        },
{
    match summary {
        None => CompactionResult { messages: to_preserve, usage: None },
        Some(parts) => {
            let mut note = Vec::new();
            note.push(ContentPart::Text { text: "Previous context has been compacted. Here is the summary:".to_string() });
            let ghost pv = parts_view(parts@);
            let mut out: Vec<Message> = Vec::new();
            out.push(Message { role: "user".to_string(), content: note, tool_calls: None, tool_call_id: None });
            out.push(Message { role: "assistant".to_string(), content: parts, tool_calls: None, tool_call_id: None });
            assert(out@[0]@.content =~= seq![(PartKind::Text, "Previous context has been compacted. Here is the summary:"@)]);
            let mut i: usize = 0;
            while i < to_preserve.len()
                invariant
                    i <= to_preserve@.len(),
                    out@.len() == i + 2,
                    out@[0]@ == (MessageView {
                        role: "user"@,
                        content: seq![(PartKind::Text, "Previous context has been compacted. Here is the summary:"@)],
                        tool_calls: None,
                        tool_call_id: None,
                    }),
                    out@[1]@ == (MessageView { role: "assistant"@, content: pv, tool_calls: None, tool_call_id: None }),
                    forall|j: int| 0 <= j < i ==> (#[trigger] out@[j + 2])@ == to_preserve@[j]@,
                decreases to_preserve@.len() - i,
            {
                out.push(to_preserve[i].copy());
                i += 1;
            }
            assert(messages_view(out@.subrange(2, out@.len() as int)) =~= messages_view(to_preserve@));
            CompactionResult { messages: out, usage: None }
        },
    }
}

} // verus!
