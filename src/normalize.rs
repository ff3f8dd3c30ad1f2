use vstd::prelude::*;

use crate::models::{messages_view, ChatMessage};
use crate::text::{trim_of, trim_text};

verus! {

/// A message seen as (role, content).
pub type MessageView = (Seq<char>, Seq<char>);

/// A content that holds nothing but white space.
pub open spec fn is_blank(content: Seq<char>) -> bool {
    trim_of(content).len() == 0
}

/// An empty role reads as "user".
pub open spec fn with_default_role(m: MessageView) -> MessageView {
    if m.0.len() == 0 {
        ("user"@, m.1)
    } else {
        m
    }
}

/// The messages with blank content dropped and empty roles defaulted, in order.
pub open spec fn normalized(s: Seq<MessageView>) -> Seq<MessageView>
    decreases s.len(),
{
    if s.len() == 0 {
        s
    } else {
        let rest = normalized(s.drop_last());
        if is_blank(s.last().1) {
            rest
        } else {
            rest.push(with_default_role(s.last()))
        }
    }
}

/// The length of a content in UTF-8 bytes.
pub open spec fn byte_len(content: Seq<char>) -> nat {
    vstd::utf8::encode_utf8(content).len()
}

/// The summed byte length of the contents.
pub open spec fn total_len(s: Seq<MessageView>) -> nat
    decreases s.len(),
{
    if s.len() == 0 {
        0
    } else {
        total_len(s.drop_last()) + byte_len(s.last().1)
    }
}

/// How many of the most recent messages fit in `budget`, walking from the
/// newest back and stopping at the first one that would cross it.
pub open spec fn kept_count(s: Seq<MessageView>, budget: nat) -> nat
    decreases s.len(),
{
    if s.len() == 0 {
        0
    } else if byte_len(s.last().1) > budget {
        0
    } else {
        1 + kept_count(s.drop_last(), (budget - byte_len(s.last().1)) as nat)
    }
}

/// The newest `kept_count` messages of `s`, in chronological order.
pub open spec fn kept(s: Seq<MessageView>, budget: nat) -> Seq<MessageView> {
    s.subrange(s.len() - kept_count(s, budget), s.len() as int)
}

/// The conversation window: the system prompt, then the kept messages.
pub open spec fn window(s: Seq<MessageView>, max_chars: nat, prompt: Seq<char>) -> Seq<MessageView> {
    seq![("system"@, prompt)] + kept(normalized(s), max_chars)
}

proof fn lemma_kept_count_bound(s: Seq<MessageView>, budget: nat)
    ensures
        kept_count(s, budget) <= s.len(),
    decreases s.len(),
{
    if s.len() > 0 && byte_len(s.last().1) <= budget {
        lemma_kept_count_bound(s.drop_last(), (budget - byte_len(s.last().1)) as nat);
    }
}

/// Normalising a concatenation normalises each part.
pub proof fn lemma_normalized_append(a: Seq<MessageView>, b: Seq<MessageView>)
    ensures
        normalized(a + b) == normalized(a) + normalized(b),
    decreases b.len(),
{
    if b.len() == 0 {
        assert(a + b =~= a);
        assert(normalized(a) + normalized(b) =~= normalized(a));
    } else {
        assert((a + b).drop_last() =~= a + b.drop_last());
        assert((a + b).last() == b.last());
        lemma_normalized_append(a, b.drop_last());
        if !is_blank(b.last().1) {
            assert(normalized(a) + normalized(b.drop_last()).push(with_default_role(b.last()))
                =~= (normalized(a) + normalized(b.drop_last())).push(with_default_role(b.last())));
        }
    }
}

/// Re-inserting a blank message anywhere leaves the window unchanged.
pub proof fn law_blank_insertion(
    s: Seq<MessageView>,
    i: int,
    m: MessageView,
    max_chars: nat,
    prompt: Seq<char>,
)
    requires
        0 <= i <= s.len(),
        is_blank(m.1),
    ensures
        window(s.insert(i, m), max_chars, prompt) == window(s, max_chars, prompt),
{
    let a = s.subrange(0, i);
    let b = s.subrange(i, s.len() as int);
    assert(s.insert(i, m) =~= a + (seq![m] + b));
    assert(s =~= a + b);
    lemma_normalized_append(a, seq![m] + b);
    lemma_normalized_append(seq![m], b);
    lemma_normalized_append(a, b);
    assert(seq![m].drop_last() =~= Seq::<MessageView>::empty());
    assert(seq![m].last() == m);
    assert(normalized(Seq::<MessageView>::empty()) =~= Seq::<MessageView>::empty());
    assert(normalized(seq![m]) =~= Seq::<MessageView>::empty());
    assert(Seq::<MessageView>::empty() + normalized(b) =~= normalized(b));
}

/// The kept messages never exceed the budget, and the newest message is kept
/// whenever it fits the budget on its own.
pub proof fn law_kept_within_budget(s: Seq<MessageView>, budget: nat)
    ensures
        total_len(kept(s, budget)) <= budget,
        s.len() > 0 && byte_len(s.last().1) <= budget ==> kept(s, budget).len() >= 1
            && kept(s, budget).last() == s.last(),
    decreases s.len(),
{
    lemma_kept_count_bound(s, budget);
    if s.len() == 0 || byte_len(s.last().1) > budget {
        assert(kept(s, budget) =~= Seq::<MessageView>::empty());
    } else {
        let p = s.drop_last();
        let nb = (budget - byte_len(s.last().1)) as nat;
        law_kept_within_budget(p, nb);
        lemma_kept_count_bound(p, nb);
        let k = kept(s, budget);
        assert(k.drop_last() =~= kept(p, nb));
        assert(k.last() == s.last());
    }
}

/// The window always opens with the system prompt, and the messages after it
/// never exceed the budget in total.
pub proof fn law_window_shape(s: Seq<MessageView>, max_chars: nat, prompt: Seq<char>)
    ensures
        window(s, max_chars, prompt).len() >= 1,
        window(s, max_chars, prompt)[0] == ("system"@, prompt),
        total_len(window(s, max_chars, prompt).drop_first()) <= max_chars,
{
    law_kept_within_budget(normalized(s), max_chars);
    assert(window(s, max_chars, prompt).drop_first() =~= kept(normalized(s), max_chars));
}

fn copy_message(m: &ChatMessage) -> (r: ChatMessage)
    ensures
        r@ == m@,
{
    ChatMessage { role: m.role.clone(), content: m.content.clone() }
}

/// Builds the conversation window: drops blank messages, defaults empty roles
/// to "user", keeps the newest messages whose UTF-8 contents fit in
/// `max_chars` bytes (stopping at the first that would cross it), and puts one
/// system message holding `system_prompt` in front.
pub fn trim_messages(messages: Vec<ChatMessage>, max_chars: usize, system_prompt: &str) -> (r: Vec<ChatMessage>)
    ensures
        messages_view(r@) == window(messages_view(messages@), max_chars as nat, system_prompt@),
        r@.len() >= 1,
        r@[0].role@ == "system"@,
        r@[0].content@ == system_prompt@,
{
    let ghost s = messages_view(messages@);
    let mut norm: Vec<ChatMessage> = Vec::new();
    let mut i: usize = 0;
    while i < messages.len()
        invariant
            s == messages_view(messages@),
            0 <= i <= messages.len(),
            messages_view(norm@) == normalized(s.take(i as int)),
        decreases messages.len() - i,
    {
        let ghost before = messages_view(norm@);
        assert(s.take(i + 1).drop_last() =~= s.take(i as int));
        assert(s.take(i + 1).last() == s[i as int]);
        let m = &messages[i];
        if !trim_text(m.content.as_str()).is_empty() {
            let role = if m.role.as_str().is_empty() {
                String::from_str("user")
            } else {
                m.role.clone()
            };
            norm.push(ChatMessage { role, content: m.content.clone() });
            assert(messages_view(norm@) =~= before.push(with_default_role(s[i as int])));
        }
        i = i + 1;
    }
    assert(s.take(s.len() as int) =~= s);
    let ghost n = messages_view(norm@);
    let mut start: usize = norm.len();
    let mut remaining: usize = max_chars;
    let mut full = false;
    assert(n.take(norm.len() as int) =~= n);
    while start > 0 && !full
        invariant
            n == messages_view(norm@),
            0 <= start <= norm.len(),
            remaining <= max_chars,
            kept_count(n, max_chars as nat) == (norm.len() - start) + (if full { 0 } else { kept_count(n.take(start as int), remaining as nat) }),
        decreases start + (if full { 0int } else { 1int }),
    {
        let ghost t = n.take(start as int);
        assert(t.drop_last() =~= n.take(start - 1));
        assert(t.last() == n[start - 1]);
        let len = norm[start - 1].content.as_str().as_bytes().len();
        assert(n[start - 1].1 == norm@[start - 1].content@);
        assert(len == byte_len(n[start - 1].1));
        if len > remaining {
            full = true;
        } else {
            remaining = remaining - len;
            start = start - 1;
        }
    }
    proof {
        if !full {
            assert(n.take(0) =~= Seq::<MessageView>::empty());
        }
    }
    let mut r: Vec<ChatMessage> = Vec::new();
    r.push(ChatMessage { role: String::from_str("system"), content: system_prompt.to_owned() });
    let mut j: usize = start;
    while j < norm.len()
        invariant
            n == messages_view(norm@),
            start <= j <= norm.len(),
            messages_view(r@) == seq![("system"@, system_prompt@)] + n.subrange(start as int, j as int),
        decreases norm.len() - j,
    {
        let ghost before = messages_view(r@);
        r.push(copy_message(&norm[j]));
        assert(messages_view(r@) =~= before.push(n[j as int]));
        assert(messages_view(r@) =~= seq![("system"@, system_prompt@)] + n.subrange(start as int, j + 1));
        j = j + 1;
    }
    assert(messages_view(r@)[0] == ("system"@, system_prompt@));
    r
}

} // verus!
