//! The message list sent to a provider: the active system prompts (or the
//! chat's stored one) followed by the most recent messages, oldest first.

use vstd::prelude::*;
use crate::records::Message;

verus! {

/// Messages of a chat that go into one provider request.
pub const HISTORY_LIMIT: usize = 10;

/// One entry of a conversation: a role ("system", "user", "assistant") and its text.
#[derive(Debug, Clone)]
pub struct Turn {
    pub role: String,
    pub content: String,
}

pub struct TurnView {
    pub role: Seq<char>,
    pub content: Seq<char>,
}

impl View for Turn {
    type V = TurnView;

    open spec fn view(&self) -> TurnView {
        TurnView { role: self.role@, content: self.content@ }
    }
}

pub open spec fn turns_view(ts: Seq<Turn>) -> Seq<TurnView> {
    ts.map_values(|t: Turn| t@)
}

pub open spec fn message_turn(m: Message) -> TurnView {
    TurnView { role: m.role@, content: m.content@ }
}

pub open spec fn messages_view(ms: Seq<Message>) -> Seq<TurnView> {
    ms.map_values(|m: Message| message_turn(m))
}

/// Separator between combined system prompts.
pub open spec fn prompt_separator() -> Seq<char> {
    "\n\n---\n\n"@
}

/// The texts joined with `sep` between neighbours (`[&str]::join`).
pub open spec fn joined(ps: Seq<Seq<char>>, sep: Seq<char>) -> Seq<char>
    decreases ps.len(),
{
    if ps.len() == 0 {
        seq![]
    } else if ps.len() == 1 {
        ps[0]
    } else {
        joined(ps.drop_last(), sep) + sep + ps.last()
    }
}

pub open spec fn strings_view(ps: Seq<String>) -> Seq<Seq<char>> {
    ps.map_values(|p: String| p@)
}

/// The last `n` entries of `s` (all of them when there are fewer).
pub open spec fn last_n<A>(s: Seq<A>, n: int) -> Seq<A> {
    if s.len() <= n {
        s
    } else {
        s.subrange(s.len() - n, s.len() as int)
    }
}

/// The system text of a chat: its active prompts combined in creation order,
/// else its stored prompt, else none.
pub open spec fn system_text(prompts: Seq<Seq<char>>, stored: Option<Seq<char>>) -> Option<
    Seq<char>,
> {
    if prompts.len() > 0 {
        Some(joined(prompts, prompt_separator()))
    } else {
        stored
    }
}

/// The conversation for a chat with history `history` (oldest first).
pub open spec fn conversation(
    history: Seq<TurnView>,
    prompts: Seq<Seq<char>>,
    stored: Option<Seq<char>>,
) -> Seq<TurnView> {
    let recent = last_n(history, HISTORY_LIMIT as int);
    match system_text(prompts, stored) {
        Some(s) => seq![TurnView { role: "system"@, content: s }] + recent,
        None => recent,
    }
}

pub open spec fn option_view(o: &Option<String>) -> Option<Seq<char>> {
    match o {
        Some(s) => Some(s@),
        None => None,
    }
}

/// The active prompts combined with the separator, in the order given;
/// `None` when there is none.
pub fn combine_prompts(prompts: &Vec<String>) -> (r: Option<String>)
    ensures
        option_view(&r) == (if prompts.len() == 0 {
            None
        } else {
            Some(joined(strings_view(prompts@), prompt_separator()))
        }),
{
    if prompts.len() == 0 {
        return None;
    }
    let mut r = prompts[0].clone();
    let mut i: usize = 1;
    while i < prompts.len()
        invariant
            1 <= i <= prompts.len(),
            r@ == joined(strings_view(prompts@.subrange(0, i as int)), prompt_separator()),
        decreases prompts.len() - i,
    {
        let ghost before = prompts@.subrange(0, i as int);
        r.append("\n\n---\n\n");
        r.append(prompts[i].as_str());
        proof {
            let next = prompts@.subrange(0, i + 1);
            assert(strings_view(next).drop_last() =~= strings_view(before));
            assert(strings_view(next).last() == prompts@[i as int]@);
        }
        i = i + 1;
    }
    assert(prompts@.subrange(0, prompts.len() as int) =~= prompts@);
    Some(r)
}

/// The system text a chat starts with when none is given: its owner's active
/// prompts combined, or none.
pub fn prompt_for(stored: &Option<String>, prompts: &Vec<String>) -> (r: Option<String>)
    ensures
        option_view(&r) == system_text(strings_view(prompts@), option_view(stored)),
{
    if prompts.len() > 0 {
        combine_prompts(prompts)
    } else {
        stored.clone()
    }
}

/// Builds the conversation: the system entry first (active prompts win over
/// the stored prompt), then the last ten messages of `history` in order.
pub fn prepare_conversation(
    history: &Vec<Message>,
    active_prompts: &Vec<String>,
    stored_prompt: &Option<String>,
) -> (r: Vec<Turn>)
    ensures
        turns_view(r@) == conversation(
            messages_view(history@),
            strings_view(active_prompts@),
            option_view(stored_prompt),
        ),
{
    let mut r: Vec<Turn> = Vec::new();
    let sys = prompt_for(stored_prompt, active_prompts);
    match sys {
        Some(s) => {
            r.push(Turn { role: String::from_str("system"), content: s });
        },
        None => {},
    }
    let ghost head = turns_view(r@);
    let start: usize = if history.len() <= HISTORY_LIMIT {
        0
    } else {
        history.len() - HISTORY_LIMIT
    };
    let mut i: usize = start;
    while i < history.len()
        invariant
            start <= i <= history.len(),
            turns_view(r@) == head + messages_view(history@.subrange(start as int, i as int)),
        decreases history.len() - i,
    {
        let m = &history[i];
        let t = Turn { role: m.role.clone(), content: m.content.clone() };
        let ghost prev = r@;
        r.push(t);
        proof {
            assert(history@.subrange(start as int, i + 1) =~= history@.subrange(
                start as int,
                i as int,
            ).push(history@[i as int]));
            assert(turns_view(r@) =~= turns_view(prev).push(t@));
        }
        i = i + 1;
    }
    proof {
        let hv = messages_view(history@);
        assert(messages_view(history@.subrange(start as int, history.len() as int)) =~= last_n(
            hv,
            HISTORY_LIMIT as int,
        ));
        let c = conversation(hv, strings_view(active_prompts@), option_view(stored_prompt));
        if system_text(strings_view(active_prompts@), option_view(stored_prompt)) is None {
            assert(head =~= Seq::<TurnView>::empty());
            assert(turns_view(r@) =~= c);
        } else {
            assert(turns_view(r@) =~= c);
        }
    }
    r
}

} // verus!
