//! Rules of chat records: the defaults of a new chat and the columns an
//! update sets.

use vstd::prelude::*;
use crate::conversation::{option_view, prompt_for, strings_view, system_text};
use crate::error::AppError;
use crate::records::{CreateChatPayload, Message, UpdateChatPayload};

verus! {

/// The stored fields of a new chat that are not given verbatim.
#[derive(Debug, Clone)]
pub struct NewChatFields {
    pub system_prompt: Option<String>,
    pub provider: String,
    pub model: String,
    pub is_branch: bool,
}

/// Defaults of a new chat: the given system prompt, else the owner's active
/// prompts combined; provider "openai" and model "gpt-4o" unless given; not
/// a branch unless said.
pub fn new_chat_fields(payload: &CreateChatPayload, active_prompts: &Vec<String>) -> (r:
    NewChatFields)
    ensures
        option_view(&r.system_prompt) == match payload.system_prompt {
            Some(p) => Some(p@),
            None => system_text(strings_view(active_prompts@), None),
        },
        r.provider@ == match payload.provider {
            Some(p) => p@,
            None => "openai"@,
        },
        r.model@ == match payload.model {
            Some(m) => m@,
            None => "gpt-4o"@,
        },
        r.is_branch == (payload.is_branch == Some(true)),
{
    let system_prompt = match &payload.system_prompt {
        Some(p) => Some(p.clone()),
        None => prompt_for(&None, active_prompts),
    };
    let provider = match &payload.provider {
        Some(p) => p.clone(),
        None => String::from_str("openai"),
    };
    let model = match &payload.model {
        Some(m) => m.clone(),
        None => String::from_str("gpt-4o"),
    };
    let is_branch = match payload.is_branch {
        Some(b) => b,
        None => false,
    };
    NewChatFields { system_prompt, provider, model, is_branch }
}

pub struct AssignmentView {
    pub column: Seq<char>,
    pub value: Seq<char>,
}

pub open spec fn assignment(column: Seq<char>, value: Option<Seq<char>>) -> Seq<AssignmentView> {
    match value {
        Some(v) => seq![AssignmentView { column, value: v }],
        None => seq![],
    }
}

/// The columns an update sets, in order, with their values; a pinned flag is
/// stored as "1" or "0".
pub open spec fn assignments_of(p: UpdateChatPayload) -> Seq<AssignmentView> {
    assignment("title"@, option_view(&p.title)) + assignment(
        "system_prompt"@,
        option_view(&p.system_prompt),
    ) + assignment("provider"@, option_view(&p.provider)) + assignment(
        "model"@,
        option_view(&p.model),
    ) + assignment(
        "pinned"@,
        match p.pinned {
            Some(true) => Some("1"@),
            Some(false) => Some("0"@),
            None => None,
        },
    )
}

pub open spec fn pairs_view(v: Seq<(String, String)>) -> Seq<AssignmentView> {
    v.map_values(|a: (String, String)| AssignmentView { column: a.0@, value: a.1@ })
}

fn push_assignment(v: &mut Vec<(String, String)>, column: &str, value: &Option<String>)
    ensures
        pairs_view(final(v)@) == pairs_view(old(v)@) + assignment(column@, option_view(value)),
{
    match value {
        Some(x) => {
            let ghost prev = v@;
            let a = (String::from_str(column), x.clone());
            v.push(a);
            assert(pairs_view(v@) =~= pairs_view(prev) + assignment(column@, option_view(value)));
        },
        None => {
            assert(pairs_view(v@) =~= pairs_view(v@) + assignment(column@, option_view(value)));
        },
    }
}

/// The column assignments of a chat update; an update that sets nothing is
/// a bad request.
pub fn update_assignments(p: &UpdateChatPayload) -> (r: Result<Vec<(String, String)>, AppError>)
    ensures
        assignments_of(*p).len() == 0 ==> (r is Err && r->Err_0 is BadRequest && r->Err_0->BadRequest_0@
            == "No fields to update"@),
        assignments_of(*p).len() > 0 ==> (r is Ok && pairs_view(r->Ok_0@) == assignments_of(*p)),
{
    let mut v: Vec<(String, String)> = Vec::new();
    push_assignment(&mut v, "title", &p.title);
    push_assignment(&mut v, "system_prompt", &p.system_prompt);
    push_assignment(&mut v, "provider", &p.provider);
    push_assignment(&mut v, "model", &p.model);
    let pinned = match p.pinned {
        Some(true) => Some(String::from_str("1")),
        Some(false) => Some(String::from_str("0")),
        None => None,
    };
    push_assignment(&mut v, "pinned", &pinned);
    assert(pairs_view(v@) =~= assignments_of(*p));
    if v.len() == 0 {
        Err(AppError::BadRequest(String::from_str("No fields to update")))
    } else {
        Ok(v)
    }
}

pub type LinkView = (Seq<char>, Option<Seq<char>>);

pub open spec fn links_view(links: Seq<(String, Option<String>)>) -> Seq<LinkView> {
    links.map_values(|l: (String, Option<String>)| (l.0@, option_view(&l.1)))
}

pub open spec fn texts(v: Seq<String>) -> Seq<Seq<char>> {
    v.map_values(|s: String| s@)
}

/// Chats among the first `n` links whose parent is in `s`.
pub open spec fn children_upto(links: Seq<LinkView>, s: Set<Seq<char>>, n: int) -> Set<Seq<char>> {
    Set::new(
        |c: Seq<char>|
            exists|j: int|
                0 <= j < n && j < links.len() && #[trigger] links[j].0 == c && links[j].1 is Some
                    && s.contains(links[j].1->0),
    )
}

/// The root and the chats that descend from it through at most `depth`
/// parent links.
pub open spec fn within(links: Seq<LinkView>, root: Seq<char>, depth: nat) -> Set<Seq<char>>
    decreases depth,
{
    if depth == 0 {
        set![root]
    } else {
        let s = within(links, root, (depth - 1) as nat);
        s.union(children_upto(links, s, links.len() as int))
    }
}

/// The root and every chat id that occurs in the links.
pub open spec fn universe(links: Seq<LinkView>, root: Seq<char>) -> Set<Seq<char>> {
    links.map_values(|l: LinkView| l.0).to_set().insert(root)
}

proof fn lemma_universe_size(links: Seq<LinkView>, root: Seq<char>)
    ensures
        universe(links, root).finite(),
        universe(links, root).len() <= links.len() + 1,
{
    let ids = links.map_values(|l: LinkView| l.0);
    ids.lemma_cardinality_of_set();
    vstd::seq_lib::seq_to_set_is_finite(ids);
}

proof fn lemma_within_in_universe(links: Seq<LinkView>, root: Seq<char>, k: nat)
    ensures
        within(links, root, k).subset_of(universe(links, root)),
        within(links, root, k).finite(),
    decreases k,
{
    lemma_universe_size(links, root);
    let u = universe(links, root);
    if k > 0 {
        let s = within(links, root, (k - 1) as nat);
        lemma_within_in_universe(links, root, (k - 1) as nat);
        let c = children_upto(links, s, links.len() as int);
        assert forall|x: Seq<char>| c.contains(x) implies u.contains(x) by {
            let j = choose|j: int|
                0 <= j < links.len() && j < links.len() && #[trigger] links[j].0 == x && links[j].1 is Some
                    && s.contains(links[j].1->0);
            assert(links.map_values(|l: LinkView| l.0)[j] == x);
        }
        vstd::set_lib::lemma_len_subset(s.union(c), u);
    }
}

proof fn lemma_within_mono(links: Seq<LinkView>, root: Seq<char>, a: nat, b: nat)
    requires
        a <= b,
    ensures
        within(links, root, a).subset_of(within(links, root, b)),
    decreases b - a,
{
    if a < b {
        lemma_within_mono(links, root, a, (b - 1) as nat);
    }
}

proof fn lemma_within_stable(links: Seq<LinkView>, root: Seq<char>, k: nat, m: nat)
    requires
        within(links, root, k + 1) == within(links, root, k),
        k <= m,
    ensures
        within(links, root, m) == within(links, root, k),
    decreases m - k,
{
    if k < m {
        lemma_within_stable(links, root, k, (m - 1) as nat);
    }
}

proof fn lemma_within_size(links: Seq<LinkView>, root: Seq<char>, k: nat)
    requires
        forall|j: nat| j < k ==> #[trigger] within(links, root, j + 1) != within(links, root, j),
    ensures
        within(links, root, k).len() >= k + 1,
    decreases k,
{
    lemma_within_in_universe(links, root, k);
    if k == 0 {
        assert(set![root].len() == 1);
    } else {
        let a = within(links, root, (k - 1) as nat);
        let b = within(links, root, k);
        lemma_within_size(links, root, (k - 1) as nat);
        lemma_within_in_universe(links, root, (k - 1) as nat);
        assert(a.subset_of(b));
        vstd::set_lib::lemma_len_subset(a, b);
        if a.len() == b.len() {
            vstd::set_lib::lemma_subset_equality(a, b);
            assert(within(links, root, ((k - 1) as nat) + 1) != within(links, root, (k - 1) as nat));
        }
    }
}

/// No descendant is beyond the depth bound: every chat within any number of
/// parent links of the root is within as many links as there are chats.
pub proof fn law_cascade_complete(links: Seq<LinkView>, root: Seq<char>, d: nat)
    ensures
        within(links, root, d).subset_of(within(links, root, links.len() as nat)),
{
    let n = links.len() as nat;
    if exists|j: nat| j < n && #[trigger] within(links, root, j + 1) == within(links, root, j) {
        let j = choose|j: nat| j < n && #[trigger] within(links, root, j + 1) == within(links, root, j);
        if d <= n {
            lemma_within_mono(links, root, d, n);
        } else {
            lemma_within_stable(links, root, j, d);
            lemma_within_stable(links, root, j, n);
        }
    } else {
        lemma_within_size(links, root, n);
        lemma_within_in_universe(links, root, n);
        lemma_within_in_universe(links, root, d);
        lemma_universe_size(links, root);
        let u = universe(links, root);
        vstd::set_lib::lemma_len_subset(within(links, root, n), u);
        vstd::set_lib::lemma_subset_equality(within(links, root, n), u);
    }
}

fn holds(v: &Vec<String>, x: &String, upto: usize) -> (r: bool)
    requires
        upto <= v.len(),
    ensures
        r == texts(v@).take(upto as int).contains(x@),
{
    let mut j: usize = 0;
    while j < upto
        invariant
            j <= upto <= v.len(),
            forall|k: int| 0 <= k < j ==> v@[k]@ != x@,
        decreases upto - j,
    {
        if v[j] == *x {
            assert(texts(v@).take(upto as int)[j as int] == x@);
            return true;
        }
        j = j + 1;
    }
    assert forall|k: int| 0 <= k < upto implies texts(v@).take(upto as int)[k] != x@ by {
        assert(texts(v@).take(upto as int)[k] == v@[k]@);
    }
    false
}

/// The chats that deleting `root` removes: the root and every chat that
/// descends from it through parent links (`links` holds each chat of the
/// owner with its parent); a branch of a branch goes too. Each id once,
/// the root first. The depth bound leaves out no descendant
/// (`law_cascade_complete`).
pub fn cascade_targets(root: &String, links: &Vec<(String, Option<String>)>) -> (r: Vec<String>)
    ensures
        texts(r@).to_set() == within(links_view(links@), root@, links.len() as nat),
        texts(r@).no_duplicates(),
        r.len() >= 1 && r@[0]@ == root@,
{
    let ghost lv = links_view(links@);
    let mut r: Vec<String> = Vec::new();
    r.push(root.clone());
    assert(texts(r@) =~= Seq::<Seq<char>>::empty().push(root@));
    proof {
        Seq::<Seq<char>>::empty().lemma_push_to_set_commute(root@);
        assert(Seq::<Seq<char>>::empty().to_set() =~= Set::<Seq<char>>::empty());
        assert(texts(r@).to_set() =~= set![root@]);
    }
    let mut k: usize = 0;
    while k < links.len()
        invariant
            k <= links.len(),
            lv == links_view(links@),
            texts(r@).to_set() == within(lv, root@, k as nat),
            texts(r@).no_duplicates(),
            r.len() >= 1 && r@[0]@ == root@,
        decreases links.len() - k,
    {
        let m = r.len();
        let ghost before = texts(r@);
        let ghost old_set = before.to_set();
        let mut i: usize = 0;
        while i < links.len()
            invariant
                i <= links.len(),
                m <= r.len(),
                lv == links_view(links@),
                texts(r@).take(m as int) == before,
                before.len() == m,
                old_set == before.to_set(),
                texts(r@).to_set() == old_set.union(children_upto(lv, old_set, i as int)),
                texts(r@).no_duplicates(),
                r.len() >= 1 && r@[0]@ == root@,
            decreases links.len() - i,
        {
            let ghost prev = r@;
            let ghost cur = children_upto(lv, old_set, i as int);
            let ghost next = children_upto(lv, old_set, i + 1);
            assert(lv[i as int] == (links@[i as int].0@, option_view(&links@[i as int].1)));
            let mut added = false;
            match &links[i].1 {
                Some(p) => {
                    if holds(&r, p, m) {
                        let c = &links[i].0;
                        assert(texts(r@).take(m as int) == before);
                        if !holds(&r, c, r.len()) {
                            r.push(c.clone());
                            added = true;
                        } else {
                            assert(texts(r@).take(r.len() as int) =~= texts(r@));
                        }
                    }
                },
                None => {},
            }
            proof {
                assert forall|x: Seq<char>| next.contains(x) <==> (cur.contains(x) || (x == lv[i as int].0
                    && lv[i as int].1 is Some && old_set.contains(lv[i as int].1->0))) by {
                    if next.contains(x) {
                        let j = choose|j: int|
                            0 <= j < i + 1 && j < lv.len() && #[trigger] lv[j].0 == x && lv[j].1 is Some
                                && old_set.contains(lv[j].1->0);
                        if j < i {
                            assert(cur.contains(x));
                        }
                    }
                    if cur.contains(x) {
                        let j = choose|j: int|
                            0 <= j < i && j < lv.len() && #[trigger] lv[j].0 == x && lv[j].1 is Some
                                && old_set.contains(lv[j].1->0);
                        assert(next.contains(x));
                    }
                    if x == lv[i as int].0 && lv[i as int].1 is Some && old_set.contains(lv[i as int].1->0) {
                        assert(lv[i as int].0 == x);
                        assert(next.contains(x));
                    }
                }
                if added {
                    let c = links@[i as int].0@;
                    assert(texts(r@) =~= texts(prev).push(c));
                    assert(texts(r@).take(m as int) =~= texts(prev).take(m as int));
                    texts(prev).lemma_push_to_set_commute(c);
                    assert(texts(r@).to_set() =~= texts(prev).to_set().insert(c));
                    assert(texts(prev).take(prev.len() as int) =~= texts(prev));
                    assert forall|a: int, b: int|
                        0 <= a < texts(r@).len() && 0 <= b < texts(r@).len() && a != b implies texts(r@)[a]
                        != texts(r@)[b] by {
                        if b == prev.len() as int && texts(r@)[a] == c {
                            assert(texts(prev)[a] == c);
                        }
                        if a == prev.len() as int && texts(r@)[b] == c {
                            assert(texts(prev)[b] == c);
                        }
                    }
                    assert(texts(r@).to_set() =~= old_set.union(next));
                } else {
                    assert(texts(r@).to_set() =~= old_set.union(next));
                }
            }
            i = i + 1;
        }
        assert(within(lv, root@, (k + 1) as nat) == old_set.union(children_upto(lv, old_set, lv.len() as int)));
        k = k + 1;
    }
    r
}

pub open spec fn message_ids(history: Seq<Message>) -> Seq<Seq<char>> {
    history.map_values(|m: Message| m.id@)
}

/// Index of the first entry equal to `x` at or after `i`, or `ids.len()`.
pub open spec fn first_index(ids: Seq<Seq<char>>, x: Seq<char>, i: int) -> int
    decreases ids.len() - i,
{
    if 0 <= i < ids.len() {
        if ids[i] == x {
            i
        } else {
            first_index(ids, x, i + 1)
        }
    } else {
        ids.len() as int
    }
}

/// The ids of the messages that come after `message_id` in `history` (a
/// chat's messages in order, equal timestamps in insertion order), and of
/// `message_id` itself when `inclusive`; `NotFound` when it is not there.
pub fn messages_from(history: &Vec<Message>, message_id: &String, inclusive: bool) -> (r: Result<
    Vec<String>,
    AppError,
>)
    ensures
        ({
            let ids = message_ids(history@);
            let k = first_index(ids, message_id@, 0);
            if k >= ids.len() {
                r == Err::<Vec<String>, AppError>(AppError::NotFound)
            } else {
                r is Ok && texts(r->Ok_0@) == ids.skip(
                    if inclusive {
                        k
                    } else {
                        k + 1
                    },
                )
            }
        }),
{
    let ghost ids = message_ids(history@);
    let mut k: usize = 0;
    while k < history.len() && history[k].id != *message_id
        invariant
            k <= history.len(),
            ids == message_ids(history@),
            first_index(ids, message_id@, 0) == first_index(ids, message_id@, k as int),
        decreases history.len() - k,
    {
        k = k + 1;
    }
    if k >= history.len() {
        return Err(AppError::NotFound);
    }
    let start: usize = if inclusive {
        k
    } else {
        k + 1
    };
    let mut r: Vec<String> = Vec::new();
    let mut i: usize = start;
    while i < history.len()
        invariant
            start <= i <= history.len(),
            ids == message_ids(history@),
            texts(r@) == ids.subrange(start as int, i as int),
        decreases history.len() - i,
    {
        let ghost prev = r@;
        r.push(history[i].id.clone());
        assert(texts(r@) =~= texts(prev).push(history@[i as int].id@));
        assert(ids.subrange(start as int, i + 1) =~= ids.subrange(start as int, i as int).push(
            ids[i as int],
        ));
        i = i + 1;
    }
    assert(ids.subrange(start as int, history.len() as int) =~= ids.skip(start as int));
    Ok(r)
}

} // verus!
