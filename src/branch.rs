//! Parallel branches: one new chat per requested model, each holding the
//! parent's history and the new user message.

use vstd::prelude::*;
use crate::conversation::{messages_view, turns_view, Turn, TurnView};
use crate::records::{Chat, Message, ParallelModelConfig};
use crate::text::{contains, contains_text};
use crate::title::{generate_chat_title, title_of};

verus! {

/// A chat whose title still holds the placeholder gets a generated one.
pub open spec fn has_placeholder_title(title: Seq<char>) -> bool {
    contains(title, "New Chat"@)
}

/// Whether a chat's title is regenerated after a user message: it still holds
/// the placeholder and the chat has exactly one user message.
pub fn needs_title(chat_title: &String, user_message_count: i64) -> (r: bool)
    ensures
        r == (has_placeholder_title(chat_title@) && user_message_count == 1),
{
    contains_text(chat_title.as_str(), "New Chat") && user_message_count == 1
}

/// The title the branches of a chat are based on.
pub open spec fn branch_base(parent_title: Seq<char>, content: Seq<char>) -> Seq<char> {
    if has_placeholder_title(parent_title) {
        title_of(content)
    } else {
        parent_title
    }
}

/// A branch's title: the base, then the model in parentheses.
pub open spec fn branch_title(base: Seq<char>, model: Seq<char>) -> Seq<char> {
    base + " ("@ + model + ")"@
}

/// A branch chat to create, with the messages it starts with.
#[derive(Debug, Clone)]
pub struct BranchPlan {
    pub user_id: String,
    pub title: String,
    pub provider: String,
    pub model: String,
    pub system_prompt: Option<String>,
    pub pinned: bool,
    pub is_branch: bool,
    pub parent_chat_id: String,
    pub branch_point_message_id: String,
    pub messages: Vec<Turn>,
}

/// Whether `plan` is the branch of `parent` for model `cfg`.
pub open spec fn planned(
    plan: BranchPlan,
    parent: Chat,
    user_message: Message,
    history: Seq<Message>,
    cfg: ParallelModelConfig,
) -> bool {
    &&& plan.user_id@ == parent.user_id@
    &&& plan.title@ == branch_title(branch_base(parent.title@, user_message.content@), cfg.model@)
    &&& !plan.pinned
    &&& plan.is_branch
    &&& plan.provider@ == cfg.provider@
    &&& plan.model@ == cfg.model@
    &&& plan.system_prompt == parent.system_prompt
    &&& plan.parent_chat_id@ == parent.id@
    &&& plan.branch_point_message_id@ == user_message.id@
    &&& turns_view(plan.messages@) == branch_messages(history, user_message.content@)
}

pub open spec fn branch_messages(history: Seq<Message>, content: Seq<char>) -> Seq<TurnView> {
    messages_view(history).push(TurnView { role: "user"@, content: content })
}

/// Plans one branch per requested model. `history` is the parent's messages
/// before `user_message`, oldest first; each branch gets that history and then
/// the new user message.
pub fn plan_branches(
    parent: &Chat,
    user_message: &Message,
    history: &Vec<Message>,
    models: &Vec<ParallelModelConfig>,
) -> (r: Vec<BranchPlan>)
    ensures
        r.len() == models.len(),
        forall|i: int|
            0 <= i < r.len() ==> planned(#[trigger] r[i], *parent, *user_message, history@, models[i]),
{
    let base = if contains_text(parent.title.as_str(), "New Chat") {
        generate_chat_title(user_message.content.as_str())
    } else {
        parent.title.clone()
    };
    let mut r: Vec<BranchPlan> = Vec::new();
    let mut i: usize = 0;
    while i < models.len()
        invariant
            i <= models.len(),
            r.len() == i,
            base@ == branch_base(parent.title@, user_message.content@),
            forall|k: int|
                0 <= k < r.len() ==> {
                    &&& #[trigger] r[k].title@ == branch_title(base@, models[k].model@)
                    &&& r[k].user_id@ == parent.user_id@
                    &&& !r[k].pinned
                    &&& r[k].is_branch
                    &&& r[k].provider@ == models[k].provider@
                    &&& r[k].model@ == models[k].model@
                    &&& r[k].system_prompt == parent.system_prompt
                    &&& r[k].parent_chat_id@ == parent.id@
                    &&& r[k].branch_point_message_id@ == user_message.id@
                    &&& turns_view(r[k].messages@) == branch_messages(
                        history@,
                        user_message.content@,
                    )
                },
        decreases models.len() - i,
    {
        let cfg = &models[i];
        let mut title = base.clone();
        title.append(" (");
        title.append(cfg.model.as_str());
        title.append(")");
        let messages = copy_history(history, &user_message.content);
        let sp = match &parent.system_prompt {
            Some(s) => Some(s.clone()),
            None => None,
        };
        assert(title@ == branch_title(base@, models[i as int].model@));
        assert(sp == parent.system_prompt);
        let ghost prev = r@;
        r.push(
            BranchPlan {
                user_id: parent.user_id.clone(),
                title,
                provider: cfg.provider.clone(),
                model: cfg.model.clone(),
                system_prompt: sp,
                pinned: false,
                is_branch: true,
                parent_chat_id: parent.id.clone(),
                branch_point_message_id: user_message.id.clone(),
                messages,
            },
        );
        assert(r@ == prev.push(r@.last()));
        assert(r[i as int].title@ == branch_title(base@, models[i as int].model@));
        i = i + 1;
    }
    assert forall|k: int| 0 <= k < r.len() implies planned(
        #[trigger] r[k],
        *parent,
        *user_message,
        history@,
        models[k],
    ) by {
        assert(r[k].title@ == branch_title(base@, models[k].model@));
    }
    r
}

/// The history as turns, then the user message.
fn copy_history(history: &Vec<Message>, content: &String) -> (r: Vec<Turn>)
    ensures
        turns_view(r@) == branch_messages(history@, content@),
{
    let mut r: Vec<Turn> = Vec::new();
    let mut i: usize = 0;
    while i < history.len()
        invariant
            i <= history.len(),
            turns_view(r@) == messages_view(history@.subrange(0, i as int)),
        decreases history.len() - i,
    {
        let m = &history[i];
        let t = Turn { role: m.role.clone(), content: m.content.clone() };
        let ghost prev = r@;
        r.push(t);
        proof {
            assert(history@.subrange(0, i + 1) =~= history@.subrange(0, i as int).push(
                history@[i as int],
            ));
            assert(turns_view(r@) =~= turns_view(prev).push(t@));
        }
        i = i + 1;
    }
    let u = Turn { role: String::from_str("user"), content: content.clone() };
    let ghost prev = r@;
    r.push(u);
    proof {
        assert(history@.subrange(0, history.len() as int) =~= history@);
        assert(turns_view(r@) =~= turns_view(prev).push(u@));
    }
    r
}

/// Branches for different models get different titles.
pub proof fn law_branch_titles_distinct(base: Seq<char>, m1: Seq<char>, m2: Seq<char>)
    requires
        m1 != m2,
    ensures
        branch_title(base, m1) != branch_title(base, m2),
{
    reveal_strlit(" (");
    reveal_strlit(")");
    let t1 = branch_title(base, m1);
    let t2 = branch_title(base, m2);
    if t1 == t2 {
        let n: int = base.len() as int + 2;
        assert(t1.len() == base.len() + 2 + m1.len() + 1);
        assert(t2.len() == base.len() + 2 + m2.len() + 1);
        assert(m1.len() == m2.len());
        assert(t1.subrange(n, n + m1.len() as int) =~= m1);
        assert(t2.subrange(n, n + m2.len() as int) =~= m2);
        assert(m1 =~= m2);
    }
}

/// Requesting distinct models plans exactly one branch per model; every
/// branch holds the parent's full history followed by the same new user
/// message, and no two branches share a title.
pub proof fn law_parallel_branches(
    plans: Seq<BranchPlan>,
    parent: Chat,
    user_message: Message,
    history: Seq<Message>,
    models: Seq<ParallelModelConfig>,
)
    requires
        plans.len() == models.len(),
        forall|i: int|
            0 <= i < plans.len() ==> planned(#[trigger] plans[i], parent, user_message, history, models[i]),
        forall|i: int, j: int|
            0 <= i < j < models.len() ==> #[trigger] models[i].model@ != #[trigger] models[j].model@,
    ensures
        forall|i: int|
            0 <= i < plans.len() ==> turns_view(#[trigger] plans[i].messages@) == messages_view(history).push(
                TurnView { role: "user"@, content: user_message.content@ },
            ),
        forall|i: int, j: int|
            0 <= i < j < plans.len() ==> #[trigger] plans[i].title@ != #[trigger] plans[j].title@,
{
    assert forall|i: int, j: int| 0 <= i < j < plans.len() implies #[trigger] plans[i].title@
        != #[trigger] plans[j].title@ by {
        assert(planned(plans[i], parent, user_message, history, models[i]));
        assert(planned(plans[j], parent, user_message, history, models[j]));
        law_branch_titles_distinct(
            branch_base(parent.title@, user_message.content@),
            models[i].model@,
            models[j].model@,
        );
    }
}

} // verus!
