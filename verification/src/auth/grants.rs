//! What a user may pass on of the own rights.
use crate::text::{join, joined};
use vstd::prelude::*;

verus! {

/// What can be granted on a repository. Each action includes those before it.
#[derive(Debug, Clone, Copy, PartialEq, Eq, Structural)]
pub enum RepositoryAction {
    Pull,
    Create,
    Update,
    Delete,
}

impl DeepView for RepositoryAction {
    type V = RepositoryAction;

    open spec fn deep_view(&self) -> RepositoryAction {
        *self
    }
}

/// Where a right comes from.
#[derive(Debug, Clone, Copy, PartialEq, Eq, Structural)]
pub enum GrantSource {
    Public,
    GroupGrant,
}

impl DeepView for GrantSource {
    type V = GrantSource;

    open spec fn deep_view(&self) -> GrantSource {
        *self
    }
}

/// How much an action includes.
pub open spec fn rank(action: RepositoryAction) -> nat {
    match action {
        RepositoryAction::Pull => 0,
        RepositoryAction::Create => 1,
        RepositoryAction::Update => 2,
        RepositoryAction::Delete => 3,
    }
}

/// How much an action includes.
pub fn action_rank(action: RepositoryAction) -> (r: u8)
    ensures
        r == rank(action),
{
    match action {
        RepositoryAction::Pull => 0,
        RepositoryAction::Create => 1,
        RepositoryAction::Update => 2,
        RepositoryAction::Delete => 3,
    }
}

/// Whether an action includes another.
pub fn grant_covers(allowed: RepositoryAction, requested: RepositoryAction) -> (r: bool)
    ensures
        r == (rank(allowed) >= rank(requested)),
{
    action_rank(allowed) >= action_rank(requested)
}

/// The name of an action in a scope.
pub open spec fn action_text(action: RepositoryAction) -> Seq<char> {
    match action {
        RepositoryAction::Pull => "pull"@,
        RepositoryAction::Create => "create"@,
        RepositoryAction::Update => "update"@,
        RepositoryAction::Delete => "delete"@,
    }
}

impl RepositoryAction {
    /// The name of the action in a scope.
    pub fn scope_token(&self) -> (r: &'static str)
        ensures
            r@ == action_text(*self),
    {
        match self {
            RepositoryAction::Pull => "pull",
            RepositoryAction::Create => "create",
            RepositoryAction::Update => "update",
            RepositoryAction::Delete => "delete",
        }
    }
}

/// The names of some actions, separated by commas.
pub open spec fn actions_text(actions: Seq<RepositoryAction>) -> Seq<char> {
    joined(actions.map_values(|a: RepositoryAction| action_text(a)), ","@)
}

/// The names of some actions, separated by commas.
pub fn scope_tokens(actions: &Vec<RepositoryAction>) -> (r: String)
    ensures
        r@ == actions_text(actions@),
{
    let mut names: Vec<String> = Vec::new();
    let mut i: usize = 0;
    while i < actions.len()
        invariant
            i <= actions@.len(),
            names@.len() == i,
            forall|j: int| 0 <= j < i ==> (#[trigger] names@[j])@ == action_text(actions@[j]),
        decreases actions@.len() - i,
    {
        names.push(actions[i].scope_token().to_string());
        i = i + 1;
    }
    assert(names.deep_view() =~= actions@.map_values(|a: RepositoryAction| action_text(a)));
    join(&names, ",")
}

/// The widest of some actions, or pulling where there are none.
pub open spec fn widest(actions: Seq<RepositoryAction>) -> RepositoryAction
    decreases actions.len(),
{
    if actions.len() == 0 {
        RepositoryAction::Pull
    } else if rank(actions.last()) >= rank(widest(actions.drop_last())) {
        actions.last()
    } else {
        widest(actions.drop_last())
    }
}

/// The widest of some actions, or pulling where there are none.
pub fn widest_action(actions: &Vec<RepositoryAction>) -> (r: RepositoryAction)
    ensures
        r == widest(actions@),
{
    let mut best = RepositoryAction::Pull;
    let mut i: usize = 0;
    while i < actions.len()
        invariant
            i <= actions@.len(),
            best == widest(actions@.take(i as int)),
        decreases actions@.len() - i,
    {
        assert(actions@.take(i + 1).drop_last() =~= actions@.take(i as int));
        if grant_covers(actions[i], best) {
            best = actions[i];
        }
        i = i + 1;
    }
    assert(actions@.take(actions@.len() as int) =~= actions@);
    best
}

/// The widest of some actions includes each of them.
pub proof fn lemma_widest_includes_all(actions: Seq<RepositoryAction>, i: int)
    requires
        0 <= i < actions.len(),
    ensures
        rank(widest(actions)) >= rank(actions[i]),
    decreases actions.len(),
{
    if i < actions.len() - 1 {
        assert(actions.drop_last()[i] == actions[i]);
        lemma_widest_includes_all(actions.drop_last(), i);
    }
}

} // verus!
