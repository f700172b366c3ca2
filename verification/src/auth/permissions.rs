//! Who may do what with which repository.
use crate::clones::clone_list;
use crate::error::{ErrorView, LayerhouseError};
use crate::text::{
    concat2, contains_char, holds_text, join, joined, part_of, split, split_at_most, split_first,
    split_on, split_once, splitn, starts_with, str_equal, strip_suffix,
};
use vstd::prelude::*;

verus! {

// ── Values ───────────────────────────────────────────────────────────────

/// What can be done with a repository.
#[derive(Debug, Clone, Copy, PartialEq, Eq, Structural)]
pub enum OciAction {
    Pull,
    Push,
    Delete,
}

impl DeepView for OciAction {
    type V = OciAction;

    open spec fn deep_view(&self) -> OciAction {
        *self
    }
}

/// A configured mapping from groups to scopes.
#[derive(Debug, PartialEq, Eq)]
pub struct PermissionMapping {
    pub name: String,
    pub groups: Vec<String>,
    pub scopes: Vec<String>,
}

/// What a `PermissionMapping` holds.
#[verifier::ext_equal]
pub struct PermissionMappingView {
    pub name: Seq<char>,
    pub groups: Seq<Seq<char>>,
    pub scopes: Seq<Seq<char>>,
}

impl View for PermissionMapping {
    type V = PermissionMappingView;

    open spec fn view(&self) -> PermissionMappingView {
        PermissionMappingView {
            name: self.name@,
            groups: self.groups.deep_view(),
            scopes: self.scopes.deep_view(),
        }
    }
}

impl DeepView for PermissionMapping {
    type V = PermissionMappingView;

    open spec fn deep_view(&self) -> PermissionMappingView {
        self@
    }
}

/// A mapping whose scopes were read.
#[derive(Debug)]
struct CompiledMapping {
    groups: Vec<String>,
    rules: Vec<(String, OciAction)>,
}

/// What a mapping grants to which groups.
#[verifier::ext_equal]
pub struct RuleSet {
    pub groups: Seq<Seq<char>>,
    pub rules: Seq<(Seq<char>, OciAction)>,
}

impl DeepView for CompiledMapping {
    type V = RuleSet;

    closed spec fn deep_view(&self) -> RuleSet {
        RuleSet { groups: self.groups.deep_view(), rules: self.rules.deep_view() }
    }
}

// ── Matching ─────────────────────────────────────────────────────────────

impl OciAction {
    /// What an HTTP method does with a repository.
    pub open spec fn of_method(method: Seq<char>) -> OciAction {
        if method == "GET"@ || method == "HEAD"@ {
            OciAction::Pull
        } else if method == "DELETE"@ {
            OciAction::Delete
        } else {
            OciAction::Push
        }
    }

    /// What the HTTP method of a name does with a repository.
    pub fn from_method(method: &str) -> (r: Self)
        ensures
            r == Self::of_method(method@),
    {
        if str_equal(method, "GET") || str_equal(method, "HEAD") {
            OciAction::Pull
        } else if str_equal(method, "DELETE") {
            OciAction::Delete
        } else {
            OciAction::Push
        }
    }
}

/// Whether a user's group is a configured one. A group that is configured
/// without a domain stands for the group of that name in any domain.
pub open spec fn is_group(configured: Seq<char>, user_group: Seq<char>) -> bool {
    ||| configured == user_group
    ||| !configured.contains('@') && (split_first(user_group, '@') matches Some((local_name, _))
        && local_name == configured)
}

/// Whether a user's group is a configured one.
pub fn group_matches(configured: &str, user_group: &str) -> (r: bool)
    ensures
        r == is_group(configured@, user_group@),
{
    if str_equal(configured, user_group) {
        return true;
    }
    if contains_char(configured, '@') {
        return false;
    }
    match split_once(user_group, '@') {
        Some((local_name, _domain)) => str_equal(&local_name, configured),
        None => false,
    }
}

/// Whether a repository fits a pattern: `*` fits all, `path/*` fits the path and
/// all below it, anything else fits itself.
pub open spec fn fits_repository(pattern: Seq<char>, repo: Seq<char>) -> bool {
    if pattern == "*"@ {
        true
    } else if "/*"@.is_suffix_of(pattern) {
        let prefix = pattern.take(pattern.len() - "/*"@.len());
        repo == prefix || (prefix + "/"@).is_prefix_of(repo)
    } else {
        pattern == repo
    }
}

/// Whether a repository fits a pattern.
pub fn match_repository(pattern: &str, repo: &str) -> (r: bool)
    ensures
        r == fits_repository(pattern@, repo@),
{
    if str_equal(pattern, "*") {
        return true;
    }
    match strip_suffix(pattern, "/*") {
        Some(prefix) => str_equal(repo, &prefix) || starts_with(repo, &concat2(&prefix, "/")),
        None => str_equal(pattern, repo),
    }
}

/// Whether an allowed action includes a requested one: deleting includes all,
/// pushing includes pulling.
pub open spec fn covers(allowed: OciAction, requested: OciAction) -> bool {
    match allowed {
        OciAction::Delete => true,
        OciAction::Push => !(requested is Delete),
        OciAction::Pull => requested is Pull,
    }
}

/// Whether an allowed action includes a requested one.
pub fn action_matches(allowed: OciAction, requested: OciAction) -> (r: bool)
    ensures
        r == covers(allowed, requested),
{
    match (allowed, requested) {
        (OciAction::Delete, _) => true,
        (OciAction::Push, OciAction::Push) => true,
        (OciAction::Push, OciAction::Pull) => true,
        (OciAction::Pull, OciAction::Pull) => true,
        _ => false,
    }
}

// ── Scopes ───────────────────────────────────────────────────────────────

/// The widest of the actions that a scope lists.
pub open spec fn listed_action(actions: Seq<Seq<char>>) -> Option<OciAction> {
    if actions.contains("*"@) || actions.contains("delete"@) {
        Some(OciAction::Delete)
    } else if actions.contains("push"@) {
        Some(OciAction::Push)
    } else if actions.contains("pull"@) {
        Some(OciAction::Pull)
    } else {
        None
    }
}

/// The repository pattern and the action of a scope
/// `repository:<pattern>:<action>,...`. The pattern may hold one colon.
pub open spec fn scope_of(scope: Seq<char>) -> Option<(Seq<char>, OciAction)> {
    let parts = split_at_most(scope, ':', 4);
    if parts.len() < 3 || parts[0] != "repository"@ {
        None
    } else {
        match listed_action(split_on(parts.last(), ',')) {
            Some(action) => Some((joined(parts.subrange(1, parts.len() - 1), ":"@), action)),
            None => None,
        }
    }
}

/// The repository pattern and the action of a scope.
pub fn parse_scope(scope: &str) -> (r: Option<(String, OciAction)>)
    ensures
        r.deep_view() == scope_of(scope@),
{
    let parts = splitn(scope, ':', 4);
    let ghost all = parts.deep_view();
    let n: usize = parts.len();
    if n < 3 {
        return None;
    }
    assert(all[0] == parts@[0]@);
    if !str_equal(&parts[0], "repository") {
        return None;
    }
    let repo = join(&part_of(&parts, 1, n - 1), ":");
    assert(all.last() == parts@[n - 1]@);
    let actions = split(&parts[n - 1], ',');
    if holds_text(&actions, "*") || holds_text(&actions, "delete") {
        Some((repo, OciAction::Delete))
    } else if holds_text(&actions, "push") {
        Some((repo, OciAction::Push))
    } else if holds_text(&actions, "pull") {
        Some((repo, OciAction::Pull))
    } else {
        None
    }
}

/// The patterns and actions of those texts that are scopes.
pub open spec fn scopes_of(scopes: Seq<Seq<char>>) -> Seq<(Seq<char>, OciAction)>
    decreases scopes.len(),
{
    if scopes.len() == 0 {
        Seq::empty()
    } else {
        let front = scopes_of(scopes.drop_last());
        match scope_of(scopes.last()) {
            Some(rule) => front.push(rule),
            None => front,
        }
    }
}

/// The patterns and actions of those texts that are scopes.
pub fn parse_scopes(scopes: &Vec<String>) -> (r: Vec<(String, OciAction)>)
    ensures
        r.deep_view() == scopes_of(scopes.deep_view()),
{
    let ghost all = scopes.deep_view();
    let mut r: Vec<(String, OciAction)> = Vec::new();
    let mut i: usize = 0;
    assert(r.deep_view() =~= scopes_of(all.take(0)));
    while i < scopes.len()
        invariant
            all == scopes.deep_view(),
            i <= scopes@.len(),
            r.deep_view() == scopes_of(all.take(i as int)),
        decreases scopes@.len() - i,
    {
        let ghost before = r.deep_view();
        assert(all.take(i + 1).drop_last() =~= all.take(i as int));
        assert(all.take(i + 1).last() == scopes@[i as int]@);
        match parse_scope(&scopes[i]) {
            Some(rule) => {
                r.push(rule);
                assert(r.deep_view() =~= before.push(rule.deep_view()));
            },
            None => {},
        }
        i = i + 1;
    }
    assert(all.take(all.len() as int) =~= all);
    r
}

// ── Decisions ────────────────────────────────────────────────────────────

/// Whether a rule allows an action on a repository.
pub open spec fn rule_allows(
    rule: (Seq<char>, OciAction),
    repository: Seq<char>,
    action: OciAction,
) -> bool {
    fits_repository(rule.0, repository) && covers(rule.1, action)
}

/// Whether any rule allows an action on a repository.
pub open spec fn any_rule_allows(
    rules: Seq<(Seq<char>, OciAction)>,
    repository: Seq<char>,
    action: OciAction,
) -> bool {
    exists|i: int| 0 <= i < rules.len() && rule_allows(#[trigger] rules[i], repository, action)
}

/// Whether any of a user's groups is one of the configured ones.
pub open spec fn any_group(configured: Seq<Seq<char>>, user_groups: Seq<Seq<char>>) -> bool {
    exists|i: int, j: int|
        0 <= i < configured.len() && 0 <= j < user_groups.len() && is_group(
            #[trigger] configured[i],
            #[trigger] user_groups[j],
        )
}

/// Whether some mapping names a group of the user and allows the action.
pub open spec fn groups_allow(
    mappings: Seq<RuleSet>,
    user_groups: Seq<Seq<char>>,
    repository: Seq<char>,
    action: OciAction,
) -> bool {
    exists|i: int|
        0 <= i < mappings.len() && any_group((#[trigger] mappings[i]).groups, user_groups)
            && any_rule_allows(mappings[i].rules, repository, action)
}

/// What some configured mappings grant.
pub open spec fn rule_sets(mappings: Seq<PermissionMappingView>) -> Seq<RuleSet> {
    mappings.map_values(
        |m: PermissionMappingView| RuleSet { groups: m.groups, rules: scopes_of(m.scopes) },
    )
}

/// The error for a refused action.
pub open spec fn denied(repository: Seq<char>) -> ErrorView {
    ErrorView::Denied("access denied for repository "@ + repository)
}

/// Whether any rule allows an action on a repository.
fn rules_allow(rules: &Vec<(String, OciAction)>, repository: &str, action: OciAction) -> (r: bool)
    ensures
        r == any_rule_allows(rules.deep_view(), repository@, action),
{
    let ghost all = rules.deep_view();
    let mut i: usize = 0;
    while i < rules.len()
        invariant
            all == rules.deep_view(),
            i <= rules@.len(),
            forall|j: int| 0 <= j < i ==> !rule_allows(#[trigger] all[j], repository@, action),
        decreases rules@.len() - i,
    {
        assert(all[i as int] == (rules@[i as int].0@, rules@[i as int].1));
        if match_repository(&rules[i].0, repository) && action_matches(rules[i].1, action) {
            assert(rule_allows(all[i as int], repository@, action));
            return true;
        }
        i = i + 1;
    }
    false
}

/// Whether any of a user's groups is a configured one.
fn in_group(configured: &str, user_groups: &Vec<String>) -> (r: bool)
    ensures
        r == exists|j: int|
            0 <= j < user_groups@.len() && is_group(
                configured@,
                #[trigger] user_groups.deep_view()[j],
            ),
{
    let ghost all = user_groups.deep_view();
    let mut i: usize = 0;
    while i < user_groups.len()
        invariant
            all == user_groups.deep_view(),
            i <= user_groups@.len(),
            forall|j: int| 0 <= j < i ==> !is_group(configured@, #[trigger] all[j]),
        decreases user_groups@.len() - i,
    {
        assert(all[i as int] == user_groups@[i as int]@);
        if group_matches(configured, &user_groups[i]) {
            assert(is_group(configured@, user_groups.deep_view()[i as int]));
            return true;
        }
        i = i + 1;
    }
    false
}

/// Whether any of a user's groups is one of the configured ones.
fn in_any_group(configured: &Vec<String>, user_groups: &Vec<String>) -> (r: bool)
    ensures
        r == any_group(configured.deep_view(), user_groups.deep_view()),
{
    let ghost all = configured.deep_view();
    let ghost users = user_groups.deep_view();
    let mut i: usize = 0;
    while i < configured.len()
        invariant
            all == configured.deep_view(),
            users == user_groups.deep_view(),
            i <= configured@.len(),
            forall|k: int, j: int|
                0 <= k < i && 0 <= j < users.len() ==> !is_group(
                    #[trigger] all[k],
                    #[trigger] users[j],
                ),
        decreases configured@.len() - i,
    {
        assert(all[i as int] == configured@[i as int]@);
        if in_group(&configured[i], user_groups) {
            proof {
                let j = choose|j: int|
                    0 <= j < user_groups@.len() && is_group(
                        configured@[i as int]@,
                        #[trigger] users[j],
                    );
                assert(is_group(all[i as int], users[j]));
            }
            return true;
        }
        i = i + 1;
    }
    false
}

/// The rules of a registry's permissions.
#[derive(Debug)]
pub struct PermissionResolver {
    mappings: Vec<CompiledMapping>,
}

impl View for PermissionResolver {
    type V = Seq<RuleSet>;

    closed spec fn view(&self) -> Seq<RuleSet> {
        self.mappings.deep_view()
    }
}

impl PermissionResolver {
    /// The rules of the configured mappings. Texts that are no scopes grant
    /// nothing.
    pub fn new(mappings: &Vec<PermissionMapping>) -> (r: Self)
        ensures
            r@ == rule_sets(mappings.deep_view()),
    {
        let mut compiled: Vec<CompiledMapping> = Vec::new();
        let mut i: usize = 0;
        while i < mappings.len()
            invariant
                i <= mappings@.len(),
                compiled@.len() == i,
                forall|j: int|
                    0 <= j < i ==> (#[trigger] compiled@[j]).deep_view() == (RuleSet {
                        groups: mappings@[j]@.groups,
                        rules: scopes_of(mappings@[j]@.scopes),
                    }),
            decreases mappings@.len() - i,
        {
            compiled.push(
                CompiledMapping {
                    groups: clone_list(&mappings[i].groups),
                    rules: parse_scopes(&mappings[i].scopes),
                },
            );
            i = i + 1;
        }
        assert(compiled.deep_view() =~= rule_sets(mappings.deep_view()));
        PermissionResolver { mappings: compiled }
    }

    /// Whether the groups of a user allow an action on a repository.
    pub fn check(&self, user_groups: &Vec<String>, repository: &str, action: OciAction) -> (r:
        Result<(), LayerhouseError>)
        ensures
            match r {
                Ok(_) => groups_allow(self@, user_groups.deep_view(), repository@, action),
                Err(e) => !groups_allow(self@, user_groups.deep_view(), repository@, action) && e@
                    == denied(repository@),
            },
    {
        let ghost all = self@;
        let ghost users = user_groups.deep_view();
        let mut i: usize = 0;
        while i < self.mappings.len()
            invariant
                all == self.mappings.deep_view(),
                all == self@,
                users == user_groups.deep_view(),
                i <= self.mappings@.len(),
                forall|j: int|
                    0 <= j < i ==> !(any_group((#[trigger] all[j]).groups, users)
                        && any_rule_allows(all[j].rules, repository@, action)),
            decreases self.mappings@.len() - i,
        {
            assert(all[i as int] == self.mappings@[i as int].deep_view());
            if in_any_group(&self.mappings[i].groups, user_groups) && rules_allow(
                &self.mappings[i].rules,
                repository,
                action,
            ) {
                assert(any_group(self@[i as int].groups, users));
                return Ok(());
            }
            i = i + 1;
        }
        Err(LayerhouseError::Denied(concat2("access denied for repository ", repository)))
    }

    /// Whether the scopes of a token allow an action on a repository.
    pub fn check_scopes(&self, scopes: &Vec<String>, repository: &str, action: OciAction) -> (r:
        Result<(), LayerhouseError>)
        ensures
            match r {
                Ok(_) => any_rule_allows(scopes_of(scopes.deep_view()), repository@, action),
                Err(e) => !any_rule_allows(scopes_of(scopes.deep_view()), repository@, action)
                    && e@ == denied(repository@),
            },
    {
        let rules = parse_scopes(scopes);
        if rules_allow(&rules, repository, action) {
            Ok(())
        } else {
            Err(LayerhouseError::Denied(concat2("access denied for repository ", repository)))
        }
    }
}

// ── Laws ─────────────────────────────────────────────────────────────────

/// Whoever may do something may do all that it includes.
pub proof fn lemma_wider_action_grants_narrower(
    mappings: Seq<RuleSet>,
    user_groups: Seq<Seq<char>>,
    repository: Seq<char>,
    wide: OciAction,
    narrow: OciAction,
)
    requires
        covers(wide, narrow),
        groups_allow(mappings, user_groups, repository, wide),
    ensures
        groups_allow(mappings, user_groups, repository, narrow),
{
    let i = choose|i: int|
        0 <= i < mappings.len() && any_group((#[trigger] mappings[i]).groups, user_groups)
            && any_rule_allows(mappings[i].rules, repository, wide);
    let rules = mappings[i].rules;
    let k = choose|k: int|
        0 <= k < rules.len() && rule_allows(#[trigger] rules[k], repository, wide);
    assert(rule_allows(rules[k], repository, narrow));
    assert(any_group(mappings[i].groups, user_groups));
}

/// A group that is configured with a domain stands for itself only.
pub proof fn lemma_group_with_domain_is_exact(configured: Seq<char>, user_group: Seq<char>)
    requires
        configured.contains('@'),
    ensures
        is_group(configured, user_group) <==> configured == user_group,
{
}

/// Whoever is in no group may do nothing.
pub proof fn lemma_no_group_no_access(
    mappings: Seq<RuleSet>,
    repository: Seq<char>,
    action: OciAction,
)
    ensures
        !groups_allow(mappings, Seq::empty(), repository, action),
{
}

/// A further group takes nothing away.
pub proof fn lemma_more_groups_grant_more(
    mappings: Seq<RuleSet>,
    user_groups: Seq<Seq<char>>,
    more: Seq<Seq<char>>,
    repository: Seq<char>,
    action: OciAction,
)
    requires
        groups_allow(mappings, user_groups, repository, action),
    ensures
        groups_allow(mappings, user_groups + more, repository, action),
{
    let i = choose|i: int|
        0 <= i < mappings.len() && any_group((#[trigger] mappings[i]).groups, user_groups)
            && any_rule_allows(mappings[i].rules, repository, action);
    let configured = mappings[i].groups;
    let (k, j) = choose|k: int, j: int|
        0 <= k < configured.len() && 0 <= j < user_groups.len() && is_group(
            #[trigger] configured[k],
            #[trigger] user_groups[j],
        );
    let all = user_groups + more;
    assert(all[j] == user_groups[j]);
    assert(is_group(configured[k], all[j]));
    assert(any_group(mappings[i].groups, all));
}

} // verus!
