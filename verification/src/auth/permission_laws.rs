//! Who may do what, told by what is configured, granted and asked for.
use super::grants::{
    action_rank, action_text, grant_covers, lemma_widest_includes_all, rank, scope_tokens, widest,
    widest_action, RepositoryAction,
};
use super::permissions::{
    action_matches, any_group, any_rule_allows, covers, fits_repository, group_matches,
    groups_allow, is_group, match_repository, parse_scope, parse_scopes, rule_allows, rule_sets,
    scope_of, scopes_of, OciAction, PermissionMapping, PermissionResolver,
};
use crate::error::LayerhouseError;
use crate::text::{
    joined, lemma_position, lemma_position_is, position, split_at_most, split_first, split_on,
};
use vstd::prelude::*;

verus! {

// ── Actions ──────────────────────────────────────────────────────────────

/// Reading pulls, deleting deletes, and everything else pushes.
pub proof fn lemma_actions_of_methods(method: &str, r: OciAction)
    requires
        call_ensures(OciAction::from_method, (method,), r),
    ensures
        r is Pull <==> method@ == "GET"@ || method@ == "HEAD"@,
        r is Delete <==> method@ == "DELETE"@,
{
    reveal_strlit("GET");
    reveal_strlit("HEAD");
    reveal_strlit("DELETE");
    assert("GET"@[0] == 'G' && "HEAD"@[0] == 'H' && "DELETE"@[0] == 'D');
}

/// Every action includes itself. Who may delete may do all, who may push may pull, and
/// nothing else is included.
pub proof fn lemma_included_actions(allowed: OciAction, requested: OciAction, r: bool)
    requires
        call_ensures(action_matches, (allowed, requested), r),
    ensures
        allowed == requested ==> r,
        allowed is Delete ==> r,
        requested is Pull ==> r,
        allowed is Pull && !(requested is Pull) ==> !r,
        allowed is Push && requested is Delete ==> !r,
{
}

/// Deleting includes updating, updating includes creating, and creating includes pulling;
/// none of these holds the other way round.
pub proof fn lemma_included_grants(
    allowed: RepositoryAction,
    requested: RepositoryAction,
    r: bool,
    back: bool,
)
    requires
        call_ensures(grant_covers, (allowed, requested), r),
        call_ensures(grant_covers, (requested, allowed), back),
    ensures
        r || back,
        r && back ==> allowed == requested,
        allowed == requested ==> r,
        allowed is Delete ==> r,
        requested is Pull ==> r,
        allowed is Update && requested is Create ==> r,
        allowed is Create && requested is Update ==> !r,
        allowed is Pull && !(requested is Pull) ==> !r,
        requested is Delete && !(allowed is Delete) ==> !r,
{
}

/// The name of an action in a scope.
pub proof fn lemma_names_of_actions(action: RepositoryAction, r: &'static str)
    requires
        call_ensures(RepositoryAction::scope_token, (&action,), r),
    ensures
        action is Pull ==> r@ == "pull"@,
        action is Create ==> r@ == "create"@,
        action is Update ==> r@ == "update"@,
        action is Delete ==> r@ == "delete"@,
{
}

/// The widest of some actions is one of them and includes each; of none, it is pulling.
pub proof fn lemma_widest_of_actions(actions: &Vec<RepositoryAction>, r: RepositoryAction)
    requires
        call_ensures(widest_action, (actions,), r),
    ensures
        actions@.len() == 0 ==> r is Pull,
        actions@.len() > 0 ==> actions@.contains(r),
        forall|i: int|
            0 <= i < actions@.len() && (#[trigger] actions@[i]) is Delete ==> r is Delete,
        forall|i: int|
            0 <= i < actions@.len() && (#[trigger] actions@[i]) is Update ==> r is Delete || r
                is Update,
        forall|i: int|
            0 <= i < actions@.len() && (#[trigger] actions@[i]) is Create ==> !(r is Pull),
{
    assert forall|i: int| 0 <= i < actions@.len() implies rank(r) >= rank(
        #[trigger] actions@[i],
    ) by {
        lemma_widest_includes_all(actions@, i);
    }
    lemma_widest_is_one(actions@);
}

proof fn lemma_widest_is_one(actions: Seq<RepositoryAction>)
    ensures
        actions.len() > 0 ==> actions.contains(widest(actions)),
    decreases actions.len(),
{
    if actions.len() > 0 {
        let front = actions.drop_last();
        lemma_widest_is_one(front);
        assert(actions[actions.len() - 1] == actions.last());
        if front.len() > 0 {
            let i = choose|i: int| 0 <= i < front.len() && front[i] == widest(front);
            assert(actions[i] == widest(front));
        }
    }
}

// ── Matching ─────────────────────────────────────────────────────────────

/// A group is itself. A group that is configured without a domain is also the group of
/// that name in any domain, and no other group is it.
pub proof fn lemma_which_group_is_meant(configured: &str, user_group: &str, r: bool)
    requires
        call_ensures(group_matches, (configured, user_group), r),
    ensures
        r <==> configured@ == user_group@ || (!configured@.contains('@') && exists|
            domain: Seq<char>,
        | user_group@ == #[trigger] (configured@ + seq!['@'] + domain)),
{
    let c = configured@;
    let u = user_group@;
    lemma_position(u, '@');
    let p = position(u, '@');
    if !c.contains('@') && split_first(u, '@') is Some && u.take(p) == c {
        assert(u =~= c + seq!['@'] + u.skip(p + 1));
    }
    if !c.contains('@') && exists|domain: Seq<char>| u == #[trigger] (c + seq!['@'] + domain) {
        let domain = choose|domain: Seq<char>| u == #[trigger] (c + seq!['@'] + domain);
        assert forall|i: int| 0 <= i < c.len() implies #[trigger] u[i] != '@' by {
            assert(u[i] == c[i]);
            assert(c.contains(c[i]));
        }
        lemma_position_is(u, '@', c.len() as int);
        assert(u.take(c.len() as int) =~= c);
    }
}

/// A star fits every repository, a path with a star below it fits the path and all below,
/// and any other pattern fits the repository of that name only.
pub proof fn lemma_which_repositories_fit(pattern: &str, repo: &str, path: Seq<char>, r: bool)
    requires
        call_ensures(match_repository, (pattern, repo), r),
    ensures
        pattern@ == "*"@ ==> r,
        pattern@ == path + "/*"@ ==> (r <==> repo@ == path || exists|rest: Seq<char>|
            repo@ == #[trigger] (path + "/"@ + rest)),
        pattern@ == repo@ && !"/*"@.is_suffix_of(pattern@) ==> r,
        pattern@ != "*"@ && !"/*"@.is_suffix_of(pattern@) ==> (r <==> pattern@ == repo@),
{
    reveal_strlit("*");
    reveal_strlit("/*");
    reveal_strlit("/");
    if pattern@ == path + "/*"@ {
        assert(pattern@.len() >= 2);
        assert("*"@.len() == 1);
        assert(pattern@.take(pattern@.len() - 2) =~= path);
        assert(pattern@.skip(pattern@.len() - 2) =~= "/*"@);
        assert("/*"@.is_suffix_of(pattern@));
        let start = path + "/"@;
        if start.is_prefix_of(repo@) {
            let rest = repo@.skip(start.len() as int);
            assert(repo@ =~= path + "/"@ + rest);
        }
        if exists|rest: Seq<char>| repo@ == #[trigger] (path + "/"@ + rest) {
            let rest = choose|rest: Seq<char>| repo@ == #[trigger] (path + "/"@ + rest);
            assert(repo@.take(start.len() as int) =~= start);
        }
    }
}

// ── Scopes ───────────────────────────────────────────────────────────────

/// A scope grants an action on the repositories of its pattern: all where it lists
/// deleting or a star, else pushing where it lists that, else pulling where it lists that,
/// and else nothing.
pub proof fn lemma_what_a_scope_grants(
    scope: &str,
    pattern: Seq<char>,
    actions: Seq<char>,
    r: Option<(String, OciAction)>,
)
    requires
        call_ensures(parse_scope, (scope,), r),
        scope@ == "repository:"@ + pattern + seq![':'] + actions,
        !pattern.contains(':'),
        !actions.contains(':'),
    ensures
        ({
            let words = split_on(actions, ',');
            let all = words.contains("*"@) || words.contains("delete"@);
            &&& r is Some <==> all || words.contains("push"@) || words.contains("pull"@)
            &&& r matches Some((p, action)) ==> {
                &&& p@ == pattern
                &&& action is Delete <==> all
                &&& action is Push <==> !all && words.contains("push"@)
            }
        }),
{
    reveal_strlit("repository:");
    reveal_strlit("repository");
    reveal_strlit(":");
    let s = scope@;
    let kind = "repository"@;
    let rest = pattern + seq![':'] + actions;
    assert("repository:"@ =~= kind + seq![':']);
    assert(s =~= kind + seq![':'] + rest);
    assert forall|i: int| 0 <= i < kind.len() implies #[trigger] s[i] != ':' by {
        assert(s[i] == kind[i]);
    }
    lemma_position_is(s, ':', kind.len() as int);
    assert(s.take(kind.len() as int) =~= kind);
    assert(s.skip(kind.len() as int + 1) =~= rest);
    assert forall|i: int| 0 <= i < pattern.len() implies #[trigger] rest[i] != ':' by {
        assert(rest[i] == pattern[i]);
        assert(pattern.contains(pattern[i]));
    }
    lemma_position_is(rest, ':', pattern.len() as int);
    assert(rest.take(pattern.len() as int) =~= pattern);
    assert(rest.skip(pattern.len() as int + 1) =~= actions);
    lemma_position(actions, ':');
    reveal_with_fuel(split_at_most, 4);
    let parts = split_at_most(s, ':', 4);
    assert(split_at_most(actions, ':', 2) =~= seq![actions]);
    assert(split_at_most(rest, ':', 3) =~= seq![pattern, actions]);
    assert(parts =~= seq![kind, pattern, actions]);
    assert(parts.subrange(1, 2) =~= seq![pattern]);
    assert(joined(seq![pattern], ":"@) == pattern);
    assert(r.deep_view() is Some <==> r is Some);
}

/// What is no scope of a repository grants nothing.
pub proof fn lemma_what_is_no_scope(scope: &str, r: Option<(String, OciAction)>)
    requires
        call_ensures(parse_scope, (scope,), r),
        !"repository:"@.is_prefix_of(scope@),
    ensures
        r is None,
{
    reveal_strlit("repository:");
    reveal_strlit("repository");
    assert(r.deep_view() is Some <==> r is Some);
    let s = scope@;
    lemma_position(s, ':');
    let p = position(s, ':');
    let parts = split_at_most(s, ':', 4);
    if r is Some {
        assert(p < s.len());
        assert(parts[0] == s.take(p));
        assert(s.take(p + 1) =~= "repository:"@);
    }
}

proof fn lemma_scopes_of(texts: Seq<Seq<char>>, rule: (Seq<char>, OciAction))
    ensures
        scopes_of(texts).contains(rule) <==> exists|i: int|
            0 <= i < texts.len() && scope_of(#[trigger] texts[i]) == Some(rule),
    decreases texts.len(),
{
    if texts.len() > 0 {
        let front = texts.drop_last();
        lemma_scopes_of(front, rule);
        let before = scopes_of(front);
        let all = scopes_of(texts);
        if all.contains(rule) {
            let k = choose|k: int| 0 <= k < all.len() && all[k] == rule;
            if k < before.len() {
                assert(before[k] == rule);
                let i = choose|i: int|
                    0 <= i < front.len() && scope_of(#[trigger] front[i]) == Some(rule);
                assert(texts[i] == front[i]);
            } else {
                assert(texts[texts.len() - 1] == texts.last());
            }
        }
        if exists|i: int| 0 <= i < texts.len() && scope_of(#[trigger] texts[i]) == Some(rule) {
            let i = choose|i: int|
                0 <= i < texts.len() && scope_of(#[trigger] texts[i]) == Some(rule);
            if i < front.len() {
                assert(front[i] == texts[i]);
                let k = choose|k: int| 0 <= k < before.len() && before[k] == rule;
                assert(all[k] == rule);
            } else {
                assert(all[before.len() as int] == rule);
            }
        }
    }
}

/// Whether a text is a scope that allows an action on a repository.
pub open spec fn scope_allows(scope: Seq<char>, repository: Seq<char>, action: OciAction) -> bool {
    scope_of(scope) matches Some((pattern, widest)) && fits_repository(pattern, repository)
        && covers(widest, action)
}

proof fn lemma_any_scope(texts: Seq<Seq<char>>, repository: Seq<char>, action: OciAction)
    ensures
        any_rule_allows(scopes_of(texts), repository, action) <==> exists|i: int|
            0 <= i < texts.len() && scope_allows(#[trigger] texts[i], repository, action),
{
    let rules = scopes_of(texts);
    if any_rule_allows(rules, repository, action) {
        let k = choose|k: int|
            0 <= k < rules.len() && rule_allows(#[trigger] rules[k], repository, action);
        lemma_scopes_of(texts, rules[k]);
        assert(rules.contains(rules[k]));
        let i = choose|i: int|
            0 <= i < texts.len() && scope_of(#[trigger] texts[i]) == Some(rules[k]);
        assert(scope_allows(texts[i], repository, action));
    }
    if exists|i: int| 0 <= i < texts.len() && scope_allows(#[trigger] texts[i], repository, action) {
        let i = choose|i: int|
            0 <= i < texts.len() && scope_allows(#[trigger] texts[i], repository, action);
        let rule = scope_of(texts[i])->0;
        lemma_scopes_of(texts, rule);
        let k = choose|k: int| 0 <= k < rules.len() && rules[k] == rule;
        assert(rule_allows(rules[k], repository, action));
    }
}

/// Among some texts each scope is found, and nothing else.
pub proof fn lemma_scopes_are_read(
    scopes: &Vec<String>,
    r: Vec<(String, OciAction)>,
    rule: (Seq<char>, OciAction),
)
    requires
        call_ensures(parse_scopes, (scopes,), r),
    ensures
        r.deep_view().contains(rule) <==> exists|i: int|
            0 <= i < scopes@.len() && scope_of((#[trigger] scopes@[i])@) == Some(rule),
{
    let all = scopes.deep_view();
    lemma_scopes_of(all, rule);
    if r.deep_view().contains(rule) {
        let i = choose|i: int| 0 <= i < all.len() && scope_of(#[trigger] all[i]) == Some(rule);
        assert(all[i] == scopes@[i]@);
        assert(scope_of(scopes@[i]@) == Some(rule));
    }
    assert forall|i: int|
        0 <= i < scopes@.len() && scope_of((#[trigger] scopes@[i])@) == Some(rule) implies
        r.deep_view().contains(rule) by {
        assert(all[i] == scopes@[i]@);
    }
}

// ── Decisions ────────────────────────────────────────────────────────────

/// Whether a mapping is for a user of some groups.
pub open spec fn is_for(m: PermissionMapping, user_groups: Seq<Seq<char>>) -> bool {
    exists|i: int, j: int|
        0 <= i < m.groups@.len() && 0 <= j < user_groups.len() && is_group(
            (#[trigger] m.groups@[i])@,
            #[trigger] user_groups[j],
        )
}

/// Whether a mapping allows an action on a repository.
pub open spec fn mapping_allows(
    m: PermissionMapping,
    repository: Seq<char>,
    action: OciAction,
) -> bool {
    exists|i: int|
        0 <= i < m.scopes@.len() && scope_allows((#[trigger] m.scopes@[i])@, repository, action)
}

/// A user may do something exactly where one mapping is for a group of the user and has a
/// scope that allows it; the scopes of mappings for others do not help.
pub proof fn lemma_what_groups_may_do(
    mappings: &Vec<PermissionMapping>,
    resolver: PermissionResolver,
    user_groups: &Vec<String>,
    repository: &str,
    action: OciAction,
    r: Result<(), LayerhouseError>,
)
    requires
        call_ensures(PermissionResolver::new, (mappings,), resolver),
        call_ensures(
            PermissionResolver::check,
            (&resolver, user_groups, repository, action),
            r,
        ),
    ensures
        r is Ok <==> exists|i: int|
            0 <= i < mappings@.len() && is_for(#[trigger] mappings@[i], user_groups.deep_view())
                && mapping_allows(mappings@[i], repository@, action),
        r matches Err(e) ==> (e matches LayerhouseError::Denied(t) && t@
            == "access denied for repository "@ + repository@),
{
    let all = mappings.deep_view();
    let sets = rule_sets(all);
    let users = user_groups.deep_view();
    assert(resolver@ == sets);
    assert forall|i: int| 0 <= i < mappings@.len() implies (any_group(
        (#[trigger] sets[i]).groups,
        users,
    ) <==> is_for(mappings@[i], users)) && (any_rule_allows(sets[i].rules, repository@, action)
        <==> mapping_allows(mappings@[i], repository@, action)) by {
        let m = mappings@[i];
        assert(all[i] == m@);
        assert(sets[i].groups == m.groups.deep_view());
        assert(sets[i].rules == scopes_of(m.scopes.deep_view()));
        let groups = m.groups.deep_view();
        let texts = m.scopes.deep_view();
        if any_group(groups, users) {
            let (k, j) = choose|k: int, j: int|
                0 <= k < groups.len() && 0 <= j < users.len() && is_group(
                    #[trigger] groups[k],
                    #[trigger] users[j],
                );
            assert(groups[k] == m.groups@[k]@);
            assert(is_group(m.groups@[k]@, users[j]));
        }
        if is_for(m, users) {
            let (k, j) = choose|k: int, j: int|
                0 <= k < m.groups@.len() && 0 <= j < users.len() && is_group(
                    (#[trigger] m.groups@[k])@,
                    #[trigger] users[j],
                );
            assert(groups[k] == m.groups@[k]@);
            assert(is_group(groups[k], users[j]));
        }
        lemma_any_scope(texts, repository@, action);
        if any_rule_allows(sets[i].rules, repository@, action) {
            let k = choose|k: int|
                0 <= k < texts.len() && scope_allows(#[trigger] texts[k], repository@, action);
            assert(texts[k] == m.scopes@[k]@);
            assert(scope_allows(m.scopes@[k]@, repository@, action));
        }
        if mapping_allows(m, repository@, action) {
            let k = choose|k: int|
                0 <= k < m.scopes@.len() && scope_allows(
                    (#[trigger] m.scopes@[k])@,
                    repository@,
                    action,
                );
            assert(texts[k] == m.scopes@[k]@);
            assert(scope_allows(texts[k], repository@, action));
        }
    }
    if groups_allow(sets, users, repository@, action) {
        let i = choose|i: int|
            0 <= i < sets.len() && any_group((#[trigger] sets[i]).groups, users)
                && any_rule_allows(sets[i].rules, repository@, action);
        assert(is_for(mappings@[i], users));
    }
    assert forall|i: int|
        0 <= i < mappings@.len() && is_for(#[trigger] mappings@[i], users) && mapping_allows(
            mappings@[i],
            repository@,
            action,
        ) implies groups_allow(sets, users, repository@, action) by {
        assert(any_group(sets[i].groups, users));
    }
}

/// A token may do something exactly where one of its scopes allows it.
pub proof fn lemma_what_scopes_allow(
    resolver: &PermissionResolver,
    scopes: &Vec<String>,
    repository: &str,
    action: OciAction,
    r: Result<(), LayerhouseError>,
)
    requires
        call_ensures(
            PermissionResolver::check_scopes,
            (resolver, scopes, repository, action),
            r,
        ),
    ensures
        r is Ok <==> exists|i: int|
            0 <= i < scopes@.len() && scope_allows((#[trigger] scopes@[i])@, repository@, action),
        r matches Err(e) ==> e is Denied,
{
    let texts = scopes.deep_view();
    lemma_any_scope(texts, repository@, action);
    if any_rule_allows(scopes_of(texts), repository@, action) {
        let k = choose|k: int|
            0 <= k < texts.len() && scope_allows(#[trigger] texts[k], repository@, action);
        assert(texts[k] == scopes@[k]@);
        assert(scope_allows(scopes@[k]@, repository@, action));
    }
    assert forall|k: int|
        0 <= k < scopes@.len() && scope_allows((#[trigger] scopes@[k])@, repository@, action) implies
        any_rule_allows(scopes_of(texts), repository@, action) by {
        assert(texts[k] == scopes@[k]@);
    }
}

/// Pulling is the least that can be granted, then creating, updating and deleting.
pub proof fn lemma_order_of_actions(pull: u8, create: u8, update: u8, delete: u8)
    requires
        call_ensures(action_rank, (RepositoryAction::Pull,), pull),
        call_ensures(action_rank, (RepositoryAction::Create,), create),
        call_ensures(action_rank, (RepositoryAction::Update,), update),
        call_ensures(action_rank, (RepositoryAction::Delete,), delete),
    ensures
        pull < create < update < delete,
{
}

/// The actions of a scope stand one behind the other, with commas between them.
pub proof fn lemma_actions_of_a_scope(
    actions: &Vec<RepositoryAction>,
    more: &Vec<RepositoryAction>,
    action: RepositoryAction,
    before: String,
    after: String,
)
    requires
        more@ == actions@.push(action),
        call_ensures(scope_tokens, (actions,), before),
        call_ensures(scope_tokens, (more,), after),
    ensures
        actions@.len() == 0 ==> before@.len() == 0 && after@ == action_text(action),
        actions@.len() > 0 ==> after@ == before@ + ","@ + action_text(action),
{
    let a = actions@.map_values(|a: RepositoryAction| action_text(a));
    let b = more@.map_values(|a: RepositoryAction| action_text(a));
    assert(b =~= a.push(action_text(action)));
    assert(b.drop_last() =~= a);
}

} // verus!
