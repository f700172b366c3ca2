//! When the tags of proxy caches were last held against their upstreams,
//! by cache, repository and tag.
use crate::store::metadata::types::{ProxyCacheTagValidation, ProxyCacheTagValidationView};
use crate::string_map::{lemma_ascending_position, lists_keys, StringMap};
use vstd::prelude::*;

verus! {

/// Validations by cache, repository and tag.
pub type ProxyCacheTagValidations = StringMap<StringMap<StringMap<ProxyCacheTagValidation>>>;

pub type TagsModel = Map<Seq<char>, ProxyCacheTagValidationView>;

pub type ReposModel = Map<Seq<char>, TagsModel>;

pub type ValidationsModel = Map<Seq<char>, ReposModel>;

/// The validation of a tag, where there is one.
pub open spec fn validation(
    m: ValidationsModel,
    cache: Seq<char>,
    repository: Seq<char>,
    tag: Seq<char>,
) -> Option<ProxyCacheTagValidationView> {
    if m.dom().contains(cache) && m[cache].dom().contains(repository)
        && m[cache][repository].dom().contains(tag) {
        Some(m[cache][repository][tag])
    } else {
        None
    }
}

/// The value under a key, or an empty map.
pub open spec fn or_empty<T>(m: Map<Seq<char>, Map<Seq<char>, T>>, key: Seq<char>) -> Map<
    Seq<char>,
    T,
> {
    if m.dom().contains(key) {
        m[key]
    } else {
        Map::empty()
    }
}

/// The validations with one more recorded.
pub open spec fn with_validation(
    m: ValidationsModel,
    v: ProxyCacheTagValidationView,
) -> ValidationsModel {
    let repos = or_empty(m, v.cache_id);
    let tags = or_empty(repos, v.repository);
    m.insert(v.cache_id, repos.insert(v.repository, tags.insert(v.tag, v)))
}

/// The repositories of a cache without one of them.
pub open spec fn repos_without_repository(repos: ReposModel, repository: Seq<char>) -> ReposModel {
    repos.remove(repository)
}

/// The repositories of a cache without one tag of one of them; a repository
/// that is left without tags goes too.
pub open spec fn repos_without_tag(
    repos: ReposModel,
    repository: Seq<char>,
    tag: Seq<char>,
) -> ReposModel {
    if !repos.dom().contains(repository) {
        repos
    } else if repos[repository].remove(tag) == TagsModel::empty() {
        repos.remove(repository)
    } else {
        repos.insert(repository, repos[repository].remove(tag))
    }
}

/// The caches, each after `f`, without those that are left empty.
pub open spec fn retained(m: ValidationsModel, f: spec_fn(ReposModel) -> ReposModel) -> ValidationsModel {
    Map::new(
        |c: Seq<char>| m.dom().contains(c) && f(m[c]) != ReposModel::empty(),
        |c: Seq<char>| f(m[c]),
    )
}

/// The validations without those of a repository.
pub open spec fn without_repository(m: ValidationsModel, repository: Seq<char>) -> ValidationsModel {
    retained(m, |repos: ReposModel| repos_without_repository(repos, repository))
}

/// The validations without those of a tag of a repository.
pub open spec fn without_tag(
    m: ValidationsModel,
    repository: Seq<char>,
    tag: Seq<char>,
) -> ValidationsModel {
    retained(m, |repos: ReposModel| repos_without_tag(repos, repository, tag))
}

/// No cache is without repositories, and no repository without tags.
pub open spec fn tidy(m: ValidationsModel) -> bool {
    &&& forall|c: Seq<char>| #[trigger] m.dom().contains(c) ==> m[c] != ReposModel::empty()
    &&& forall|c: Seq<char>, r: Seq<char>|
        m.dom().contains(c) && #[trigger] m[c].dom().contains(r) ==> m[c][r] != TagsModel::empty()
}

// ── Laws ─────────────────────────────────────────────────────────────────

/// A recorded validation is found, and no other changes.
pub proof fn lemma_recorded_validation_is_found(
    m: ValidationsModel,
    v: ProxyCacheTagValidationView,
    cache: Seq<char>,
    repository: Seq<char>,
    tag: Seq<char>,
)
    ensures
        validation(with_validation(m, v), v.cache_id, v.repository, v.tag) == Some(v),
        (cache, repository, tag) != (v.cache_id, v.repository, v.tag) ==> validation(
            with_validation(m, v),
            cache,
            repository,
            tag,
        ) == validation(m, cache, repository, tag),
        tidy(m) ==> tidy(with_validation(m, v)),
{
    let n = with_validation(m, v);
    if tidy(m) {
        assert forall|c: Seq<char>| #[trigger] n.dom().contains(c) implies n[c]
            != ReposModel::empty() by {
            if c == v.cache_id {
                assert(n[c].dom().contains(v.repository));
            }
        }
        assert forall|c: Seq<char>, r: Seq<char>|
            n.dom().contains(c) && #[trigger] n[c].dom().contains(r) implies n[c][r]
            != TagsModel::empty() by {
            if c == v.cache_id && r == v.repository {
                assert(n[c][r].dom().contains(v.tag));
            } else if c == v.cache_id {
                assert(m[c].dom().contains(r));
            } else {
                assert(m[c].dom().contains(r));
            }
        }
    }
}

/// Clearing a tag clears it in every cache, and nothing else.
pub proof fn lemma_cleared_tag_is_gone(
    m: ValidationsModel,
    repository: Seq<char>,
    tag: Seq<char>,
    cache: Seq<char>,
    r: Seq<char>,
    t: Seq<char>,
)
    ensures
        validation(without_tag(m, repository, tag), cache, repository, tag) is None,
        (r, t) != (repository, tag) ==> validation(without_tag(m, repository, tag), cache, r, t)
            == validation(m, cache, r, t),
        tidy(m) ==> tidy(without_tag(m, repository, tag)),
{
    let n = without_tag(m, repository, tag);
    if m.dom().contains(cache) && (r, t) != (repository, tag) && m[cache].dom().contains(r)
        && m[cache][r].dom().contains(t) {
        let repos = repos_without_tag(m[cache], repository, tag);
        if r == repository {
            assert(m[cache][r].remove(tag).dom().contains(t));
        }
        assert(repos.dom().contains(r));
    }
    if tidy(m) {
        assert forall|c: Seq<char>, x: Seq<char>|
            n.dom().contains(c) && #[trigger] n[c].dom().contains(x) implies n[c][x]
            != TagsModel::empty() by {
            assert(m[c].dom().contains(x));
        }
    }
}

/// Clearing a repository clears all its tags in every cache, and nothing else.
pub proof fn lemma_cleared_repository_is_gone(
    m: ValidationsModel,
    repository: Seq<char>,
    cache: Seq<char>,
    r: Seq<char>,
    t: Seq<char>,
)
    ensures
        validation(without_repository(m, repository), cache, repository, t) is None,
        r != repository ==> validation(without_repository(m, repository), cache, r, t)
            == validation(m, cache, r, t),
        tidy(m) ==> tidy(without_repository(m, repository)),
{
    let n = without_repository(m, repository);
    if m.dom().contains(cache) && r != repository && m[cache].dom().contains(r) {
        assert(m[cache].remove(repository).dom().contains(r));
    }
    if tidy(m) {
        assert forall|c: Seq<char>, x: Seq<char>|
            n.dom().contains(c) && #[trigger] n[c].dom().contains(x) implies n[c][x]
            != TagsModel::empty() by {
            assert(m[c].dom().contains(x));
        }
    }
}

/// Clearing a cache clears all its validations, and no other.
pub proof fn lemma_cleared_cache_is_gone(
    m: ValidationsModel,
    cache: Seq<char>,
    c: Seq<char>,
    r: Seq<char>,
    t: Seq<char>,
)
    ensures
        validation(m.remove(cache), cache, r, t) is None,
        c != cache ==> validation(m.remove(cache), c, r, t) == validation(m, c, r, t),
        tidy(m) ==> tidy(m.remove(cache)),
{
}

// ── Operations ───────────────────────────────────────────────────────────

/// The validation of a tag, where there is one.
pub fn get_proxy_cache_tag_validation(
    validations: &ProxyCacheTagValidations,
    cache_id: &str,
    repository: &str,
    tag: &str,
) -> (r: Option<ProxyCacheTagValidation>)
    ensures
        r.deep_view() == validation(validations@, cache_id@, repository@, tag@),
{
    let repos = match validations.get(cache_id) {
        Some(repos) => repos,
        None => return None,
    };
    let tags = match repos.get(repository) {
        Some(tags) => tags,
        None => return None,
    };
    match tags.get(tag) {
        Some(v) => Some(v.clone()),
        None => None,
    }
}

/// Records a validation.
pub fn put_proxy_cache_tag_validation(
    validations: &mut ProxyCacheTagValidations,
    v: ProxyCacheTagValidation,
)
    ensures
        final(validations)@ == with_validation(old(validations)@, v@),
{
    let cache_id = v.cache_id.clone();
    let repository = v.repository.clone();
    let tag = v.tag.clone();
    let mut repos = match validations.remove(cache_id.as_str()) {
        Some(repos) => repos,
        None => StringMap::new(),
    };
    let mut tags = match repos.remove(repository.as_str()) {
        Some(tags) => tags,
        None => StringMap::new(),
    };
    let _ = tags.insert(tag, v);
    let _ = repos.insert(repository, tags);
    let _ = validations.insert(cache_id, repos);
    proof {
        let m = old(validations)@;
        let rs = or_empty(m, v@.cache_id);
        assert(repos@ =~= rs.insert(v@.repository, tags@));
        assert(validations@ =~= with_validation(m, v@));
    }
}

/// Forgets the validations of a cache.
pub fn clear_proxy_cache_tag_validations_for_cache(
    validations: &mut ProxyCacheTagValidations,
    cache_id: &str,
)
    ensures
        final(validations)@ == old(validations)@.remove(cache_id@),
{
    let _ = validations.remove(cache_id);
}

/// Forgets the validations of a repository.
pub fn clear_proxy_cache_tag_validations_for_repository(
    validations: &mut ProxyCacheTagValidations,
    repository: &str,
)
    ensures
        final(validations)@ == without_repository(old(validations)@, repository@),
{
    let keys = validations.keys();
    let ghost before = validations@;
    let ghost ks = keys.deep_view();
    let ghost f = |repos: ReposModel| repos_without_repository(repos, repository@);
    let mut i: usize = 0;
    proof {
        lemma_retain_start(before, f, ks);
    }
    while i < keys.len()
        invariant
            ks == keys.deep_view(),
            lists_keys(ks, before.dom()),
            i <= keys@.len(),
            f == (|repos: ReposModel| repos_without_repository(repos, repository@)),
            partly_retained(before, f, ks, i as int, validations@),
        decreases keys@.len() - i,
    {
        let key = keys[i].as_str();
        let ghost start = validations@;
        assert(key@ == ks[i as int]);
        assert(ks.contains(key@));
        let mut emptied = false;
        if let Some(repos) = validations.get_mut(key) {
            let _ = repos.remove(repository);
            emptied = repos.is_empty();
        }
        assert(validations@ == start.insert(key@, f(before[key@])));
        if emptied {
            let _ = validations.remove(key);
            assert(validations@ =~= start.remove(key@));
        }
        proof {
            lemma_retain_step(before, f, ks, i as int, start, validations@);
        }
        i = i + 1;
    }
    proof {
        lemma_retain_done(before, f, ks, validations@);
    }
}

/// Forgets the validations of a tag of a repository.
pub fn clear_proxy_cache_tag_validations_for_tag(
    validations: &mut ProxyCacheTagValidations,
    repository: &str,
    tag: &str,
)
    ensures
        final(validations)@ == without_tag(old(validations)@, repository@, tag@),
{
    let keys = validations.keys();
    let ghost before = validations@;
    let ghost ks = keys.deep_view();
    let ghost f = |repos: ReposModel| repos_without_tag(repos, repository@, tag@);
    let mut i: usize = 0;
    proof {
        lemma_retain_start(before, f, ks);
    }
    while i < keys.len()
        invariant
            ks == keys.deep_view(),
            lists_keys(ks, before.dom()),
            i <= keys@.len(),
            f == (|repos: ReposModel| repos_without_tag(repos, repository@, tag@)),
            partly_retained(before, f, ks, i as int, validations@),
        decreases keys@.len() - i,
    {
        let key = keys[i].as_str();
        let ghost start = validations@;
        assert(key@ == ks[i as int]);
        assert(ks.contains(key@));
        let mut emptied = false;
        if let Some(repos) = validations.get_mut(key) {
            clear_tag_of_repository(repos, repository, tag);
            emptied = repos.is_empty();
        }
        assert(validations@ == start.insert(key@, f(before[key@])));
        if emptied {
            let _ = validations.remove(key);
            assert(validations@ =~= start.remove(key@));
        }
        proof {
            lemma_retain_step(before, f, ks, i as int, start, validations@);
        }
        i = i + 1;
    }
    proof {
        lemma_retain_done(before, f, ks, validations@);
    }
}

/// Forgets a tag of a repository of one cache.
fn clear_tag_of_repository(
    repos: &mut StringMap<StringMap<ProxyCacheTagValidation>>,
    repository: &str,
    tag: &str,
)
    ensures
        final(repos)@ == repos_without_tag(old(repos)@, repository@, tag@),
{
    let ghost before = repos@;
    let mut emptied = false;
    if let Some(tags) = repos.get_mut(repository) {
        let _ = tags.remove(tag);
        emptied = tags.is_empty();
    }
    if emptied {
        let _ = repos.remove(repository);
        assert(repos@ =~= before.remove(repository@));
    }
}

/// After the first `n` keys, those are as `retained` has them and the others
/// as before.
pub open spec fn partly_retained(
    before: ValidationsModel,
    f: spec_fn(ReposModel) -> ReposModel,
    keys: Seq<Seq<char>>,
    n: int,
    now: ValidationsModel,
) -> bool {
    &&& forall|k: Seq<char>| #[trigger] now.dom().contains(k) ==> before.dom().contains(k)
    &&& forall|j: int|
        0 <= j < keys.len() ==> if j < n {
            &&& now.dom().contains(#[trigger] keys[j]) <==> f(before[keys[j]])
                != ReposModel::empty()
            &&& now.dom().contains(keys[j]) ==> now[keys[j]] == f(before[keys[j]])
        } else {
            now.dom().contains(keys[j]) && now[keys[j]] == before[keys[j]]
        }
}

proof fn lemma_retain_start(
    before: ValidationsModel,
    f: spec_fn(ReposModel) -> ReposModel,
    keys: Seq<Seq<char>>,
)
    requires
        lists_keys(keys, before.dom()),
    ensures
        partly_retained(before, f, keys, 0, before),
{
    assert forall|j: int| 0 <= j < keys.len() implies before.dom().contains(#[trigger] keys[j]) by {
        assert(keys.contains(keys[j]));
    }
}

proof fn lemma_retain_step(
    before: ValidationsModel,
    f: spec_fn(ReposModel) -> ReposModel,
    keys: Seq<Seq<char>>,
    n: int,
    start: ValidationsModel,
    now: ValidationsModel,
)
    requires
        lists_keys(keys, before.dom()),
        0 <= n < keys.len(),
        partly_retained(before, f, keys, n, start),
        now == if f(before[keys[n]]) != ReposModel::empty() {
            start.insert(keys[n], f(before[keys[n]]))
        } else {
            start.remove(keys[n])
        },
    ensures
        partly_retained(before, f, keys, n + 1, now),
{
    assert(keys.contains(keys[n]));
    assert forall|j: int| 0 <= j < keys.len() && j != n implies keys[j] != keys[n] by {
        lemma_ascending_position(keys, j);
        lemma_ascending_position(keys, n);
    }
}

proof fn lemma_retain_done(
    before: ValidationsModel,
    f: spec_fn(ReposModel) -> ReposModel,
    keys: Seq<Seq<char>>,
    now: ValidationsModel,
)
    requires
        lists_keys(keys, before.dom()),
        partly_retained(before, f, keys, keys.len() as int, now),
    ensures
        now == retained(before, f),
{
    assert forall|k: Seq<char>| #[trigger] before.dom().contains(k) implies {
        &&& now.dom().contains(k) <==> f(before[k]) != ReposModel::empty()
        &&& now.dom().contains(k) ==> now[k] == f(before[k])
    } by {
        assert(keys.contains(k));
        let j = choose|j: int| 0 <= j < keys.len() && keys[j] == k;
        assert(keys[j] == k);
    }
    assert(now =~= retained(before, f));
}

} // verus!
