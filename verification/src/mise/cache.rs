//! The results of background discovery, kept for a while for each target.

use vstd::prelude::*;
use vstd::string::*;
use crate::mise;
use crate::mise::{DirProbe, DiscoveryTarget, MiseTask};
use crate::text::{copy_optional_text, copy_texts, same_text, same_texts};

verus! {

/// How long a result is good, in nanoseconds: 45 seconds.
pub const DISCOVERY_TTL_NANOS: u64 = 45_000_000_000;

/// Where a result belongs.
#[derive(Debug, Clone, PartialEq, Eq, Hash)]
pub enum DiscoveryCacheKey {
    Local { cwd: String },
    Remote { host: String, cwd: String, ssh_argv: Vec<String> },
}

impl DeepView for DiscoveryCacheKey {
    type V = mise::TargetKey;

    open spec fn deep_view(&self) -> mise::TargetKey {
        match self {
            DiscoveryCacheKey::Local { cwd } => mise::TargetKey::Local { cwd: cwd@ },
            DiscoveryCacheKey::Remote { host, cwd, ssh_argv } => mise::TargetKey::Remote {
                host: host@,
                cwd: cwd@,
                ssh_argv: ssh_argv.deep_view(),
            },
        }
    }
}

impl DiscoveryCacheKey {
    /// The key of a target.
    pub fn of_target(target: &DiscoveryTarget) -> (r: DiscoveryCacheKey)
        ensures
            r.deep_view() == target.deep_view().key(),
    {
        match target {
            DiscoveryTarget::Local { cwd, .. } => DiscoveryCacheKey::Local { cwd: cwd.clone() },
            DiscoveryTarget::Remote { host, cwd, ssh_argv } => DiscoveryCacheKey::Remote {
                host: host.clone(),
                cwd: cwd.clone(),
                ssh_argv: copy_texts(ssh_argv),
            },
        }
    }

    /// Whether both keys are the same.
    pub fn same_key(&self, other: &DiscoveryCacheKey) -> (r: bool)
        ensures
            r == (self.deep_view() == other.deep_view()),
    {
        match (self, other) {
            (DiscoveryCacheKey::Local { cwd: a }, DiscoveryCacheKey::Local { cwd: b }) => same_text(
                a.as_str(),
                b.as_str(),
            ),
            (
                DiscoveryCacheKey::Remote { host: h1, cwd: c1, ssh_argv: s1 },
                DiscoveryCacheKey::Remote { host: h2, cwd: c2, ssh_argv: s2 },
            ) => same_text(h1.as_str(), h2.as_str()) && same_text(c1.as_str(), c2.as_str())
                && same_texts(s1, s2),
            _ => false,
        }
    }
}

/// What is known of a target: a discovery is under way, or it ended at some time with a
/// result.
#[derive(Debug)]
pub enum CacheEntry<T> {
    Pending,
    Ready { result: T, completed_at: u64 },
}

/// Whether a result that was completed at one time is still good at another. Times are
/// nanoseconds of a clock that does not go back.
pub open spec fn is_fresh(completed_at: u64, now: u64) -> bool {
    now - completed_at <= DISCOVERY_TTL_NANOS
}

fn still_fresh(completed_at: u64, now: u64) -> (r: bool)
    ensures
        r == is_fresh(completed_at, now),
{
    now <= completed_at || now - completed_at <= DISCOVERY_TTL_NANOS
}

/// The entry of the first pair with this key.
pub open spec fn lookup<T>(
    entries: Seq<(DiscoveryCacheKey, CacheEntry<T>)>,
    key: mise::TargetKey,
) -> Option<CacheEntry<T>>
    decreases entries.len(),
{
    if entries.len() == 0 {
        None
    } else if entries[0].0.deep_view() == key {
        Some(entries[0].1)
    } else {
        lookup(entries.skip(1), key)
    }
}

/// Results of discovery by target. No target has two entries.
#[derive(Debug)]
pub struct DiscoveryCache<T> {
    pub entries: Vec<(DiscoveryCacheKey, CacheEntry<T>)>,
}

proof fn lemma_lookup<T>(entries: Seq<(DiscoveryCacheKey, CacheEntry<T>)>, key: mise::TargetKey)
    ensures
        lookup(entries, key) is Some <==> exists|i: int|
            0 <= i < entries.len() && (#[trigger] entries[i]).0.deep_view() == key,
    decreases entries.len(),
{
    if entries.len() > 0 {
        let rest = entries.skip(1);
        lemma_lookup(rest, key);
        if lookup(rest, key) is Some {
            let i = choose|i: int| 0 <= i < rest.len() && (#[trigger] rest[i]).0.deep_view() == key;
            assert(entries[i + 1].0.deep_view() == key);
        }
        if exists|i: int| 0 <= i < entries.len() && (#[trigger] entries[i]).0.deep_view() == key {
            let i = choose|i: int|
                0 <= i < entries.len() && (#[trigger] entries[i]).0.deep_view() == key;
            if i > 0 {
                assert(rest[i - 1].0.deep_view() == key);
            }
        }
    }
}

proof fn lemma_lookup_at<T>(
    entries: Seq<(DiscoveryCacheKey, CacheEntry<T>)>,
    i: int,
)
    requires
        unique_keys(entries),
        0 <= i < entries.len(),
    ensures
        lookup(entries, entries[i].0.deep_view()) == Some(entries[i].1),
    decreases entries.len(),
{
    if i > 0 {
        let rest = entries.skip(1);
        assert forall|a: int, b: int| 0 <= a < b < rest.len() implies (
        #[trigger] rest[a]).0.deep_view() != (#[trigger] rest[b]).0.deep_view() by {
            assert(entries[a + 1].0.deep_view() != entries[b + 1].0.deep_view());
        }
        lemma_lookup_at(rest, i - 1);
        assert(entries[0].0.deep_view() != entries[i].0.deep_view());
    }
}

/// Whether no key occurs twice.
pub open spec fn unique_keys<T>(entries: Seq<(DiscoveryCacheKey, CacheEntry<T>)>) -> bool {
    forall|i: int, j: int|
        0 <= i < j < entries.len() ==> (#[trigger] entries[i]).0.deep_view() != (
        #[trigger] entries[j]).0.deep_view()
}

impl<T> View for DiscoveryCache<T> {
    type V = Map<mise::TargetKey, CacheEntry<T>>;

    open spec fn view(&self) -> Map<mise::TargetKey, CacheEntry<T>> {
        Map::new(
            |key: mise::TargetKey| lookup(self.entries@, key) is Some,
            |key: mise::TargetKey| lookup(self.entries@, key)->0,
        )
    }
}

impl<T> DiscoveryCache<T> {
    /// No target has two entries.
    pub open spec fn wf(self) -> bool {
        unique_keys(self.entries@)
    }

    /// A cache without entries.
    pub fn new() -> (r: DiscoveryCache<T>)
        ensures
            r.wf(),
            r@ == Map::<mise::TargetKey, CacheEntry<T>>::empty(),
    {
        let r = DiscoveryCache { entries: Vec::new() };
        assert(r@ =~= Map::<mise::TargetKey, CacheEntry<T>>::empty());
        r
    }

    /// The position of the entry of a key.
    fn position(&self, key: &DiscoveryCacheKey) -> (r: Option<usize>)
        requires
            self.wf(),
        ensures
            r is Some <==> self@.contains_key(key.deep_view()),
            r matches Some(i) ==> i < self.entries@.len() && self.entries@[i as int].0.deep_view()
                == key.deep_view() && self@[key.deep_view()] == self.entries@[i as int].1,
    {
        proof {
            lemma_lookup(self.entries@, key.deep_view());
        }
        let mut i: usize = 0;
        while i < self.entries.len()
            invariant
                self.wf(),
                i <= self.entries@.len(),
                forall|k: int|
                    0 <= k < i ==> (#[trigger] self.entries@[k]).0.deep_view() != key.deep_view(),
            decreases self.entries@.len() - i,
        {
            if self.entries[i].0.same_key(key) {
                proof {
                    lemma_lookup_at(self.entries@, i as int);
                }
                return Some(i);
            }
            i += 1;
        }
        None
    }

    /// Replace the entry of a key, or add it.
    pub fn insert(&mut self, key: DiscoveryCacheKey, entry: CacheEntry<T>)
        requires
            old(self).wf(),
        ensures
            final(self).wf(),
            final(self)@ == old(self)@.insert(key.deep_view(), entry),
    {
        let ghost before = self.entries@;
        let ghost k = key.deep_view();
        match self.position(&key) {
            Some(i) => {
                self.entries.set(i, (key, entry));
                proof {
                    lemma_lookup_at(self.entries@, i as int);
                    assert forall|other: mise::TargetKey| other != k implies lookup(
                        self.entries@,
                        other,
                    ) == lookup(before, other) by {
                        lemma_lookup_frame(before, self.entries@, other);
                    }
                }
            },
            None => {
                proof {
                    lemma_lookup(before, k);
                }
                self.entries.push((key, entry));
                proof {
                    assert forall|i: int, j: int| 0 <= i < j < self.entries@.len() implies (
                    #[trigger] self.entries@[i]).0.deep_view() != (
                    #[trigger] self.entries@[j]).0.deep_view() by {
                        assert(self.entries@[i] == before[i]);
                        if j < before.len() {
                            assert(self.entries@[j] == before[j]);
                        }
                    }
                    lemma_lookup_at(self.entries@, before.len() as int);
                    assert forall|other: mise::TargetKey| other != k implies lookup(
                        self.entries@,
                        other,
                    ) == lookup(before, other) by {
                        lemma_lookup_push(before, self.entries@.last(), other);
                        assert(self.entries@ =~= before.push(self.entries@.last()));
                    }
                }
            },
        }
        assert(self@ =~= old(self)@.insert(k, entry));
    }

    /// Remove the entry of a key.
    pub fn remove(&mut self, key: &DiscoveryCacheKey)
        requires
            old(self).wf(),
        ensures
            final(self).wf(),
            final(self)@ == old(self)@.remove(key.deep_view()),
    {
        let ghost before = self.entries@;
        let ghost k = key.deep_view();
        if let Some(i) = self.position(key) {
            self.entries.remove(i);
            proof {
                let after = self.entries@;
                assert forall|a: int, b: int| 0 <= a < b < after.len() implies (
                #[trigger] after[a]).0.deep_view() != (#[trigger] after[b]).0.deep_view() by {
                    let x = if a < i { a } else { a + 1 };
                    let y = if b < i { b } else { b + 1 };
                    assert(after[a] == before[x] && after[b] == before[y]);
                }
                lemma_lookup(after, k);
                if lookup(after, k) is Some {
                    let a = choose|a: int|
                        0 <= a < after.len() && (#[trigger] after[a]).0.deep_view() == k;
                    let x = if a < i { a } else { a + 1 };
                    assert(after[a] == before[x]);
                    assert(before[i as int].0.deep_view() == k);
                }
                assert forall|other: mise::TargetKey| other != k implies lookup(after, other)
                    == lookup(before, other) by {
                    lemma_lookup_remove(before, i as int, other);
                }
            }
        } else {
            proof {
                lemma_lookup(before, k);
            }
        }
        assert(self@ =~= old(self)@.remove(k));
    }
}

proof fn lemma_lookup_frame<T>(
    a: Seq<(DiscoveryCacheKey, CacheEntry<T>)>,
    b: Seq<(DiscoveryCacheKey, CacheEntry<T>)>,
    key: mise::TargetKey,
)
    requires
        a.len() == b.len(),
        forall|i: int|
            0 <= i < a.len() ==> (#[trigger] a[i]).0.deep_view() == (#[trigger] b[i]).0.deep_view()
                && (a[i].0.deep_view() == key ==> a[i].1 == b[i].1),
    ensures
        lookup(a, key) == lookup(b, key),
    decreases a.len(),
{
    if a.len() > 0 {
        assert(a[0].0.deep_view() == b[0].0.deep_view());
        assert forall|i: int| 0 <= i < a.skip(1).len() implies (
        #[trigger] a.skip(1)[i]).0.deep_view() == (#[trigger] b.skip(1)[i]).0.deep_view() && (a.skip(
            1,
        )[i].0.deep_view() == key ==> a.skip(1)[i].1 == b.skip(1)[i].1) by {
            assert(a[i + 1].0.deep_view() == b[i + 1].0.deep_view());
        }
        lemma_lookup_frame(a.skip(1), b.skip(1), key);
    }
}

proof fn lemma_lookup_push<T>(
    a: Seq<(DiscoveryCacheKey, CacheEntry<T>)>,
    pair: (DiscoveryCacheKey, CacheEntry<T>),
    key: mise::TargetKey,
)
    requires
        pair.0.deep_view() != key,
    ensures
        lookup(a.push(pair), key) == lookup(a, key),
    decreases a.len(),
{
    if a.len() == 0 {
        assert(a.push(pair).skip(1) =~= a);
    } else {
        assert(a.push(pair).skip(1) =~= a.skip(1).push(pair));
        lemma_lookup_push(a.skip(1), pair, key);
    }
}

proof fn lemma_lookup_remove<T>(
    a: Seq<(DiscoveryCacheKey, CacheEntry<T>)>,
    at: int,
    key: mise::TargetKey,
)
    requires
        0 <= at < a.len(),
        a[at].0.deep_view() != key,
    ensures
        lookup(a.remove(at), key) == lookup(a, key),
    decreases a.len(),
{
    if at == 0 {
        assert(a.remove(0) =~= a.skip(1));
    } else {
        assert(a.remove(at).skip(1) =~= a.skip(1).remove(at - 1));
        lemma_lookup_remove(a.skip(1), at - 1, key);
    }
}

/// Another list of the same tasks.
pub fn copy_tasks(tasks: &Vec<MiseTask>) -> (r: Vec<MiseTask>)
    ensures
        r@ == tasks@,
{
    let mut out: Vec<MiseTask> = Vec::new();
    let mut i: usize = 0;
    while i < tasks.len()
        invariant
            i <= tasks@.len(),
            out@ == tasks@.take(i as int),
        decreases tasks@.len() - i,
    {
        out.push(tasks[i].copy_task());
        i += 1;
    }
    out
}

/// What the cache says of the tasks of a target.
#[derive(Debug, Clone, PartialEq, Eq)]
pub enum CachedTaskDiscovery {
    Missing,
    Pending,
    Ready(Vec<MiseTask>),
}

/// Whether a discovery has to be started.
#[derive(Debug, Clone, Copy, PartialEq, Eq, Structural)]
pub enum TaskDiscoveryRequest {
    UseCached,
    Pending,
    Start,
}

/// The entries of a cache by target.
pub type Entries<T> = Map<mise::TargetKey, CacheEntry<T>>;

/// Whether the result of a target has gone bad.
pub open spec fn has_expired<T>(entries: Entries<T>, key: mise::TargetKey, now: u64) -> bool {
    &&& entries.contains_key(key)
    &&& entries[key] matches CacheEntry::Ready { completed_at, .. }
    &&& !is_fresh(completed_at, now)
}

/// Whether the target has a good result.
pub open spec fn has_fresh<T>(entries: Entries<T>, key: mise::TargetKey, now: u64) -> bool {
    &&& entries.contains_key(key)
    &&& entries[key] matches CacheEntry::Ready { completed_at, .. }
    &&& is_fresh(completed_at, now)
}

/// Whether a discovery for the target is under way.
pub open spec fn is_pending<T>(entries: Entries<T>, key: mise::TargetKey) -> bool {
    entries.contains_key(key) && entries[key] is Pending
}

/// The entries without a result of the target that has gone bad.
pub open spec fn without_expired<T>(
    entries: Entries<T>,
    key: mise::TargetKey,
    now: u64,
) -> Entries<T> {
    if has_expired(entries, key, now) {
        entries.remove(key)
    } else {
        entries
    }
}

/// Whether a discovery for the target has to be started.
pub open spec fn request_for<T>(
    entries: Entries<T>,
    key: mise::TargetKey,
    now: u64,
) -> TaskDiscoveryRequest {
    if is_pending(entries, key) {
        TaskDiscoveryRequest::Pending
    } else if has_fresh(entries, key, now) {
        TaskDiscoveryRequest::UseCached
    } else {
        TaskDiscoveryRequest::Start
    }
}

/// The entries after a discovery for the target was asked for: one that has to be started
/// is under way.
pub open spec fn entries_after_request<T>(
    entries: Entries<T>,
    key: mise::TargetKey,
    now: u64,
) -> Entries<T> {
    if request_for(entries, key, now) == TaskDiscoveryRequest::Start {
        entries.insert(key, CacheEntry::Pending)
    } else {
        entries
    }
}

/// What the cache says of the tasks of a target. A result that has gone bad is dropped.
pub fn cached_task_discovery(
    cache: &mut DiscoveryCache<Vec<MiseTask>>,
    target: &DiscoveryTarget,
    now: u64,
) -> (r: CachedTaskDiscovery)
    requires
        old(cache).wf(),
    ensures
        final(cache).wf(),
        final(cache)@ == without_expired(old(cache)@, target.deep_view().key(), now),
        r is Pending <==> is_pending(old(cache)@, target.deep_view().key()),
        r is Ready <==> has_fresh(old(cache)@, target.deep_view().key(), now),
        r matches CachedTaskDiscovery::Ready(tasks) ==> (
        old(cache)@[target.deep_view().key()] matches CacheEntry::Ready { result, .. } && tasks@
            == result@),
{
    let key = DiscoveryCacheKey::of_target(target);
    match cache.position(&key) {
        Some(i) => match &cache.entries[i].1 {
            CacheEntry::Pending => CachedTaskDiscovery::Pending,
            CacheEntry::Ready { result, completed_at } => {
                if still_fresh(*completed_at, now) {
                    CachedTaskDiscovery::Ready(copy_tasks(result))
                } else {
                    cache.remove(&key);
                    CachedTaskDiscovery::Missing
                }
            },
        },
        None => CachedTaskDiscovery::Missing,
    }
}

fn prepare<T>(
    cache: &mut DiscoveryCache<T>,
    key: DiscoveryCacheKey,
    now: u64,
) -> (r: TaskDiscoveryRequest)
    requires
        old(cache).wf(),
    ensures
        final(cache).wf(),
        r == request_for(old(cache)@, key.deep_view(), now),
        final(cache)@ == entries_after_request(old(cache)@, key.deep_view(), now),
{
    if let Some(i) = cache.position(&key) {
        match &cache.entries[i].1 {
            CacheEntry::Pending => {
                return TaskDiscoveryRequest::Pending;
            },
            CacheEntry::Ready { completed_at, .. } => {
                if still_fresh(*completed_at, now) {
                    return TaskDiscoveryRequest::UseCached;
                }
            },
        }
    }
    cache.insert(key, CacheEntry::Pending);
    TaskDiscoveryRequest::Start
}

/// Ask for a discovery of the tasks of a target. The caller starts one exactly when told
/// to.
pub fn prepare_task_discovery(
    cache: &mut DiscoveryCache<Vec<MiseTask>>,
    target: &DiscoveryTarget,
    now: u64,
) -> (r: TaskDiscoveryRequest)
    requires
        old(cache).wf(),
    ensures
        final(cache).wf(),
        r == request_for(old(cache)@, target.deep_view().key(), now),
        final(cache)@ == entries_after_request(old(cache)@, target.deep_view().key(), now),
{
    prepare(cache, DiscoveryCacheKey::of_target(target), now)
}

/// Keep the tasks that a discovery found.
pub fn complete_task_discovery(
    cache: &mut DiscoveryCache<Vec<MiseTask>>,
    target: &DiscoveryTarget,
    tasks: Vec<MiseTask>,
    now: u64,
)
    requires
        old(cache).wf(),
    ensures
        final(cache).wf(),
        final(cache)@ == old(cache)@.insert(
            target.deep_view().key(),
            CacheEntry::Ready { result: tasks, completed_at: now },
        ),
{
    cache.insert(
        DiscoveryCacheKey::of_target(target),
        CacheEntry::Ready { result: tasks, completed_at: now },
    );
}

/// Where the tool versions of a target belong: on this machine to the directory in which
/// mise is configured, so that all directories of a project share them.
pub open spec fn versions_key(target: mise::TargetView, probes: Seq<DirProbe>) -> mise::TargetKey {
    match target {
        mise::TargetView::Local { cwd, .. } => mise::TargetKey::Local {
            cwd: mise::scoped_dir(cwd, probes),
        },
        mise::TargetView::Remote { .. } => target.key(),
    }
}

/// Where the tool versions of a target belong.
pub fn tool_version_cache_key(
    target: &DiscoveryTarget,
    probes: &Vec<DirProbe>,
) -> (r: DiscoveryCacheKey)
    ensures
        r.deep_view() == versions_key(target.deep_view(), probes@),
{
    match target {
        DiscoveryTarget::Local { cwd, .. } => DiscoveryCacheKey::Local {
            cwd: mise::local_discovery_dir_from(cwd.as_str(), probes),
        },
        DiscoveryTarget::Remote { .. } => DiscoveryCacheKey::of_target(target),
    }
}

/// The chip that the cache holds for a target: nothing where there is no good result, and
/// a result may be that there is no chip. A result that has gone bad is dropped.
pub fn cached_tool_version_chip(
    cache: &mut DiscoveryCache<Option<String>>,
    target: &DiscoveryTarget,
    probes: &Vec<DirProbe>,
    now: u64,
) -> (r: Option<Option<String>>)
    requires
        old(cache).wf(),
    ensures
        final(cache).wf(),
        final(cache)@ == without_expired(
            old(cache)@,
            versions_key(target.deep_view(), probes@),
            now,
        ),
        r is Some <==> has_fresh(old(cache)@, versions_key(target.deep_view(), probes@), now),
        r matches Some(chip) ==> (
        old(cache)@[versions_key(target.deep_view(), probes@)] matches CacheEntry::Ready { result, .. }
            && chip == result),
{
    let key = tool_version_cache_key(target, probes);
    match cache.position(&key) {
        Some(i) => match &cache.entries[i].1 {
            CacheEntry::Pending => None,
            CacheEntry::Ready { result, completed_at } => {
                if still_fresh(*completed_at, now) {
                    Some(copy_optional_text(result))
                } else {
                    cache.remove(&key);
                    None
                }
            },
        },
        None => None,
    }
}

/// Ask for the tool versions of a target. The caller starts a discovery exactly when told
/// to.
pub fn prepare_tool_version_discovery(
    cache: &mut DiscoveryCache<Option<String>>,
    target: &DiscoveryTarget,
    probes: &Vec<DirProbe>,
    now: u64,
) -> (r: TaskDiscoveryRequest)
    requires
        old(cache).wf(),
    ensures
        final(cache).wf(),
        r == request_for(old(cache)@, versions_key(target.deep_view(), probes@), now),
        final(cache)@ == entries_after_request(
            old(cache)@,
            versions_key(target.deep_view(), probes@),
            now,
        ),
{
    prepare(cache, tool_version_cache_key(target, probes), now)
}

/// Keep the chip that a discovery found.
pub fn complete_tool_version_chip(
    cache: &mut DiscoveryCache<Option<String>>,
    target: &DiscoveryTarget,
    probes: &Vec<DirProbe>,
    chip: Option<String>,
    now: u64,
)
    requires
        old(cache).wf(),
    ensures
        final(cache).wf(),
        final(cache)@ == old(cache)@.insert(
            versions_key(target.deep_view(), probes@),
            CacheEntry::Ready { result: chip, completed_at: now },
        ),
{
    cache.insert(
        tool_version_cache_key(target, probes),
        CacheEntry::Ready { result: chip, completed_at: now },
    );
}

/// What the sidebar shows of a target now, and whether a discovery is to be started. The
/// caller is never made to wait: without a good result nothing is shown.
pub fn tool_version_chip_text_for_target(
    cache: &mut DiscoveryCache<Option<String>>,
    target: &DiscoveryTarget,
    probes: &Vec<DirProbe>,
    now: u64,
) -> (r: (Option<String>, bool))
    requires
        old(cache).wf(),
    ensures
        final(cache).wf(),
        final(cache)@ == entries_after_request(
            without_expired(old(cache)@, versions_key(target.deep_view(), probes@), now),
            versions_key(target.deep_view(), probes@),
            now,
        ),
        has_fresh(old(cache)@, versions_key(target.deep_view(), probes@), now) ==> !r.1 && (
        old(cache)@[versions_key(target.deep_view(), probes@)] matches CacheEntry::Ready { result, .. }
            && r.0 == result),
        !has_fresh(old(cache)@, versions_key(target.deep_view(), probes@), now) ==> r.0 is None
            && r.1 == !is_pending(old(cache)@, versions_key(target.deep_view(), probes@)),
{
    match cached_tool_version_chip(cache, target, probes, now) {
        Some(chip) => (chip, false),
        None => {
            let request = prepare_tool_version_discovery(cache, target, probes, now);
            (None, request == TaskDiscoveryRequest::Start)
        },
    }
}

/// A result is found again for as long as it is good, and not after that.
pub proof fn law_results_expire<T>(
    entries: Entries<T>,
    key: mise::TargetKey,
    result: T,
    completed_at: u64,
    now: u64,
)
    ensures
        ({
            let kept = entries.insert(key, CacheEntry::Ready { result, completed_at });
            &&& now - completed_at <= 45_000_000_000 ==> has_fresh(kept, key, now)
            &&& now - completed_at > 45_000_000_000 ==> !has_fresh(kept, key, now)
                && !without_expired(kept, key, now).contains_key(key)
        }),
{
}

/// While a discovery is under way no second one is started for the same target.
pub proof fn law_one_discovery_at_a_time<T>(
    entries: Entries<T>,
    key: mise::TargetKey,
    first: u64,
    second: u64,
)
    ensures
        request_for(entries, key, first) == TaskDiscoveryRequest::Start ==> request_for(
            entries_after_request(entries, key, first),
            key,
            second,
        ) == TaskDiscoveryRequest::Pending,
{
}

/// What is done for one target changes nothing for another.
pub proof fn law_targets_do_not_share_results<T>(
    entries: Entries<T>,
    key: mise::TargetKey,
    other: mise::TargetKey,
    entry: CacheEntry<T>,
    now: u64,
)
    requires
        key != other,
    ensures
        has_fresh(entries.insert(key, entry), other, now) == has_fresh(entries, other, now),
        is_pending(entries.insert(key, entry), other) == is_pending(entries, other),
        request_for(entries_after_request(entries, key, now), other, now) == request_for(
            entries,
            other,
            now,
        ),
        request_for(without_expired(entries, key, now), other, now) == request_for(
            entries,
            other,
            now,
        ),
{
}

/// Asking again while a result is good starts nothing and changes nothing.
pub proof fn law_good_results_are_used<T>(entries: Entries<T>, key: mise::TargetKey, now: u64)
    requires
        has_fresh(entries, key, now),
    ensures
        request_for(entries, key, now) == TaskDiscoveryRequest::UseCached,
        entries_after_request(entries, key, now) == entries,
        without_expired(entries, key, now) == entries,
{
}

/// A discovery starts where none runs and no fresh result is there; it then runs, and nothing
/// else changes.
pub proof fn law_when_discoveries_start<T>(
    entries: Entries<T>,
    key: mise::TargetKey,
    result: T,
    completed_at: u64,
    now: u64,
)
    ensures
        !entries.contains_key(key) ==> request_for(entries, key, now)
            == TaskDiscoveryRequest::Start,
        now - completed_at > 45_000_000_000 ==> request_for(
            entries.insert(key, CacheEntry::Ready { result, completed_at }),
            key,
            now,
        ) == TaskDiscoveryRequest::Start,
        request_for(entries.insert(key, CacheEntry::Pending), key, now)
            == TaskDiscoveryRequest::Pending,
        request_for(entries, key, now) == TaskDiscoveryRequest::Start ==> entries_after_request(
            entries,
            key,
            now,
        ) == entries.insert(key, CacheEntry::Pending),
        request_for(entries, key, now) != TaskDiscoveryRequest::Start ==> entries_after_request(
            entries,
            key,
            now,
        ) == entries,
{
}

/// An entry is found by its key.
pub proof fn law_entries_are_found_by_key<T>(
    entries: Seq<(DiscoveryCacheKey, CacheEntry<T>)>,
    i: int,
)
    requires
        unique_keys(entries),
        0 <= i < entries.len(),
    ensures
        lookup(entries, entries[i].0.deep_view()) == Some(entries[i].1),
    decreases entries.len(),
{
    if i > 0 {
        let rest = entries.skip(1);
        assert(entries[0].0.deep_view() != entries[i].0.deep_view());
        assert(rest[i - 1] == entries[i]);
        assert(unique_keys(rest)) by {
            assert forall|a: int, b: int| 0 <= a < b < rest.len() implies (
            #[trigger] rest[a]).0.deep_view() != (#[trigger] rest[b]).0.deep_view() by {
                assert(rest[a] == entries[a + 1] && rest[b] == entries[b + 1]);
            }
        }
        law_entries_are_found_by_key(rest, i - 1);
    }
}

/// The tool versions of a directory are those of the project that it belongs to; on a host
/// they are those of the target itself.
pub proof fn law_tool_versions_belong_to_projects(
    cwd: Seq<char>,
    own: Option<Seq<char>>,
    host: Seq<char>,
    argv: Seq<Seq<char>>,
    probes: Seq<DirProbe>,
)
    ensures
        versions_key(mise::TargetView::Local { cwd, binary_path: own }, probes)
            == (mise::TargetKey::Local { cwd: mise::scoped_dir(cwd, probes) }),
        versions_key(mise::TargetView::Remote { host, cwd, ssh_argv: argv }, probes)
            == (mise::TargetKey::Remote { host, cwd, ssh_argv: argv }),
{
}

} // verus!
