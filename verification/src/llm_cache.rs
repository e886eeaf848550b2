//! Cache of generated summaries, keyed by commit id, whose entries expire
//! after a week.
use vstd::prelude::*;
use crate::strmap::StrMap;

verus! {

/// How long cached summaries stay valid: seven days, in seconds.
pub const TTL_SECONDS: i64 = 604800;

/// A cached summary and when it was made.
pub struct CachedSummary {
    /// The summary text.
    pub text: String,
    /// Unix time (seconds) of its creation.
    pub created: i64,
}

/// Summaries keyed by commit short id.
pub struct LlmCache {
    /// The cached summaries.
    pub summaries: StrMap<CachedSummary>,
}

/// Whether an entry made at `created` is still valid at time `now`.
pub open spec fn fresh(created: i64, now: i64) -> bool {
    created > now - TTL_SECONDS
}

/// The entries still valid at time `now`.
pub open spec fn fresh_part(m: Map<Seq<char>, CachedSummary>, now: i64) -> Map<Seq<char>, CachedSummary> {
    m.restrict(Set::new(|k: Seq<char>| m.contains_key(k) && fresh(m[k].created, now)))
}

/// What a lookup of `k` at time `now` gives: the text of a fresh entry.
pub open spec fn lookup_at(m: Map<Seq<char>, CachedSummary>, k: Seq<char>, now: i64) -> Option<Seq<char>> {
    if m.contains_key(k) && fresh(m[k].created, now) {
        Some(m[k].text@)
    } else {
        None
    }
}

impl LlmCache {
    /// The empty cache.
    pub fn default() -> (r: Self)
        ensures
            r.summaries@ == Map::<Seq<char>, CachedSummary>::empty(),
    {
        LlmCache { summaries: StrMap::new() }
    }
}

/// The current Unix time in seconds (`SystemTime::now`, 0 before the epoch).
#[verifier::external_body]
fn now_unix() -> (r: i64) {
    std::time::SystemTime::now()
        .duration_since(std::time::UNIX_EPOCH)
        .map(|d| d.as_secs() as i64)
        .unwrap_or(0)
}

/// The summary of `commit_id` as of time `now`: `None` when it is missing
/// or expired.
pub fn get_at<'a>(cache: &'a LlmCache, commit_id: &str, now: i64) -> (r: Option<&'a str>)
    ensures
        match r {
            Some(t) => lookup_at(cache.summaries@, commit_id@, now) == Some(t@),
            None => lookup_at(cache.summaries@, commit_id@, now) is None,
        },
        match r {
            Some(t) => cache.summaries@.contains_key(commit_id@) && fresh(cache.summaries@[commit_id@].created, now)
                && t@ == cache.summaries@[commit_id@].text@,
            None => !cache.summaries@.contains_key(commit_id@) || !fresh(
                cache.summaries@[commit_id@].created,
                now,
            ),
        },
{
    match cache.summaries.get(commit_id) {
        Some(entry) => {
            if (entry.created as i128) <= (now as i128) - (TTL_SECONDS as i128) {
                None
            } else {
                Some(entry.text.as_str())
            }
        },
        None => None,
    }
}

/// Look up a cached summary by commit id; `None` if missing or expired
/// at the current time. The result is the lookup at the time the clock
/// gave, whichever time that was.
pub fn get<'a>(cache: &'a LlmCache, commit_id: &str) -> (r: Option<&'a str>)
    ensures
        !cache.summaries@.contains_key(commit_id@) ==> r.is_none(),
        r matches Some(t) ==> t@ == cache.summaries@[commit_id@].text@,
        exists|now: i64|
            #![trigger lookup_at(cache.summaries@, commit_id@, now)]
            match r {
                Some(t) => lookup_at(cache.summaries@, commit_id@, now) == Some(t@),
                None => lookup_at(cache.summaries@, commit_id@, now) is None,
            },
{
    get_at(cache, commit_id, now_unix())
}

/// Insert a summary made at time `now`.
pub fn put_at(cache: &mut LlmCache, commit_id: String, text: String, now: i64)
    ensures
        final(cache).summaries@ == old(cache).summaries@.insert(commit_id@, CachedSummary { text, created: now }),
{
    cache.summaries.insert(commit_id, CachedSummary { text, created: now });
}

/// Insert a summary made now.
pub fn put(cache: &mut LlmCache, commit_id: String, text: String)
    ensures
        final(cache).summaries@.dom() == old(cache).summaries@.dom().insert(commit_id@),
        final(cache).summaries@[commit_id@].text == text,
        forall|k: Seq<char>| k != commit_id@ && old(cache).summaries@.contains_key(k)
            ==> #[trigger] final(cache).summaries@[k] == old(cache).summaries@[k],
{
    put_at(cache, commit_id, text, now_unix());
}

/// Drop the entries expired at time `now`.
pub fn evict_at(cache: &mut LlmCache, now: i64)
    ensures
        final(cache).summaries@ == fresh_part(old(cache).summaries@, now),
{
    let ghost orig = cache.summaries@;
    let keys = cache.summaries.keys();
    let mut i: usize = 0;
    while i < keys.len()
        invariant
            i <= keys@.len(),
            keys@.len() == orig.len(),
            forall|q: Seq<char>| orig.contains_key(q) <==> exists|j: int| 0 <= j < keys@.len() && #[trigger] keys@[j]@ == q,
            forall|q: Seq<char>| #[trigger] cache.summaries@.contains_key(q) ==> orig.contains_key(q) && cache.summaries@[q] == orig[q],
            forall|q: Seq<char>| orig.contains_key(q) && fresh(orig[q].created, now) ==> #[trigger] cache.summaries@.contains_key(q),
            forall|j: int| 0 <= j < i ==> (#[trigger] cache.summaries@.contains_key(keys@[j]@) ==> fresh(orig[keys@[j]@].created, now)),
            forall|q: Seq<char>| orig.contains_key(q) && !(exists|j: int| 0 <= j < i && #[trigger] keys@[j]@ == q) ==> cache.summaries@.contains_key(q),
        decreases keys@.len() - i,
    {
        let k = keys[i].as_str();
        let expired = match cache.summaries.get(k) {
            Some(entry) => (entry.created as i128) <= (now as i128) - (TTL_SECONDS as i128),
            None => false,
        };
        if expired {
            cache.summaries.remove(k);
        }
        proof {
            assert forall|q: Seq<char>| orig.contains_key(q) && !(exists|j: int| 0 <= j < i + 1 && #[trigger] keys@[j]@ == q) implies cache.summaries@.contains_key(q) by {
                assert(!(exists|j: int| 0 <= j < i && #[trigger] keys@[j]@ == q)) by {
                    if exists|j: int| 0 <= j < i && #[trigger] keys@[j]@ == q {
                        let j = choose|j: int| 0 <= j < i && #[trigger] keys@[j]@ == q;
                        assert(0 <= j < i + 1 && keys@[j]@ == q);
                    }
                }
                assert(keys@[i as int]@ != q);
            }
        }
        i = i + 1;
    }
    assert(cache.summaries@ =~= fresh_part(orig, now)) by {
        assert forall|q: Seq<char>| #[trigger] cache.summaries@.contains_key(q) implies fresh(orig[q].created, now) by {
            let j = choose|j: int| 0 <= j < keys@.len() && #[trigger] keys@[j]@ == q;
            assert(cache.summaries@.contains_key(keys@[j]@));
        }
    }
}

/// Drop the entries expired at the current time.
pub fn evict(cache: &mut LlmCache)
    ensures
        exists|now: i64| final(cache).summaries@ == fresh_part(old(cache).summaries@, now),
{
    let now = now_unix();
    evict_at(cache, now);
}

/// A summary written at time `created` is read back, unchanged, at any
/// time `now` before it expires.
pub proof fn law_read_after_write(m: Map<Seq<char>, CachedSummary>, k: Seq<char>, text: String, created: i64, now: i64)
    requires
        fresh(created, now),
    ensures
        lookup_at(m.insert(k, CachedSummary { text, created }), k, now) == Some(text@),
{
}

/// Writing one key leaves the lookups of every other key as they were.
pub proof fn law_write_spares_other_keys(
    m: Map<Seq<char>, CachedSummary>,
    k: Seq<char>,
    other: Seq<char>,
    v: CachedSummary,
    now: i64,
)
    requires
        k != other,
    ensures
        lookup_at(m.insert(k, v), other, now) == lookup_at(m, other, now),
{
}

/// Evicting at time `now` changes no lookup made at `now`.
pub proof fn law_evict_keeps_lookups(m: Map<Seq<char>, CachedSummary>, k: Seq<char>, now: i64)
    ensures
        lookup_at(fresh_part(m, now), k, now) == lookup_at(m, k, now),
{
}

} // verus!
