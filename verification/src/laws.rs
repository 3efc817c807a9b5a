//! The general properties of the service, proved over the store model.

use vstd::prelude::*;

use crate::store::{
    retrieve_transition, shorten_transition, upsert_meta, MetaModel, StoreModel,
};
use crate::urls::url_canon;

verus! {

/// The metadata map after `n` atomic increment-or-create updates for `id`,
/// each carrying the same URL. Since every update is one atomic store
/// operation, any schedule of `n` resolutions of `id` — sequential or
/// concurrent — takes the metadata through exactly this map.
pub open spec fn upsert_n(
    m: Map<Seq<char>, MetaModel>,
    id: Seq<char>,
    url: Seq<char>,
    n: nat,
) -> Map<Seq<char>, MetaModel>
    decreases n,
{
    if n == 0 {
        m
    } else {
        upsert_meta(upsert_n(m, id, url, (n - 1) as nat), id, url)
    }
}

/// Shortening then resolving round-trips: after a successful shortening of
/// `raw` returned `id`, the store maps `id` to the canonical form of `raw`,
/// so resolving `id` succeeds and hands back exactly that string; the
/// metadata starts at zero hits and shows one hit once that resolution's
/// update lands.
pub proof fn law_shorten_then_retrieve(
    pre: StoreModel,
    post: StoreModel,
    raw: Seq<char>,
    id: Seq<char>,
)
    requires
        shorten_transition(pre, post, raw, id),
    ensures
        post.urls.contains_key(id),
        post.urls[id] == url_canon(raw),
        post.meta[id] == (MetaModel { url: url_canon(raw), hits: 0 }),
        upsert_meta(post.meta, id, post.urls[id])[id] == (MetaModel {
            url: url_canon(raw),
            hits: 1,
        }),
{
}

/// Sequential resolutions accumulate: `n` updates of an identifier whose
/// metadata record exists raise its hit count by exactly `n` (within the
/// counter's capacity) and keep its URL. In particular, a record created at
/// shortening time with zero hits shows `n` hits after `n` resolutions.
pub proof fn law_sequential_hits(
    m: Map<Seq<char>, MetaModel>,
    id: Seq<char>,
    url: Seq<char>,
    n: nat,
)
    requires
        m.contains_key(id),
        m[id].hits + n <= u64::MAX,
    ensures
        upsert_n(m, id, url, n).contains_key(id),
        upsert_n(m, id, url, n)[id].hits == m[id].hits + n,
        upsert_n(m, id, url, n)[id].url == m[id].url,
    decreases n,
{
    if n > 0 {
        law_sequential_hits(m, id, url, (n - 1) as nat);
    }
}

/// No lost update and no duplicate row on first access: `k` updates of an
/// identifier with no metadata record — any serialization of `k` concurrent
/// first resolutions — leave exactly one new record, holding the given URL
/// and exactly `k` hits.
pub proof fn law_first_access_hits(
    m: Map<Seq<char>, MetaModel>,
    id: Seq<char>,
    url: Seq<char>,
    k: nat,
)
    requires
        !m.contains_key(id),
        1 <= k <= u64::MAX,
    ensures
        upsert_n(m, id, url, k).contains_key(id),
        upsert_n(m, id, url, k)[id].hits == k,
        upsert_n(m, id, url, k)[id].url == url,
        upsert_n(m, id, url, k).dom() == m.dom().insert(id),
    decreases k,
{
    if k == 1 {
        assert(upsert_n(m, id, url, 0) == m);
        assert(upsert_n(m, id, url, 1) == upsert_meta(m, id, url));
        assert(upsert_n(m, id, url, 1).dom() =~= m.dom().insert(id));
    } else {
        law_first_access_hits(m, id, url, (k - 1) as nat);
        assert(upsert_n(m, id, url, k).dom() =~= m.dom().insert(id));
    }
}

/// Distinct identifiers: two successive successful shortenings — even of
/// the same URL — return different identifiers, and each remains resolvable
/// to its own canonical URL afterwards.
pub proof fn law_distinct_identifiers(
    s0: StoreModel,
    s1: StoreModel,
    s2: StoreModel,
    raw1: Seq<char>,
    raw2: Seq<char>,
    id1: Seq<char>,
    id2: Seq<char>,
)
    requires
        shorten_transition(s0, s1, raw1, id1),
        shorten_transition(s1, s2, raw2, id2),
    ensures
        id1 != id2,
        s2.urls.contains_key(id1),
        s2.urls[id1] == url_canon(raw1),
        s2.urls.contains_key(id2),
        s2.urls[id2] == url_canon(raw2),
{
}

/// Shortening preserves the record invariant: if every metadata record was
/// backed by a URL record with the same identifier, it still is afterwards.
pub proof fn law_shorten_keeps_backing(
    pre: StoreModel,
    post: StoreModel,
    raw: Seq<char>,
    id: Seq<char>,
)
    requires
        pre.meta.dom() <= pre.urls.dom(),
        shorten_transition(pre, post, raw, id),
    ensures
        post.meta.dom() <= post.urls.dom(),
{
}

/// Resolution preserves the record invariant: the one record it may create
/// is for an identifier whose URL record was just looked up.
pub proof fn law_retrieve_keeps_backing(pre: StoreModel, post: StoreModel, id: Seq<char>)
    requires
        pre.meta.dom() <= pre.urls.dom(),
        retrieve_transition(pre, post, id),
    ensures
        post.meta.dom() <= post.urls.dom(),
{
}

} // verus!
