//! The store: URL records and per-identifier metadata, with the operations
//! of the service on them.
//!
//! All shared state of the service lives here. The two record collections
//! are keyed by identifier; their abstract content is a pair of finite maps
//! (`StoreModel`), and every operation's contract is stated over that model.
//! The increment-or-create metadata update is a single atomic operation of
//! the store (`update_metadata`), so concurrent first accesses serialize as
//! a sequence of upserts and no update is lost.

use vstd::prelude::*;

use crate::error::ServiceError;
use crate::ids::{generate_id, valid_id};
use crate::strings::str_eq;
use crate::urls::{url_canon, url_parses, validate_url};

verus! {

/// A stored (identifier, URL) pair. Created once at shortening time and
/// immutable thereafter.
pub struct StoredURL {
    pub id: String,
    pub url: String,
}

/// Per-identifier metadata: the identifier, a denormalized copy of the URL,
/// and the number of times the identifier has been resolved.
pub struct Metadata {
    pub id: String,
    pub url: String,
    pub hits: u64,
}

/// The mathematical content of a metadata record, minus its key.
#[verifier::ext_equal]
pub ghost struct MetaModel {
    pub url: Seq<char>,
    pub hits: nat,
}

/// The abstract state of the store: two finite maps keyed by identifier.
#[verifier::ext_equal]
pub ghost struct StoreModel {
    pub urls: Map<Seq<char>, Seq<char>>,
    pub meta: Map<Seq<char>, MetaModel>,
}

/// The content of a metadata record.
pub open spec fn meta_model(m: Metadata) -> MetaModel {
    MetaModel { url: m.url@, hits: m.hits as nat }
}

/// The map held by a sequence of URL records; a later record with the same
/// identifier would shadow an earlier one, but stored sequences never repeat
/// an identifier.
pub open spec fn urls_map(s: Seq<StoredURL>) -> Map<Seq<char>, Seq<char>>
    decreases s.len(),
{
    if s.len() == 0 {
        Map::empty()
    } else {
        urls_map(s.drop_last()).insert(s.last().id@, s.last().url@)
    }
}

/// The map held by a sequence of metadata records.
pub open spec fn meta_map(s: Seq<Metadata>) -> Map<Seq<char>, MetaModel>
    decreases s.len(),
{
    if s.len() == 0 {
        Map::empty()
    } else {
        meta_map(s.drop_last()).insert(s.last().id@, meta_model(s.last()))
    }
}

/// No two URL records share an identifier.
pub open spec fn url_ids_unique(s: Seq<StoredURL>) -> bool {
    forall|i: int, j: int| 0 <= i < j < s.len() ==> s[i].id@ != s[j].id@
}

/// No two metadata records share an identifier.
pub open spec fn meta_ids_unique(s: Seq<Metadata>) -> bool {
    forall|i: int, j: int| 0 <= i < j < s.len() ==> s[i].id@ != s[j].id@
}

proof fn lemma_urls_map_index(s: Seq<StoredURL>, i: int)
    requires
        url_ids_unique(s),
        0 <= i < s.len(),
    ensures
        urls_map(s).contains_key(s[i].id@),
        urls_map(s)[s[i].id@] == s[i].url@,
    decreases s.len(),
{
    if i == s.len() - 1 {
    } else {
        assert(url_ids_unique(s.drop_last()));
        lemma_urls_map_index(s.drop_last(), i);
        assert(s[i].id@ != s.last().id@);
    }
}

proof fn lemma_urls_map_absent(s: Seq<StoredURL>, k: Seq<char>)
    requires
        forall|i: int| 0 <= i < s.len() ==> s[i].id@ != k,
    ensures
        !urls_map(s).contains_key(k),
    decreases s.len(),
{
    if s.len() > 0 {
        lemma_urls_map_absent(s.drop_last(), k);
    }
}

proof fn lemma_urls_map_push(s: Seq<StoredURL>, r: StoredURL)
    ensures
        urls_map(s.push(r)) == urls_map(s).insert(r.id@, r.url@),
{
    assert(s.push(r).drop_last() =~= s);
    assert(s.push(r).last() == r);
}

proof fn lemma_meta_map_index(s: Seq<Metadata>, i: int)
    requires
        meta_ids_unique(s),
        0 <= i < s.len(),
    ensures
        meta_map(s).contains_key(s[i].id@),
        meta_map(s)[s[i].id@] == meta_model(s[i]),
    decreases s.len(),
{
    if i == s.len() - 1 {
    } else {
        assert(meta_ids_unique(s.drop_last()));
        lemma_meta_map_index(s.drop_last(), i);
        assert(s[i].id@ != s.last().id@);
    }
}

proof fn lemma_meta_map_absent(s: Seq<Metadata>, k: Seq<char>)
    requires
        forall|i: int| 0 <= i < s.len() ==> s[i].id@ != k,
    ensures
        !meta_map(s).contains_key(k),
    decreases s.len(),
{
    if s.len() > 0 {
        lemma_meta_map_absent(s.drop_last(), k);
    }
}

proof fn lemma_meta_map_push(s: Seq<Metadata>, r: Metadata)
    ensures
        meta_map(s.push(r)) == meta_map(s).insert(r.id@, meta_model(r)),
{
    assert(s.push(r).drop_last() =~= s);
    assert(s.push(r).last() == r);
}

proof fn lemma_meta_map_update(s: Seq<Metadata>, i: int, r: Metadata)
    requires
        meta_ids_unique(s),
        0 <= i < s.len(),
        r.id@ == s[i].id@,
    ensures
        meta_map(s.update(i, r)) == meta_map(s).insert(r.id@, meta_model(r)),
    decreases s.len(),
{
    if i == s.len() - 1 {
        assert(s.update(i, r).drop_last() =~= s.drop_last());
        assert(s.update(i, r).last() == r);
        assert(meta_map(s.drop_last()).insert(s.last().id@, meta_model(s.last())).insert(
            r.id@,
            meta_model(r),
        ) =~= meta_map(s.drop_last()).insert(r.id@, meta_model(r)));
    } else {
        assert(meta_ids_unique(s.drop_last()));
        assert(s.update(i, r).drop_last() =~= s.drop_last().update(i, r));
        assert(s.update(i, r).last() == s.last());
        lemma_meta_map_update(s.drop_last(), i, r);
        assert(s[i].id@ != s.last().id@);
        assert(meta_map(s.drop_last()).insert(r.id@, meta_model(r)).insert(
            s.last().id@,
            meta_model(s.last()),
        ) =~= meta_map(s.drop_last()).insert(s.last().id@, meta_model(s.last())).insert(
            r.id@,
            meta_model(r),
        ));
    }
}

/// How many fresh identifiers a single shortening draws before giving up
/// on collisions.
pub const MAX_SHORTEN_ATTEMPTS: usize = 3;

/// A hit count one higher, saturating at the counter's capacity.
pub open spec fn bumped(h: nat) -> nat {
    if h < u64::MAX {
        h + 1
    } else {
        h
    }
}

/// The metadata map after one atomic increment-or-create for `id`: an
/// existing record keeps its URL and counts one more hit; an absent one is
/// created with the given URL and a count of 1 (the creating access counts).
pub open spec fn upsert_meta(
    m: Map<Seq<char>, MetaModel>,
    id: Seq<char>,
    url: Seq<char>,
) -> Map<Seq<char>, MetaModel> {
    if m.contains_key(id) {
        m.insert(id, MetaModel { url: m[id].url, hits: bumped(m[id].hits) })
    } else {
        m.insert(id, MetaModel { url: url, hits: 1 })
    }
}

/// The change a successful shortening of `raw` makes to the store: a fresh
/// identifier now maps to the canonical form of `raw`, and its metadata
/// starts with zero hits. Both records appear together or not at all.
pub open spec fn shorten_transition(
    pre: StoreModel,
    post: StoreModel,
    raw: Seq<char>,
    id: Seq<char>,
) -> bool {
    &&& !pre.urls.contains_key(id)
    &&& !pre.meta.contains_key(id)
    &&& post.urls == pre.urls.insert(id, url_canon(raw))
    &&& post.meta == pre.meta.insert(id, MetaModel { url: url_canon(raw), hits: 0 })
}

/// The change a successful resolution of `id` makes to the store: the URL
/// records are untouched and the metadata for `id` goes through one atomic
/// increment-or-create with the stored URL.
pub open spec fn retrieve_transition(pre: StoreModel, post: StoreModel, id: Seq<char>) -> bool {
    &&& pre.urls.contains_key(id)
    &&& post.urls == pre.urls
    &&& post.meta == upsert_meta(pre.meta, id, pre.urls[id])
}

/// The store. Holds the URL records and the metadata records, each keyed by
/// a unique identifier.
pub struct Store {
    urls: Vec<StoredURL>,
    metadata: Vec<Metadata>,
}

impl View for Store {
    type V = StoreModel;

    closed spec fn view(&self) -> StoreModel {
        StoreModel { urls: urls_map(self.urls@), meta: meta_map(self.metadata@) }
    }
}

impl Store {
    /// Well-formedness: no identifier is repeated within either collection,
    /// so each record is the one its identifier maps to in the model.
    pub closed spec fn wf(&self) -> bool {
        &&& url_ids_unique(self.urls@)
        &&& meta_ids_unique(self.metadata@)
    }

    /// Creates an empty store.
    pub fn new() -> (s: Store)
        ensures
            s.wf(),
            s@.urls == Map::<Seq<char>, Seq<char>>::empty(),
            s@.meta == Map::<Seq<char>, MetaModel>::empty(),
    {
        Store { urls: Vec::new(), metadata: Vec::new() }
    }

    /// Index of the URL record with the given identifier, if any.
    fn find_url(&self, id: &str) -> (r: Option<usize>)
        ensures
            match r {
                Some(i) => i < self.urls@.len() && self.urls@[i as int].id@ == id@,
                None => forall|j: int| 0 <= j < self.urls@.len() ==> self.urls@[j].id@ != id@,
            },
    {
        let mut i: usize = 0;
        while i < self.urls.len()
            invariant
                i <= self.urls@.len(),
                forall|j: int| 0 <= j < i ==> self.urls@[j].id@ != id@,
            decreases self.urls@.len() - i,
        {
            if str_eq(self.urls[i].id.as_str(), id) {
                return Some(i);
            }
            i = i + 1;
        }
        None
    }

    /// Index of the metadata record with the given identifier, if any.
    fn find_meta(&self, id: &str) -> (r: Option<usize>)
        ensures
            match r {
                Some(i) => i < self.metadata@.len() && self.metadata@[i as int].id@ == id@,
                None => forall|j: int| 0 <= j < self.metadata@.len() ==> self.metadata@[j].id@
                    != id@,
            },
    {
        let mut i: usize = 0;
        while i < self.metadata.len()
            invariant
                i <= self.metadata@.len(),
                forall|j: int| 0 <= j < i ==> self.metadata@[j].id@ != id@,
            decreases self.metadata@.len() - i,
        {
            if str_eq(self.metadata[i].id.as_str(), id) {
                return Some(i);
            }
            i = i + 1;
        }
        None
    }

    /// Persists an (identifier, URL) pair: one URL record and one metadata
    /// record with zero hits, written together — on failure neither record
    /// appears. Fails with `InsertFailed`, changing nothing, exactly when
    /// the identifier is already taken by either record.
    pub fn insert_pair(&mut self, id: &str, url: &str) -> (r: Result<(), ServiceError>)
        requires
            old(self).wf(),
        ensures
            final(self).wf(),
            r is Ok <==> (!old(self)@.urls.contains_key(id@)
                && !old(self)@.meta.contains_key(id@)),
            match r {
                Ok(()) => final(self)@.urls == old(self)@.urls.insert(id@, url@)
                    && final(self)@.meta == old(self)@.meta.insert(
                        id@,
                        MetaModel { url: url@, hits: 0 },
                    ),
                Err(e) => e is InsertFailed && *final(self) == *old(self),
            },
    {
        match self.find_url(id) {
            Some(i) => {
                proof {
                    lemma_urls_map_index(self.urls@, i as int);
                }
                Err(ServiceError::InsertFailed)
            },
            None => {
                proof {
                    lemma_urls_map_absent(self.urls@, id@);
                }
                match self.find_meta(id) {
                    Some(j) => {
                        proof {
                            lemma_meta_map_index(self.metadata@, j as int);
                        }
                        Err(ServiceError::InsertFailed)
                    },
                    None => {
                        proof {
                            lemma_meta_map_absent(self.metadata@, id@);
                        }
                        let ghost orig_urls = self.urls@;
                        let ghost orig_meta = self.metadata@;
                        let url_rec = StoredURL { id: id.to_owned(), url: url.to_owned() };
                        let meta_rec = Metadata {
                            id: id.to_owned(),
                            url: url.to_owned(),
                            hits: 0,
                        };
                        let ghost gu = url_rec;
                        let ghost gm = meta_rec;
                        self.urls.push(url_rec);
                        self.metadata.push(meta_rec);
                        proof {
                            lemma_urls_map_push(orig_urls, gu);
                            lemma_meta_map_push(orig_meta, gm);
                            assert forall|a: int, b: int|
                                0 <= a < b < self.urls@.len() implies self.urls@[a].id@
                                != self.urls@[b].id@ by {
                                if b == self.urls@.len() - 1 {
                                    assert(orig_urls[a].id@ != id@);
                                }
                            }
                            assert forall|a: int, b: int|
                                0 <= a < b < self.metadata@.len() implies self.metadata@[a].id@
                                != self.metadata@[b].id@ by {
                                if b == self.metadata@.len() - 1 {
                                    assert(orig_meta[a].id@ != id@);
                                }
                            }
                        }
                        Ok(())
                    },
                }
            },
        }
    }

    /// One atomic increment-or-create on the metadata for `id`: an existing
    /// record keeps its URL and gains one hit; an absent one is created with
    /// the given URL and a single hit. Returns the record as updated. The
    /// URL records are untouched, and the update cannot fail.
    pub fn update_metadata(&mut self, id: &str, url: &str) -> (r: Metadata)
        requires
            old(self).wf(),
        ensures
            final(self).wf(),
            final(self)@.urls == old(self)@.urls,
            final(self)@.meta == upsert_meta(old(self)@.meta, id@, url@),
            r.id@ == id@,
            meta_model(r) == final(self)@.meta[id@],
    {
        match self.find_meta(id) {
            Some(i) => {
                proof {
                    lemma_meta_map_index(self.metadata@, i as int);
                }
                let ghost orig = self.metadata@;
                let old_rec = self.metadata.remove(i);
                let new_hits: u64 = if old_rec.hits < u64::MAX {
                    old_rec.hits + 1
                } else {
                    old_rec.hits
                };
                let new_rec = Metadata { id: old_rec.id, url: old_rec.url, hits: new_hits };
                let r = Metadata {
                    id: new_rec.id.clone(),
                    url: new_rec.url.clone(),
                    hits: new_rec.hits,
                };
                let ghost gn = new_rec;
                self.metadata.insert(i, new_rec);
                proof {
                    assert(self.metadata@ =~= orig.update(i as int, gn));
                    lemma_meta_map_update(orig, i as int, gn);
                    assert forall|a: int, b: int|
                        0 <= a < b < self.metadata@.len() implies self.metadata@[a].id@
                        != self.metadata@[b].id@ by {
                        assert(orig[a].id@ != orig[b].id@);
                    }
                }
                r
            },
            None => {
                proof {
                    lemma_meta_map_absent(self.metadata@, id@);
                }
                let ghost orig = self.metadata@;
                let new_rec = Metadata { id: id.to_owned(), url: url.to_owned(), hits: 1 };
                let r = Metadata {
                    id: new_rec.id.clone(),
                    url: new_rec.url.clone(),
                    hits: new_rec.hits,
                };
                let ghost gn = new_rec;
                self.metadata.push(new_rec);
                proof {
                    lemma_meta_map_push(orig, gn);
                    assert forall|a: int, b: int|
                        0 <= a < b < self.metadata@.len() implies self.metadata@[a].id@
                        != self.metadata@[b].id@ by {
                        if b == self.metadata@.len() - 1 {
                            assert(orig[a].id@ != id@);
                        }
                    }
                }
                r
            },
        }
    }

    /// Resolves an identifier: returns the stored URL for the caller to
    /// redirect to, after one atomic increment-or-create on its metadata.
    /// Fails with `NotFound`, changing nothing, exactly when the identifier
    /// is unknown.
    pub fn retrieve(&mut self, id: &str) -> (r: Result<String, ServiceError>)
        requires
            old(self).wf(),
        ensures
            final(self).wf(),
            r is Ok <==> old(self)@.urls.contains_key(id@),
            match r {
                Ok(u) => u@ == old(self)@.urls[id@] && retrieve_transition(
                    old(self)@,
                    final(self)@,
                    id@,
                ),
                Err(e) => e is NotFound && *final(self) == *old(self),
            },
    {
        match self.find_url(id) {
            Some(i) => {
                proof {
                    lemma_urls_map_index(self.urls@, i as int);
                }
                let resolved = self.urls[i].url.clone();
                let _meta = self.update_metadata(id, resolved.as_str());
                Ok(resolved)
            },
            None => {
                proof {
                    lemma_urls_map_absent(self.urls@, id@);
                }
                Err(ServiceError::NotFound)
            },
        }
    }

    /// Reads the metadata record for an identifier, without side effects.
    /// Fails with `NotFound` exactly when no metadata exists for it.
    pub fn get_metadata(&self, id: &str) -> (r: Result<Metadata, ServiceError>)
        requires
            self.wf(),
        ensures
            r is Ok <==> self@.meta.contains_key(id@),
            match r {
                Ok(m) => m.id@ == id@ && meta_model(m) == self@.meta[id@],
                Err(e) => e is NotFound,
            },
    {
        match self.find_meta(id) {
            Some(i) => {
                proof {
                    lemma_meta_map_index(self.metadata@, i as int);
                }
                let rec = &self.metadata[i];
                Ok(Metadata { id: rec.id.clone(), url: rec.url.clone(), hits: rec.hits })
            },
            None => {
                proof {
                    lemma_meta_map_absent(self.metadata@, id@);
                }
                Err(ServiceError::NotFound)
            },
        }
    }

    /// Shortens a raw URL: validates it, draws fresh identifiers until one
    /// is free (with a bounded number of attempts), and persists the pair.
    /// On success the returned identifier is fresh, well formed, and maps to
    /// the canonical form of the input with zero hits; `InvalidURL` is
    /// returned, with nothing written, exactly when the input does not parse
    /// as an absolute URL; `InsertFailed`, with nothing written, if every
    /// drawn identifier collided.
    pub fn shorten(&mut self, raw: &str) -> (r: Result<String, ServiceError>)
        requires
            old(self).wf(),
        ensures
            final(self).wf(),
            match r {
                Ok(id) => url_parses(raw@) && valid_id(id@) && shorten_transition(
                    old(self)@,
                    final(self)@,
                    raw@,
                    id@,
                ),
                Err(e) => *final(self) == *old(self) && (e is InvalidURL <==> !url_parses(raw@))
                    && (e is InvalidURL || e is InsertFailed),
            },
    {
        let canon = match validate_url(raw) {
            Ok(c) => c,
            Err(e) => { return Err(e); },
        };
        let mut attempts: usize = 0;
        while attempts < MAX_SHORTEN_ATTEMPTS
            invariant
                attempts <= MAX_SHORTEN_ATTEMPTS,
                self.wf(),
                *self == *old(self),
                url_parses(raw@),
                canon@ == url_canon(raw@),
            decreases MAX_SHORTEN_ATTEMPTS - attempts,
        {
            let id = generate_id();
            match self.insert_pair(id.as_str(), canon.as_str()) {
                Ok(()) => { return Ok(id); },
                Err(_) => { attempts = attempts + 1; },
            }
        }
        Err(ServiceError::InsertFailed)
    }
}

} // verus!
