//! Directory registry: per-community display metadata and tags.

use vstd::prelude::*;
use vstd::string::StrSliceExecFns;

use std::collections::HashMap;

use crate::codec::split_tags;
use crate::codec::split_tags_seq;
use crate::codec::tags_of;
use crate::ArchiveError;

verus! {

/// Metadata for one community.  The tag field is populated externally by an
/// administrator; absent or empty means "no tags".
pub struct CommunityRecord {
    pub name: String,
    pub link: Option<String>,
    pub tags: Option<String>,
}

/// The mathematical content of a community record.
#[verifier::ext_equal]
pub struct CommunityModel {
    pub name: Seq<char>,
    pub link: Option<Seq<char>>,
    pub tags: Option<Seq<char>>,
}

pub open spec fn community_model(r: CommunityRecord) -> CommunityModel {
    CommunityModel { name: r.name@, link: r.link.deep_view(), tags: r.tags.deep_view() }
}

/// Tracks one record per community id.  Communities are never deleted.
pub struct DirectoryRegistry {
    table: HashMap<u64, CommunityRecord>,
}

impl View for DirectoryRegistry {
    type V = Map<u64, CommunityModel>;

    closed spec fn view(&self) -> Map<u64, CommunityModel> {
        Map::new(
            |k: u64| self.table@.contains_key(k),
            |k: u64| community_model(self.table@[k]),
        )
    }
}

impl DirectoryRegistry {
    /// An empty directory.
    pub fn new() -> (r: Self)
        ensures
            r@ == Map::<u64, CommunityModel>::empty(),
    {
        let r = DirectoryRegistry { table: HashMap::new() };
        proof {
            assert(r@ =~= Map::<u64, CommunityModel>::empty());
        }
        r
    }

    /// Idempotent upsert: inserts only if absent, and never overwrites an
    /// existing record with a later observation.
    pub fn register(&mut self, community_id: u64, name: String, link: Option<String>) -> (created:
        bool)
        ensures
            created == !old(self)@.contains_key(community_id),
            old(self)@.contains_key(community_id) ==> final(self)@ == old(self)@,
            !old(self)@.contains_key(community_id) ==> final(self)@ == old(self)@.insert(
                community_id,
                (CommunityModel { name: name@, link: link.deep_view(), tags: None }),
            ),
    {
        if self.table.contains_key(&community_id) {
            false
        } else {
            let ghost name_view = name@;
            let ghost link_view = link.deep_view();
            self.table.insert(community_id, CommunityRecord { name, link, tags: None });
            proof {
                assert(self@ =~= old(self)@.insert(
                    community_id,
                    (CommunityModel { name: name_view, link: link_view, tags: None }),
                ));
            }
            true
        }
    }

    /// The externally driven write path of the administrator tag field; an
    /// empty string clears the field to absent.
    pub fn set_tags(&mut self, community_id: u64, raw: &str) -> (r: Result<(), ArchiveError>)
        ensures
            !old(self)@.contains_key(community_id) ==> r == Err::<(), ArchiveError>(
                ArchiveError::NotFound,
            ) && final(self)@ == old(self)@,
            old(self)@.contains_key(community_id) ==> r == Ok::<(), ArchiveError>(())
                && final(self)@ == old(self)@.insert(
                community_id,
                (CommunityModel {
                    name: old(self)@[community_id].name,
                    link: old(self)@[community_id].link,
                    tags: if raw@.len() == 0 {
                        None
                    } else {
                        Some(raw@)
                    },
                }),
            ),
    {
        let existing = match self.table.get(&community_id) {
            None => {
                return Err(ArchiveError::NotFound);
            },
            Some(rec) => rec,
        };
        let name = existing.name.clone();
        let link = match &existing.link {
            Some(l) => Some(l.clone()),
            None => None,
        };
        let tags = if raw.unicode_len() == 0 {
            None
        } else {
            Some(raw.to_owned())
        };
        let updated = CommunityRecord { name, link, tags };
        self.table.insert(community_id, updated);
        proof {
            assert(self@ =~= old(self)@.insert(
                community_id,
                (CommunityModel {
                    name: old(self)@[community_id].name,
                    link: old(self)@[community_id].link,
                    tags: if raw@.len() == 0 {
                        None
                    } else {
                        Some(raw@)
                    },
                }),
            ));
        }
        Ok(())
    }

    /// The record for a community, if it has been registered.
    pub fn lookup(&self, community_id: u64) -> (r: Option<&CommunityRecord>)
        ensures
            match r {
                Some(rec) => self@.contains_key(community_id) && community_model(*rec)
                    == self@[community_id],
                None => !self@.contains_key(community_id),
            },
    {
        self.table.get(&community_id)
    }

    /// The administrator-assigned tags of a community, split for display;
    /// empty if none were ever set or the community is unknown.
    pub fn get_tags(&self, community_id: u64) -> (r: Vec<String>)
        ensures
            self@.contains_key(community_id) ==> r.deep_view() == tags_of(
                self@[community_id].tags,
            ),
            !self@.contains_key(community_id) ==> r.deep_view() == Seq::<Seq<char>>::empty(),
    {
        match self.table.get(&community_id) {
            None => {
                let r = Vec::new();
                proof {
                    assert(r.deep_view() =~= Seq::<Seq<char>>::empty());
                }
                r
            },
            Some(rec) => {
                match &rec.tags {
                    None => {
                        let r = Vec::new();
                        proof {
                            assert(r.deep_view() =~= Seq::<Seq<char>>::empty());
                        }
                        r
                    },
                    Some(t) => {
                        let r = split_tags(t.as_str());
                        proof {
                            assert(tags_of(self@[community_id].tags) == split_tags_seq(t@));
                        }
                        r
                    },
                }
            },
        }
    }
}

} // verus!
