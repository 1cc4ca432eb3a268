//! Conversation renderer: reconstructs an archived conversation as an
//! ordered, anonymized, tagged view.
//!
//! Messages come out oldest first, exactly as the reference list was
//! written during archival.  A message whose stored author name is absent
//! is shown as the Nth anonymous author of this render call (numbering
//! restarts at one on every call); a named author gets a deterministic
//! color and hue shift derived from the name alone, so the same name draws
//! identically on every render.

use vstd::prelude::*;

use crate::archive::archive_success;
use crate::archive::Archive;
use crate::archive::ArchiveView;
use crate::archive::window_ids;
use crate::archive::WindowMessage;
use crate::codec::lemma_parse_encode_round_trip;
use crate::codec::parse_ids;
use crate::codec::split_tags;
use crate::codec::tags_of;
use crate::colors::color_hex;
use crate::colors::color_hex_of;
use crate::colors::hue_of;
use crate::colors::hue_shift_of;
use crate::colors::name_hash;
use crate::colors::name_hash_of;
use crate::store::find_record;
use crate::store::has_record;
use crate::store::record_model;
use crate::store::RecordModel;
use crate::ArchiveError;

verus! {

/// How one rendered message presents its author.
#[derive(Debug, PartialEq, Eq)]
pub enum AuthorDisplay {
    /// A known author: display name plus the deterministic presentation
    /// color (six hex digits) and hue-shift byte derived from it.
    Named { name: String, color: String, hue_shift: u8 },
    /// An anonymized author: the ordinal of this anonymous appearance
    /// within the current render call, starting at one.
    Anonymous { ordinal: u64 },
}

/// One message of a rendered conversation.
#[derive(Debug, PartialEq, Eq)]
pub struct RenderedMessage {
    pub author: AuthorDisplay,
    pub automated: bool,
    pub content: String,
    pub timestamp_ms: i64,
}

/// A whole rendered conversation.
#[derive(Debug, PartialEq, Eq)]
pub struct RenderedConversation {
    pub community_name: String,
    pub messages: Vec<RenderedMessage>,
    pub tags: Vec<String>,
}

/// How many of the first `k` referenced messages are anonymized.
pub open spec fn anon_before(rows: Seq<RecordModel>, cid: u64, ids: Seq<u64>, k: int) -> int
    decreases k,
{
    if k <= 0 {
        0
    } else {
        anon_before(rows, cid, ids, k - 1) + if find_record(
            rows,
            ids[k - 1],
            cid,
        ).unwrap().author_name is None {
            1int
        } else {
            0int
        }
    }
}

/// What the `k`th rendered message of a conversation must look like.
pub open spec fn message_rendered(
    rows: Seq<RecordModel>,
    cid: u64,
    ids: Seq<u64>,
    k: int,
    rm: RenderedMessage,
) -> bool {
    let rec = find_record(rows, ids[k], cid).unwrap();
    &&& rm.automated == rec.author_automated
    &&& rm.content@ == rec.content
    &&& rm.timestamp_ms == rec.timestamp_ms
    &&& match rec.author_name {
        None => rm.author matches AuthorDisplay::Anonymous { ordinal } && ordinal
            == anon_before(rows, cid, ids, k) + 1,
        Some(nm) => rm.author matches AuthorDisplay::Named { name, color, hue_shift }
            && name@ == nm && color@ == color_hex(name_hash(nm)) && hue_shift == hue_of(
            name_hash(nm),
        ),
    }
}

impl Archive {
    /// Reconstructs the conversation with the given id.
    ///
    /// Fails with `NotFound` exactly when no such conversation was ever
    /// archived.  (`StorageFailure` would signal a conversation whose
    /// community is missing from the directory — an internally
    /// inconsistent reference, evidence of a defect.)  On success the
    /// result holds the community's display name; the referenced messages
    /// oldest first, each anonymized or colored as `message_rendered`
    /// states; and the conversation tags followed by the community tags.
    pub fn render(&self, conversation_id: u64) -> (r: Result<
        RenderedConversation,
        ArchiveError,
    >)
        requires
            self.wf(),
        ensures
            match r {
                Ok(rc) => {
                    &&& 1 <= conversation_id <= self@.convs.len()
                    &&& ({
                        let conv = self@.convs[conversation_id - 1];
                        let ids = parse_ids(conv.message_refs).unwrap();
                        &&& self@.communities.contains_key(conv.community_id)
                        &&& rc.community_name@ == self@.communities[conv.community_id].name
                        &&& rc.messages@.len() == ids.len()
                        &&& (forall|k: int|
                            0 <= k < ids.len() ==> message_rendered(
                                self@.rows,
                                conv.community_id,
                                ids,
                                k,
                                #[trigger] rc.messages@[k],
                            ))
                        &&& rc.tags.deep_view() == tags_of(conv.tags) + tags_of(
                            self@.communities[conv.community_id].tags,
                        )
                    })
                },
                Err(e) => {
                    &&& (!(1 <= conversation_id <= self@.convs.len()) ==> e
                        == ArchiveError::NotFound)
                    &&& ((1 <= conversation_id <= self@.convs.len()) ==> e
                        == ArchiveError::StorageFailure && !self@.communities.contains_key(
                        self@.convs[conversation_id - 1].community_id,
                    ))
                },
            },
    {
        proof {
            crate::archive::lemma_view_parts(self);
        }
        if conversation_id < 1 || conversation_id > self.conversations.len() as u64 {
            return Err(ArchiveError::NotFound);
        }
        let idx = (conversation_id - 1) as usize;
        let conv = &self.conversations[idx];
        let ghost cid = self@.convs[idx as int].community_id;
        let ghost gids = parse_ids(self@.convs[idx as int].message_refs).unwrap();
        proof {
            assert(self@.convs[idx as int].message_refs == conv.message_refs@);
            assert(crate::archive::conv_wf(self@.rows, self@.convs[idx as int]));
        }

        let community_name = match self.communities.lookup(conv.community_id) {
            None => {
                return Err(ArchiveError::StorageFailure);
            },
            Some(rec) => rec.name.clone(),
        };

        let ids = match crate::codec::decode_message_ids(conv.message_refs.as_str()) {
            Some(v) => v,
            None => {
                proof {
                    assert(false);
                }
                return Err(ArchiveError::StorageFailure);
            },
        };

        let count = ids.len();
        let mut messages: Vec<RenderedMessage> = Vec::new();
        let mut anon: u64 = 0;
        let mut k: usize = 0;
        while k < count
            invariant
                k <= count,
                count == gids.len(),
                ids@ == gids,
                self.wf(),
                cid == self@.convs[idx as int].community_id,
                0 <= idx < self@.convs.len(),
                gids == parse_ids(self@.convs[idx as int].message_refs).unwrap(),
                conv.community_id == cid,
                forall|t: int|
                    0 <= t < gids.len() ==> has_record(self@.rows, #[trigger] gids[t], cid),
                anon == anon_before(self@.rows, cid, gids, k as int),
                0 <= anon <= k,
                messages@.len() == k,
                forall|t: int|
                    0 <= t < k ==> message_rendered(
                        self@.rows,
                        cid,
                        gids,
                        t,
                        #[trigger] messages@[t],
                    ),
            decreases count - k,
        {
            proof {
                crate::archive::lemma_view_parts(self);
            }
            let mid = ids[k];
            let rec = match self.store.get(mid, conv.community_id) {
                Ok(found) => found,
                Err(_) => {
                    proof {
                        assert(false);
                    }
                    return Err(ArchiveError::StorageFailure);
                },
            };
            proof {
                assert(Some(record_model(*rec)) == find_record(self@.rows, gids[k as int], cid));
            }
            let rendered = match &rec.author_name {
                None => {
                    anon = anon + 1;
                    RenderedMessage {
                        author: AuthorDisplay::Anonymous { ordinal: anon },
                        automated: rec.author_automated,
                        content: rec.content.clone(),
                        timestamp_ms: rec.timestamp_ms,
                    }
                },
                Some(nm) => {
                    let h = name_hash_of(nm.as_str());
                    RenderedMessage {
                        author: AuthorDisplay::Named {
                            name: nm.clone(),
                            color: color_hex_of(h),
                            hue_shift: hue_shift_of(h),
                        },
                        automated: rec.author_automated,
                        content: rec.content.clone(),
                        timestamp_ms: rec.timestamp_ms,
                    }
                },
            };
            messages.push(rendered);
            k += 1;
        }

        let mut tags = match &conv.tags {
            Some(t) => split_tags(t.as_str()),
            None => Vec::new(),
        };
        let mut extra = self.communities.get_tags(conv.community_id);
        let ghost own_tags = tags.deep_view();
        let ghost community_tags = extra.deep_view();
        tags.append(&mut extra);
        proof {
            assert(tags.deep_view() =~= own_tags + community_tags);
            assert(own_tags =~= tags_of(self@.convs[idx as int].tags));
        }

        Ok(RenderedConversation { community_name, messages, tags })
    }
}

/// Law: a window that passes consent validation archives to a conversation
/// whose stored reference list parses back to exactly the window's message
/// ids, in window (chronological) order, each present in the message
/// store; rendering that conversation therefore yields exactly one message
/// per window entry, in the same order.
pub proof fn lemma_archived_window_renders_in_order(
    pre: ArchiveView,
    post: ArchiveView,
    community_id: u64,
    w: Seq<WindowMessage>,
    raw_tags: Seq<char>,
)
    requires
        archive_success(pre, post, community_id, w, raw_tags),
    ensures
        post.convs.len() == pre.convs.len() + 1,
        parse_ids(post.convs.last().message_refs) == Some(window_ids(w)),
        window_ids(w).len() == w.len(),
        forall|k: int| 0 <= k < w.len() ==> window_ids(w)[k] == #[trigger] w[k].message_id,
        forall|k: int|
            0 <= k < w.len() ==> has_record(post.rows, #[trigger] w[k].message_id, community_id),
{
    lemma_parse_encode_round_trip(window_ids(w));
    crate::archive::lemma_stage_window_props(pre.rows, w, community_id);
}

} // verus!
