//! Archival transaction coordinator.
//!
//! `Archive` owns the whole system state: consent registry, community
//! directory, message store, and the conversation table.  Its central
//! operation captures a bounded window of messages as one atomic unit:
//! every author is registered, every message is staged dedup-safely, every
//! distinct author's consent is validated, and only when no author has
//! opted out does a new conversation row appear.  A refused archive leaves
//! the message store and the conversation table exactly as they were.

use vstd::prelude::*;

use crate::codec::commas_for_spaces;
use crate::codec::encode_ids;
use crate::codec::encode_message_ids;
use crate::codec::lemma_parse_encode_round_trip;
use crate::codec::normalize_tags;
use crate::codec::parse_ids;
use crate::consent::register_map;
use crate::consent::ConsentRegistry;
use crate::directory::CommunityModel;
use crate::directory::DirectoryRegistry;
use crate::store::find_record;
use crate::store::has_record;
use crate::store::lemma_stage_rows;
use crate::store::record_model;
use crate::store::stage_rows;
use crate::store::store_wf;
use crate::store::MessageRecord;
use crate::store::MessageStore;
use crate::store::RecordModel;
use crate::ArchiveError;
use crate::ConsentState;

verus! {

/// One message of a capture window, as the platform adapter hands it over.
/// Unlike a stored record it still carries its author's id, which exists
/// only to drive registration and consent validation and is not persisted.
pub struct WindowMessage {
    pub message_id: u64,
    pub author_id: u64,
    pub author_name: Option<String>,
    pub author_automated: bool,
    pub content: String,
    pub timestamp_ms: i64,
}

/// The record a window message is stored as within a community.
pub open spec fn staged_model(m: WindowMessage, cid: u64) -> RecordModel {
    RecordModel {
        message_id: m.message_id,
        community_id: cid,
        author_name: m.author_name.deep_view(),
        author_automated: m.author_automated,
        content: m.content@,
        timestamp_ms: m.timestamp_ms,
    }
}

/// One archived conversation: an ordered, comma-delimited reference list of
/// message ids (oldest first), the owning community, and optional tags.
/// Immutable once created.
pub struct Conversation {
    pub message_refs: String,
    pub community_id: u64,
    pub tags: Option<String>,
}

/// The mathematical content of a conversation row.
#[verifier::ext_equal]
pub struct ConversationModel {
    pub message_refs: Seq<char>,
    pub community_id: u64,
    pub tags: Option<Seq<char>>,
}

pub open spec fn conversation_model(c: Conversation) -> ConversationModel {
    ConversationModel {
        message_refs: c.message_refs@,
        community_id: c.community_id,
        tags: c.tags.deep_view(),
    }
}

pub open spec fn conversation_models(cs: Seq<Conversation>) -> Seq<ConversationModel> {
    Seq::new(cs.len(), |i: int| conversation_model(cs[i]))
}

/// The whole system state, mathematically.
#[verifier::ext_equal]
pub struct ArchiveView {
    pub users: Map<u64, ConsentState>,
    pub communities: Map<u64, CommunityModel>,
    pub rows: Seq<RecordModel>,
    pub convs: Seq<ConversationModel>,
}

/// The ids of a window, in window order.
pub open spec fn window_ids(w: Seq<WindowMessage>) -> Seq<u64> {
    Seq::new(w.len(), |i: int| w[i].message_id)
}

/// No two window entries share a message id.
pub open spec fn distinct_window_ids(w: Seq<WindowMessage>) -> bool {
    forall|i: int, j: int|
        0 <= i < j < w.len() ==> w[i].message_id != w[j].message_id
}

/// Model of the registration pass: every author of the window is ensured a
/// consent entry, first-seen authors implicitly as pending.
pub open spec fn register_authors(m: Map<u64, ConsentState>, w: Seq<WindowMessage>) -> Map<
    u64,
    ConsentState,
>
    decreases w.len(),
{
    if w.len() == 0 {
        m
    } else {
        register_authors(register_map(m, w[0].author_id, false), w.drop_first())
    }
}

/// An author blocks archival exactly when explicitly opted out; pending
/// does not block.
pub open spec fn author_denied(m: Map<u64, ConsentState>, a: u64) -> bool {
    m.contains_key(a) && m[a] == ConsentState::OptedOut
}

/// The first opted-out author of the window in window order, if any.
pub open spec fn first_denied(m: Map<u64, ConsentState>, w: Seq<WindowMessage>) -> Option<u64>
    decreases w.len(),
{
    if w.len() == 0 {
        None
    } else if author_denied(m, w[0].author_id) {
        Some(w[0].author_id)
    } else {
        first_denied(m, w.drop_first())
    }
}

/// Model of the staging pass: every window message inserted-or-ignored, in
/// window order.
pub open spec fn stage_window(rows: Seq<RecordModel>, w: Seq<WindowMessage>, cid: u64) -> Seq<
    RecordModel,
>
    decreases w.len(),
{
    if w.len() == 0 {
        rows
    } else {
        stage_window(stage_rows(rows, staged_model(w[0], cid)), w.drop_first(), cid)
    }
}

/// How one author's entry looks after the registration pass: an existing
/// state is kept, a created one is pending.
pub proof fn lemma_register_authors_author(
    m: Map<u64, ConsentState>,
    w: Seq<WindowMessage>,
    a: u64,
)
    ensures
        m.contains_key(a) ==> register_authors(m, w).contains_key(a) && register_authors(
            m,
            w,
        )[a] == m[a],
        register_authors(m, w).contains_key(a) ==> m.contains_key(a) || register_authors(
            m,
            w,
        )[a] == ConsentState::Pending,
    decreases w.len(),
{
    if w.len() > 0 {
        lemma_register_authors_author(
            register_map(m, w[0].author_id, false),
            w.drop_first(),
            a,
        );
    }
}

/// The registration pass reaches every author of the window.
pub proof fn lemma_register_authors_contains(
    m: Map<u64, ConsentState>,
    w: Seq<WindowMessage>,
    k: int,
)
    requires
        0 <= k < w.len(),
    ensures
        register_authors(m, w).contains_key(w[k].author_id),
    decreases w.len(),
{
    let m1 = register_map(m, w[0].author_id, false);
    if k == 0 {
        lemma_register_authors_author(m1, w.drop_first(), w[0].author_id);
    } else {
        assert(w.drop_first()[k - 1] == w[k]);
        lemma_register_authors_contains(m1, w.drop_first(), k - 1);
    }
}

/// Well-formedness at the view level, and its preservation under operations
/// that touch neither the message rows nor the conversation table.
pub open spec fn view_wf(v: ArchiveView) -> bool {
    &&& store_wf(v.rows)
    &&& forall|j: int| 0 <= j < v.convs.len() ==> conv_wf(v.rows, #[trigger] v.convs[j])
}

proof fn lemma_wf_preserved(a: ArchiveView, b: ArchiveView)
    requires
        view_wf(a),
        b.rows == a.rows,
        b.convs == a.convs,
    ensures
        view_wf(b),
{
    assert forall|j: int| 0 <= j < b.convs.len() implies conv_wf(b.rows, #[trigger] b.convs[j])
        by {
        assert(b.convs[j] == a.convs[j]);
        assert(conv_wf(a.rows, a.convs[j]));
    }
}

/// Registration never creates nor removes an opted-out state, so it leaves
/// "does this author block archival" untouched.
pub proof fn lemma_register_preserves_denial(
    m: Map<u64, ConsentState>,
    w: Seq<WindowMessage>,
    a: u64,
)
    ensures
        author_denied(register_authors(m, w), a) == author_denied(m, a),
{
    lemma_register_authors_author(m, w, a);
}

pub proof fn lemma_first_denied_equiv(
    m1: Map<u64, ConsentState>,
    m2: Map<u64, ConsentState>,
    w: Seq<WindowMessage>,
)
    requires
        forall|a: u64| #[trigger] author_denied(m1, a) == author_denied(m2, a),
    ensures
        first_denied(m1, w) == first_denied(m2, w),
    decreases w.len(),
{
    if w.len() > 0 {
        assert(author_denied(m1, w[0].author_id) == author_denied(m2, w[0].author_id));
        lemma_first_denied_equiv(m1, m2, w.drop_first());
    }
}

pub proof fn lemma_stage_window_props(rows: Seq<RecordModel>, w: Seq<WindowMessage>, cid: u64)
    ensures
        store_wf(rows) ==> store_wf(stage_window(rows, w, cid)),
        forall|mid: u64, c2: u64| #![auto]
            has_record(rows, mid, c2) ==> has_record(stage_window(rows, w, cid), mid, c2),
        forall|mid: u64, c2: u64| #![auto]
            find_record(rows, mid, c2) is Some ==> find_record(
                stage_window(rows, w, cid),
                mid,
                c2,
            ) == find_record(rows, mid, c2),
        forall|k: int|
            0 <= k < w.len() ==> has_record(
                stage_window(rows, w, cid),
                #[trigger] w[k].message_id,
                cid,
            ),
        rows.len() <= stage_window(rows, w, cid).len() <= rows.len() + w.len(),
        distinct_window_ids(w) ==> (forall|k: int|
            0 <= k < w.len() && !has_record(rows, #[trigger] w[k].message_id, cid)
                ==> find_record(stage_window(rows, w, cid), w[k].message_id, cid) == Some(
                staged_model(w[k], cid),
            )),
    decreases w.len(),
{
    if w.len() > 0 {
        let m0 = staged_model(w[0], cid);
        let rows1 = stage_rows(rows, m0);
        assert forall|mid: u64, c2: u64| #![auto] true implies {
            &&& (has_record(rows, mid, c2) ==> has_record(rows1, mid, c2))
            &&& (find_record(rows, mid, c2) is Some ==> find_record(rows1, mid, c2)
                == find_record(rows, mid, c2))
        } by {
            lemma_stage_rows(rows, m0, mid, c2);
        }
        lemma_stage_rows(rows, m0, m0.message_id, m0.community_id);
        lemma_stage_window_props(rows1, w.drop_first(), cid);
        assert forall|k: int|
            0 <= k < w.len() implies has_record(
            stage_window(rows, w, cid),
            #[trigger] w[k].message_id,
            cid,
        ) by {
            if k == 0 {
                lemma_stage_rows(rows, m0, w[0].message_id, cid);
                assert(has_record(rows1, w[0].message_id, cid));
            } else {
                assert(w.drop_first()[k - 1] == w[k]);
            }
        }
        if distinct_window_ids(w) {
            assert(distinct_window_ids(w.drop_first())) by {
                assert forall|i: int, j: int|
                    0 <= i < j < w.drop_first().len() implies w.drop_first()[i].message_id
                    != w.drop_first()[j].message_id by {
                    assert(w.drop_first()[i] == w[i + 1]);
                    assert(w.drop_first()[j] == w[j + 1]);
                }
            }
            assert forall|k: int|
                0 <= k < w.len() && !has_record(rows, #[trigger] w[k].message_id, cid)
                    implies find_record(stage_window(rows, w, cid), w[k].message_id, cid)
                == Some(staged_model(w[k], cid)) by {
                lemma_stage_rows(rows, m0, w[k].message_id, cid);
                if k == 0 {
                    assert(find_record(rows1, w[0].message_id, cid) == Some(m0));
                } else {
                    assert(w.drop_first()[k - 1] == w[k]);
                    assert(w[0].message_id != w[k].message_id);
                    assert(!has_record(rows1, w[k].message_id, cid));
                }
            }
        }
    }
}

/// A conversation row is internally consistent against a store: its
/// reference list parses, and every referenced message exists under the
/// conversation's community.
pub open spec fn conv_wf(rows: Seq<RecordModel>, c: ConversationModel) -> bool {
    &&& parse_ids(c.message_refs) is Some
    &&& forall|k: int|
        0 <= k < parse_ids(c.message_refs).unwrap().len() ==> has_record(
            rows,
            #[trigger] parse_ids(c.message_refs).unwrap()[k],
            c.community_id,
        )
}

/// What a successful archive did to the state.
pub open spec fn archive_success(
    pre: ArchiveView,
    post: ArchiveView,
    community_id: u64,
    w: Seq<WindowMessage>,
    raw_tags: Seq<char>,
) -> bool {
    &&& post.users == register_authors(pre.users, w)
    &&& post.communities == pre.communities
    &&& post.rows == stage_window(pre.rows, w, community_id)
    &&& post.convs == pre.convs.push(
        (ConversationModel {
            message_refs: encode_ids(window_ids(w)),
            community_id,
            tags: if raw_tags.len() == 0 {
                None
            } else {
                Some(commas_for_spaces(raw_tags))
            },
        }),
    )
}

/// What a consent-refused archive did to the state: authors are registered,
/// but not one message row and not one conversation row survives.
pub open spec fn archive_denied_post(
    pre: ArchiveView,
    post: ArchiveView,
    w: Seq<WindowMessage>,
) -> bool {
    &&& post.users == register_authors(pre.users, w)
    &&& post.communities == pre.communities
    &&& post.rows == pre.rows
    &&& post.convs == pre.convs
}

/// Law: a consent-refused archive leaves no trace.  Whenever an archive
/// ends in `ConsentDenied`, the message store and the conversation table
/// afterwards are exactly what they were before — row counts included —
/// though the window authors' registrations persist.
pub proof fn lemma_denied_archive_leaves_no_trace(
    pre: ArchiveView,
    post: ArchiveView,
    w: Seq<WindowMessage>,
)
    requires
        archive_denied_post(pre, post, w),
    ensures
        post.rows == pre.rows,
        post.convs == pre.convs,
        post.rows.len() == pre.rows.len(),
        post.convs.len() == pre.convs.len(),
{
}

/// The whole system state.
pub struct Archive {
    pub(crate) users: ConsentRegistry,
    pub(crate) communities: DirectoryRegistry,
    pub(crate) store: MessageStore,
    pub(crate) conversations: Vec<Conversation>,
}

impl View for Archive {
    type V = ArchiveView;

    closed spec fn view(&self) -> ArchiveView {
        ArchiveView {
            users: self.users@,
            communities: self.communities@,
            rows: self.store@,
            convs: conversation_models(self.conversations@),
        }
    }
}

/// Crate-internal bridge between the abstract view and the fields, for the
/// renderer living in its own module.
pub(crate) proof fn lemma_view_parts(a: &Archive)
    ensures
        a@.users == a.users@,
        a@.communities == a.communities@,
        a@.rows == a.store@,
        a@.convs == conversation_models(a.conversations@),
{
}

fn clone_opt_string(o: &Option<String>) -> (r: Option<String>)
    ensures
        r.deep_view() == o.deep_view(),
{
    match o {
        Some(s) => Some(s.clone()),
        None => None,
    }
}

impl Archive {
    /// The store is deduplicated and every conversation ever created refers
    /// only to messages present under its community.
    pub open spec fn wf(&self) -> bool {
        view_wf(self@)
    }

    /// A fresh, empty system state.
    pub fn new() -> (r: Self)
        ensures
            r.wf(),
            r@.users == Map::<u64, ConsentState>::empty(),
            r@.communities == Map::<u64, CommunityModel>::empty(),
            r@.rows == Seq::<RecordModel>::empty(),
            r@.convs == Seq::<ConversationModel>::empty(),
    {
        let r = Archive {
            users: ConsentRegistry::new(),
            communities: DirectoryRegistry::new(),
            store: MessageStore::new(),
            conversations: Vec::new(),
        };
        proof {
            assert(r@.convs =~= Seq::<ConversationModel>::empty());
        }
        r
    }

    /// Registers a user; see `ConsentRegistry::register`.
    pub fn register_user(&mut self, user_id: u64, is_automated: bool) -> (created: bool)
        requires
            old(self).wf(),
        ensures
            final(self).wf(),
            final(self)@.users == register_map(old(self)@.users, user_id, is_automated),
            final(self)@.communities == old(self)@.communities,
            final(self)@.rows == old(self)@.rows,
            final(self)@.convs == old(self)@.convs,
            created == !old(self)@.users.contains_key(user_id),
    {
        let created = self.users.register(user_id, is_automated);
        proof {
            lemma_wf_preserved(old(self)@, self@);
        }
        created
    }

    /// Current consent of a user; see `ConsentRegistry::get`.
    pub fn user_consent(&self, user_id: u64) -> (r: Result<ConsentState, ArchiveError>)
        ensures
            self@.users.contains_key(user_id) ==> r == Ok::<ConsentState, ArchiveError>(
                self@.users[user_id],
            ),
            !self@.users.contains_key(user_id) ==> r == Err::<ConsentState, ArchiveError>(
                ArchiveError::NotFound,
            ),
    {
        self.users.get(user_id)
    }

    /// Externally driven consent update; see `ConsentRegistry::set_consent`.
    pub fn set_user_consent(&mut self, user_id: u64, state: ConsentState) -> (r: Result<
        (),
        ArchiveError,
    >)
        requires
            old(self).wf(),
        ensures
            final(self).wf(),
            final(self)@.communities == old(self)@.communities,
            final(self)@.rows == old(self)@.rows,
            final(self)@.convs == old(self)@.convs,
            old(self)@.users.contains_key(user_id) ==> r == Ok::<(), ArchiveError>(())
                && final(self)@.users == old(self)@.users.insert(user_id, state),
            !old(self)@.users.contains_key(user_id) ==> r == Err::<(), ArchiveError>(
                ArchiveError::NotFound,
            ) && final(self)@.users == old(self)@.users,
    {
        let r = self.users.set_consent(user_id, state);
        proof {
            lemma_wf_preserved(old(self)@, self@);
        }
        r
    }

    /// Registers a community; see `DirectoryRegistry::register`.
    pub fn register_community(
        &mut self,
        community_id: u64,
        name: String,
        link: Option<String>,
    ) -> (created: bool)
        requires
            old(self).wf(),
        ensures
            final(self).wf(),
            final(self)@.users == old(self)@.users,
            final(self)@.rows == old(self)@.rows,
            final(self)@.convs == old(self)@.convs,
            created == !old(self)@.communities.contains_key(community_id),
            old(self)@.communities.contains_key(community_id) ==> final(self)@.communities
                == old(self)@.communities,
            !old(self)@.communities.contains_key(community_id) ==> final(self)@.communities
                == old(self)@.communities.insert(
                community_id,
                (CommunityModel { name: name@, link: link.deep_view(), tags: None }),
            ),
    {
        let created = self.communities.register(community_id, name, link);
        proof {
            lemma_wf_preserved(old(self)@, self@);
        }
        created
    }

    /// Administrator write path of community tags; see
    /// `DirectoryRegistry::set_tags`.
    pub fn set_community_tags(&mut self, community_id: u64, raw: &str) -> (r: Result<
        (),
        ArchiveError,
    >)
        requires
            old(self).wf(),
        ensures
            final(self).wf(),
            final(self)@.users == old(self)@.users,
            final(self)@.rows == old(self)@.rows,
            final(self)@.convs == old(self)@.convs,
            !old(self)@.communities.contains_key(community_id) ==> r == Err::<
                (),
                ArchiveError,
            >(ArchiveError::NotFound) && final(self)@.communities == old(self)@.communities,
            old(self)@.communities.contains_key(community_id) ==> r == Ok::<(), ArchiveError>(
                (),
            ) && final(self)@.communities == old(self)@.communities.insert(
                community_id,
                (CommunityModel {
                    name: old(self)@.communities[community_id].name,
                    link: old(self)@.communities[community_id].link,
                    tags: if raw@.len() == 0 {
                        None
                    } else {
                        Some(raw@)
                    },
                }),
            ),
    {
        let r = self.communities.set_tags(community_id, raw);
        proof {
            lemma_wf_preserved(old(self)@, self@);
        }
        r
    }

    /// Number of message rows held.
    pub fn message_count(&self) -> (n: usize)
        ensures
            n == self@.rows.len(),
    {
        self.store.row_count()
    }

    /// Number of conversations ever archived.
    pub fn conversation_count(&self) -> (n: usize)
        ensures
            n == self@.convs.len(),
    {
        self.conversations.len()
    }

    /// Captures a window of messages as one conversation, atomically.
    ///
    /// The window is given oldest first (an adapter that receives history
    /// newest first must reverse it before calling).  Every author is
    /// ensured a consent entry; those registrations persist whatever the
    /// outcome.  The operation fails with `InvalidWindow` for an empty or
    /// oversized window, and with `ConsentDenied` naming the first
    /// opted-out author in window order — in which case neither the message
    /// store nor the conversation table changes.  On success the new
    /// conversation's id (one past the previous count) is returned, every
    /// window message is staged insert-or-ignore, and the conversation row
    /// holds the encoded reference list, the community id, and the tags
    /// (space-delimited input stored comma-delimited; empty stored as
    /// absent).
    pub fn archive(
        &mut self,
        community_id: u64,
        window: &Vec<WindowMessage>,
        raw_tags: &str,
    ) -> (r: Result<u64, ArchiveError>)
        requires
            old(self).wf(),
            old(self)@.convs.len() < usize::MAX,
        ensures
            final(self).wf(),
            !(1 <= window@.len() <= 255) ==> r == Err::<u64, ArchiveError>(
                ArchiveError::InvalidWindow,
            ) && final(self)@ == old(self)@,
            (1 <= window@.len() <= 255) ==> match first_denied(old(self)@.users, window@) {
                Some(a) => r == Err::<u64, ArchiveError>(ArchiveError::ConsentDenied(a))
                    && archive_denied_post(old(self)@, final(self)@, window@),
                None => r == Ok::<u64, ArchiveError>(((old(self)@.convs.len() + 1) as u64))
                    && archive_success(
                    old(self)@,
                    final(self)@,
                    community_id,
                    window@,
                    raw_tags@,
                ),
            },
    {
        let n = window.len();
        if n == 0 || n > 255 {
            return Err(ArchiveError::InvalidWindow);
        }
        let ghost pre = self@;

        // Ensure a consent entry for every author of the window.
        let mut i: usize = 0;
        proof {
            assert(window@.skip(0) =~= window@);
        }
        while i < n
            invariant
                i <= n,
                n == window@.len(),
                pre == old(self)@,
                self.wf(),
                register_authors(pre.users, window@) == register_authors(
                    self@.users,
                    window@.skip(i as int),
                ),
                self@.communities == pre.communities,
                self@.rows == pre.rows,
                self@.convs == pre.convs,
            decreases n - i,
        {
            proof {
                assert(window@.skip(i as int)[0] == window@[i as int]);
                assert(window@.skip(i as int).drop_first() =~= window@.skip(i + 1));
            }
            let ghost before = self@;
            self.users.register(window[i].author_id, false);
            proof {
                lemma_wf_preserved(before, self@);
            }
            i += 1;
        }
        proof {
            assert(window@.skip(n as int) =~= Seq::<WindowMessage>::empty());
        }
        let ghost reg_users = self@.users;

        // Validate consent for every message in window order; the first
        // explicitly opted-out author aborts the whole operation.
        proof {
            assert forall|k: int|
                0 <= k < n implies reg_users.contains_key(
                #[trigger] window@[k].author_id,
            ) by {
                lemma_register_authors_contains(pre.users, window@, k);
            }
            assert forall|a: u64| #[trigger]
                author_denied(reg_users, a) == author_denied(pre.users, a) by {
                lemma_register_preserves_denial(pre.users, window@, a);
            }
            lemma_first_denied_equiv(reg_users, pre.users, window@);
            assert(window@.skip(0) =~= window@);
        }
        let mut j: usize = 0;
        while j < n
            invariant
                j <= n,
                1 <= n <= 255,
                n == window@.len(),
                pre == old(self)@,
                self.wf(),
                self@.users == reg_users,
                reg_users == register_authors(pre.users, window@),
                self@.communities == pre.communities,
                self@.rows == pre.rows,
                self@.convs == pre.convs,
                forall|k: int|
                    0 <= k < n ==> reg_users.contains_key(#[trigger] window@[k].author_id),
                first_denied(reg_users, window@) == first_denied(
                    reg_users,
                    window@.skip(j as int),
                ),
                first_denied(reg_users, window@) == first_denied(pre.users, window@),
            decreases n - j,
        {
            proof {
                assert(window@.skip(j as int)[0] == window@[j as int]);
                assert(window@.skip(j as int).drop_first() =~= window@.skip(j + 1));
            }
            let author = window[j].author_id;
            match self.users.get(author) {
                Ok(state) => {
                    if state == ConsentState::OptedOut {
                        return Err(ArchiveError::ConsentDenied(author));
                    }
                },
                Err(_) => {
                    proof {
                        assert(false);
                    }
                    return Err(ArchiveError::StorageFailure);
                },
            }
            j += 1;
        }
        proof {
            assert(window@.skip(n as int) =~= Seq::<WindowMessage>::empty());
        }

        // Stage every message of the window, dedup-safe.
        let mut k: usize = 0;
        proof {
            assert(window@.skip(0) =~= window@);
        }
        while k < n
            invariant
                k <= n,
                n == window@.len(),
                self@.users == reg_users,
                self@.communities == pre.communities,
                self@.convs == pre.convs,
                store_wf(self@.rows),
                stage_window(pre.rows, window@, community_id) == stage_window(
                    self@.rows,
                    window@.skip(k as int),
                    community_id,
                ),
            decreases n - k,
        {
            proof {
                assert(window@.skip(k as int)[0] == window@[k as int]);
                assert(window@.skip(k as int).drop_first() =~= window@.skip(k + 1));
            }
            let m = &window[k];
            let rec = MessageRecord {
                message_id: m.message_id,
                community_id,
                author_name: clone_opt_string(&m.author_name),
                author_automated: m.author_automated,
                content: m.content.clone(),
                timestamp_ms: m.timestamp_ms,
            };
            proof {
                assert(record_model(rec) =~= staged_model(window@[k as int], community_id));
            }
            self.store.stage(rec);
            k += 1;
        }
        proof {
            assert(window@.skip(n as int) =~= Seq::<WindowMessage>::empty());
        }
        let ghost staged = self@.rows;

        // Write the conversation row: ordered reference list, community,
        // optional tags.
        let mut ids: Vec<u64> = Vec::new();
        let mut t: usize = 0;
        proof {
            assert(ids@ =~= window_ids(window@).take(0));
        }
        while t < n
            invariant
                t <= n,
                n == window@.len(),
                ids@ == window_ids(window@).take(t as int),
            decreases n - t,
        {
            ids.push(window[t].message_id);
            proof {
                assert(ids@ =~= window_ids(window@).take(t + 1));
            }
            t += 1;
        }
        proof {
            assert(window_ids(window@).take(n as int) =~= window_ids(window@));
        }
        let refs = encode_message_ids(&ids);
        let tags = normalize_tags(raw_tags);
        let conv = Conversation { message_refs: refs, community_id, tags };
        let ghost conv_model = conversation_model(conv);
        let ghost prev_convs = self@.convs;
        self.conversations.push(conv);
        let count = self.conversations.len();
        proof {
            assert(self@.convs =~= prev_convs.push(conv_model));
            assert(conv_model =~= (ConversationModel {
                message_refs: encode_ids(window_ids(window@)),
                community_id,
                tags: if raw_tags@.len() == 0 {
                    None
                } else {
                    Some(commas_for_spaces(raw_tags@))
                },
            }));
            lemma_stage_window_props(pre.rows, window@, community_id);
            lemma_parse_encode_round_trip(window_ids(window@));
            assert(conv_wf(self@.rows, conv_model));
            assert forall|jj: int|
                0 <= jj < self@.convs.len() implies conv_wf(
                self@.rows,
                #[trigger] self@.convs[jj],
            ) by {
                if jj < prev_convs.len() {
                    assert(conv_wf(pre.rows, prev_convs[jj]));
                    let c = prev_convs[jj];
                    assert forall|kk: int|
                        0 <= kk < parse_ids(c.message_refs).unwrap().len()
                            implies has_record(
                        self@.rows,
                        #[trigger] parse_ids(c.message_refs).unwrap()[kk],
                        c.community_id,
                    ) by {
                        assert(has_record(
                            pre.rows,
                            parse_ids(c.message_refs).unwrap()[kk],
                            c.community_id,
                        ));
                    }
                }
            }
        }
        Ok(count as u64)
    }
}

} // verus!
