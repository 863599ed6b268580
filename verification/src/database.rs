//! The persistent-store model: subscription records, the chat reverse index,
//! and the per-user sets of already-delivered content ids.
//!
//! The store is a set of three document collections per provider, exactly the
//! documents the bot keeps in its document database.  Every mutation has
//! add-to-set / pull-from-set semantics, so the same operation applied twice
//! leaves the store as the first application left it.  The real database
//! lives behind network I/O and is synchronised outside this crate; the model
//! here is the source of truth for what each operation means.

use vstd::prelude::*;

use crate::api::{Api, SubscriptionType};

verus! {

/// One already-delivered content id together with the time it was recorded.
#[derive(Debug)]
pub struct ContentRecord {
    pub id: String,
    pub delivered_at: u64,
}

/// A watched feed user: per subscription kind, the chats subscribed to it.
#[derive(Debug)]
pub struct User {
    pub id: String,
    pub subscribed_chats_to_likes: Option<Vec<String>>,
    pub subscribed_chats_to_content: Option<Vec<String>>,
}

/// Reverse index: per subscription kind, the feed users a chat follows.
#[derive(Debug)]
pub struct ChatInfo {
    pub chat_id: String,
    pub subscribed_for_likes_to: Option<Vec<String>>,
    pub subscribed_for_content_to: Option<Vec<String>>,
}

/// The delivered-content document of one feed user.
#[derive(Debug)]
pub struct DataStorage {
    pub id: String,
    pub liked_content: Option<Vec<ContentRecord>>,
    pub processed_content: Option<Vec<ContentRecord>>,
}

/// The view of an optional list of ids: an absent field reads as empty.
pub open spec fn opt_list_view(o: Option<Vec<String>>) -> Seq<Seq<char>> {
    match o {
        Some(v) => v.deep_view(),
        None => Seq::empty(),
    }
}

/// The ids of an optional list of delivery records, in insertion order.
pub open spec fn opt_record_ids(o: Option<Vec<ContentRecord>>) -> Seq<Seq<char>> {
    match o {
        Some(v) => v@.map_values(|r: ContentRecord| r.id@),
        None => Seq::empty(),
    }
}

/// Add-to-set: append `v` unless it is already present.
pub open spec fn add_to_set_spec(s: Seq<Seq<char>>, v: Seq<char>) -> Seq<Seq<char>> {
    if s.contains(v) {
        s
    } else {
        s.push(v)
    }
}

impl User {
    /// The chat list for one subscription kind, as a sequence of chat ids.
    pub open spec fn spec_chats(&self, stype: SubscriptionType) -> Seq<Seq<char>> {
        match stype {
            SubscriptionType::Likes => opt_list_view(self.subscribed_chats_to_likes),
            SubscriptionType::Content => opt_list_view(self.subscribed_chats_to_content),
        }
    }

    pub open spec fn wf(&self) -> bool {
        &&& self.spec_chats(SubscriptionType::Likes).no_duplicates()
        &&& self.spec_chats(SubscriptionType::Content).no_duplicates()
    }

    /// The chats subscribed to this user for the given kind.
    pub fn get_chats_by_subscription_type(&self, stype: SubscriptionType) -> (chats: &Option<
        Vec<String>,
    >)
        ensures
            opt_list_view(*chats) == self.spec_chats(stype),
    {
        match stype {
            SubscriptionType::Likes => &self.subscribed_chats_to_likes,
            SubscriptionType::Content => &self.subscribed_chats_to_content,
        }
    }
}

impl ChatInfo {
    /// The feed users this chat follows for one subscription kind.
    pub open spec fn spec_users(&self, stype: SubscriptionType) -> Seq<Seq<char>> {
        match stype {
            SubscriptionType::Likes => opt_list_view(self.subscribed_for_likes_to),
            SubscriptionType::Content => opt_list_view(self.subscribed_for_content_to),
        }
    }

    pub open spec fn wf(&self) -> bool {
        &&& self.spec_users(SubscriptionType::Likes).no_duplicates()
        &&& self.spec_users(SubscriptionType::Content).no_duplicates()
    }
}

impl DataStorage {
    /// The delivered content ids for one subscription kind.
    pub open spec fn spec_record_ids(&self, stype: SubscriptionType) -> Seq<Seq<char>> {
        match stype {
            SubscriptionType::Likes => opt_record_ids(self.liked_content),
            SubscriptionType::Content => opt_record_ids(self.processed_content),
        }
    }

    pub open spec fn wf(&self) -> bool {
        &&& self.spec_record_ids(SubscriptionType::Likes).no_duplicates()
        &&& self.spec_record_ids(SubscriptionType::Content).no_duplicates()
    }

    /// The delivery records for one subscription kind.
    pub fn get_videos_by_subscription_type(&self, stype: SubscriptionType) -> (records: &Option<
        Vec<ContentRecord>,
    >)
        ensures
            opt_record_ids(*records) == self.spec_record_ids(stype),
    {
        match stype {
            SubscriptionType::Likes => &self.liked_content,
            SubscriptionType::Content => &self.processed_content,
        }
    }
}

impl SubscriptionType {
    /// The user-document field holding the subscribed chats of this kind.
    pub fn as_subscription_string(&self) -> (r: &'static str)
        ensures
            *self == SubscriptionType::Likes ==> r@ == "subscribed_chats_to_likes"@,
            *self == SubscriptionType::Content ==> r@ == "subscribed_chats_to_content"@,
    {
        match *self {
            SubscriptionType::Likes => "subscribed_chats_to_likes",
            SubscriptionType::Content => "subscribed_chats_to_content",
        }
    }

    /// The chat-document field holding the followed users of this kind.
    pub fn as_chat_string(&self) -> (r: &'static str)
        ensures
            *self == SubscriptionType::Likes ==> r@ == "subscribed_for_likes_to"@,
            *self == SubscriptionType::Content ==> r@ == "subscribed_for_content_to"@,
    {
        match *self {
            SubscriptionType::Likes => "subscribed_for_likes_to",
            SubscriptionType::Content => "subscribed_for_content_to",
        }
    }

    /// The content-document field holding the delivery records of this kind.
    pub fn as_storage_string(&self) -> (r: &'static str)
        ensures
            *self == SubscriptionType::Likes ==> r@ == "liked_content"@,
            *self == SubscriptionType::Content ==> r@ == "processed_content"@,
    {
        match *self {
            SubscriptionType::Likes => "liked_content",
            SubscriptionType::Content => "processed_content",
        }
    }
}

/// The index of the first element of `ids` equal to `id`, or -1 if none is.
pub open spec fn find_idx(ids: Seq<Seq<char>>, id: Seq<char>) -> int
    decreases ids.len(),
{
    if ids.len() == 0 {
        -1
    } else if ids[0] == id {
        0
    } else {
        let rest = find_idx(ids.drop_first(), id);
        if rest < 0 {
            -1
        } else {
            rest + 1
        }
    }
}

pub proof fn lemma_find_idx_props(ids: Seq<Seq<char>>, id: Seq<char>)
    ensures
        find_idx(ids, id) == -1 ==> forall|j: int| 0 <= j < ids.len() ==> ids[j] != id,
        find_idx(ids, id) >= 0 ==> {
            &&& find_idx(ids, id) < ids.len()
            &&& ids[find_idx(ids, id)] == id
            &&& forall|j: int| 0 <= j < find_idx(ids, id) ==> ids[j] != id
        },
    decreases ids.len(),
{
    if ids.len() > 0 && ids[0] != id {
        lemma_find_idx_props(ids.drop_first(), id);
        let rest = find_idx(ids.drop_first(), id);
        assert(forall|j: int|
            0 <= j < ids.drop_first().len() ==> #[trigger] ids.drop_first()[j] == ids[j + 1]);
        if rest == -1 {
            assert forall|j: int| 0 <= j < ids.len() implies ids[j] != id by {
                if j > 0 {
                    assert(ids.drop_first()[j - 1] != id);
                }
            }
        } else {
            assert(ids[rest + 1] == ids.drop_first()[rest]);
            assert forall|j: int| 0 <= j < rest + 1 implies ids[j] != id by {
                if j > 0 {
                    assert(ids.drop_first()[j - 1] != id);
                }
            }
        }
    }
}

/// `find_idx` lands on `i` when `i` is the first position holding `id`.
pub proof fn lemma_find_idx_first(ids: Seq<Seq<char>>, id: Seq<char>, i: int)
    requires
        0 <= i < ids.len(),
        ids[i] == id,
        forall|j: int| 0 <= j < i ==> ids[j] != id,
    ensures
        find_idx(ids, id) == i,
    decreases i,
{
    if i > 0 {
        assert(forall|j: int| 0 <= j < ids.drop_first().len() ==> ids.drop_first()[j] == ids[j + 1]);
        lemma_find_idx_first(ids.drop_first(), id, i - 1);
    }
}

/// `find_idx` is -1 when no position holds `id`.
pub proof fn lemma_find_idx_none(ids: Seq<Seq<char>>, id: Seq<char>)
    requires
        forall|j: int| 0 <= j < ids.len() ==> ids[j] != id,
    ensures
        find_idx(ids, id) == -1,
    decreases ids.len(),
{
    if ids.len() > 0 {
        assert(forall|j: int| 0 <= j < ids.drop_first().len() ==> ids.drop_first()[j] == ids[j + 1]);
        lemma_find_idx_none(ids.drop_first(), id);
    }
}

/// Appending a document with a different id does not change where `u` is found.
pub proof fn lemma_find_idx_push_other(ids: Seq<Seq<char>>, id: Seq<char>, u: Seq<char>)
    requires
        u != id,
    ensures
        find_idx(ids.push(id), u) == find_idx(ids, u),
    decreases ids.len(),
{
    if ids.len() == 0 {
        let t = ids.push(id);
        assert(ids =~= Seq::<Seq<char>>::empty());
        assert(find_idx(ids, u) == -1);
        assert(t[0] == id);
        assert(t.drop_first() =~= Seq::<Seq<char>>::empty());
        assert(find_idx(t.drop_first(), u) == -1);
        assert(find_idx(t, u) == -1);
    } else {
        let t = ids.push(id);
        assert(t.len() > 0 && t[0] == ids[0]);
        assert(t.drop_first() =~= ids.drop_first().push(id));
        lemma_find_idx_push_other(ids.drop_first(), id, u);
        if ids[0] == u {
            assert(find_idx(t, u) == 0);
            assert(find_idx(ids, u) == 0);
        } else {
            let rest = find_idx(t.drop_first(), u);
            assert(find_idx(t, u) == (if rest < 0 {
                -1
            } else {
                rest + 1
            }));
            assert(find_idx(ids, u) == (if find_idx(ids.drop_first(), u) < 0 {
                -1
            } else {
                find_idx(ids.drop_first(), u) + 1
            }));
        }
    }
}

pub open spec fn user_ids(users: Seq<User>) -> Seq<Seq<char>> {
    users.map_values(|u: User| u.id@)
}

pub open spec fn chat_ids(chats: Seq<ChatInfo>) -> Seq<Seq<char>> {
    chats.map_values(|c: ChatInfo| c.chat_id@)
}

pub open spec fn data_ids(docs: Seq<DataStorage>) -> Seq<Seq<char>> {
    docs.map_values(|d: DataStorage| d.id@)
}

/// One provider's namespace of the store: its three collections.
#[derive(Debug)]
pub struct ProviderStore {
    pub users: Vec<User>,
    pub chats: Vec<ChatInfo>,
    pub content: Vec<DataStorage>,
}

/// The chat ids subscribed to user `u` for kind `k` (empty if `u` is unknown).
pub open spec fn chats_of(s: ProviderStore, u: Seq<char>, k: SubscriptionType) -> Seq<Seq<char>> {
    let i = find_idx(user_ids(s.users@), u);
    if i >= 0 {
        s.users@[i].spec_chats(k)
    } else {
        Seq::empty()
    }
}

/// The user ids chat `c` follows for kind `k` (empty if `c` is unknown).
pub open spec fn users_of_chat(s: ProviderStore, c: Seq<char>, k: SubscriptionType) -> Seq<
    Seq<char>,
> {
    let i = find_idx(chat_ids(s.chats@), c);
    if i >= 0 {
        s.chats@[i].spec_users(k)
    } else {
        Seq::empty()
    }
}

/// The content ids already delivered for user `u` and kind `k`.
pub open spec fn delivered_ids(s: ProviderStore, u: Seq<char>, k: SubscriptionType) -> Seq<
    Seq<char>,
> {
    let i = find_idx(data_ids(s.content@), u);
    if i >= 0 {
        s.content@[i].spec_record_ids(k)
    } else {
        Seq::empty()
    }
}

pub open spec fn subscribed(s: ProviderStore, u: Seq<char>, c: Seq<char>, k: SubscriptionType) -> bool {
    chats_of(s, u, k).contains(c)
}

pub open spec fn is_delivered_spec(
    s: ProviderStore,
    u: Seq<char>,
    k: SubscriptionType,
    content_id: Seq<char>,
) -> bool {
    delivered_ids(s, u, k).contains(content_id)
}

impl ProviderStore {
    pub open spec fn wf(&self) -> bool {
        &&& user_ids(self.users@).no_duplicates()
        &&& chat_ids(self.chats@).no_duplicates()
        &&& data_ids(self.content@).no_duplicates()
        &&& forall|i: int| 0 <= i < self.users@.len() ==> (#[trigger] self.users@[i]).wf()
        &&& forall|i: int| 0 <= i < self.chats@.len() ==> (#[trigger] self.chats@[i]).wf()
        &&& forall|i: int| 0 <= i < self.content@.len() ==> (#[trigger] self.content@[i]).wf()
    }

    pub fn new() -> (s: ProviderStore)
        ensures
            s.wf(),
            s.users@ =~= Seq::<User>::empty(),
            s.chats@ =~= Seq::<ChatInfo>::empty(),
            s.content@ =~= Seq::<DataStorage>::empty(),
    {
        ProviderStore { users: Vec::new(), chats: Vec::new(), content: Vec::new() }
    }
}

/// Compares two strings by their character sequences.
fn str_eq(a: &str, b: &str) -> (r: bool)
    ensures
        r == (a@ == b@),
{
    let sa = String::from_str(a);
    let sb = String::from_str(b);
    sa == sb
}

/// Whether `list` holds a string equal to `value`.
fn contains_str(list: &Vec<String>, value: &str) -> (r: bool)
    ensures
        r == list.deep_view().contains(value@),
{
    let n = list.len();
    let mut i: usize = 0;
    while i < n
        invariant
            n == list.len(),
            0 <= i <= n,
            forall|j: int| 0 <= j < i ==> list.deep_view()[j] != value@,
        decreases n - i,
    {
        if str_eq(list[i].as_str(), value) {
            assert(list.deep_view()[i as int] == value@);
            return true;
        }
        i += 1;
    }
    false
}

impl ProviderStore {
    /// The index of the user document with id `id`, if one exists.
    fn find_user(&self, id: &str) -> (r: Option<usize>)
        ensures
            match r {
                Some(i) => i == find_idx(user_ids(self.users@), id@),
                None => find_idx(user_ids(self.users@), id@) == -1,
            },
    {
        let n = self.users.len();
        let mut i: usize = 0;
        while i < n
            invariant
                n == self.users.len(),
                0 <= i <= n,
                forall|j: int| 0 <= j < i ==> user_ids(self.users@)[j] != id@,
            decreases n - i,
        {
            if str_eq(self.users[i].id.as_str(), id) {
                proof {
                    lemma_find_idx_first(user_ids(self.users@), id@, i as int);
                }
                return Some(i);
            }
            i += 1;
        }
        proof {
            lemma_find_idx_none(user_ids(self.users@), id@);
        }
        None
    }

    /// The index of the chat document with id `chat_id`, if one exists.
    fn find_chat(&self, chat_id: &str) -> (r: Option<usize>)
        ensures
            match r {
                Some(i) => i == find_idx(chat_ids(self.chats@), chat_id@),
                None => find_idx(chat_ids(self.chats@), chat_id@) == -1,
            },
    {
        let n = self.chats.len();
        let mut i: usize = 0;
        while i < n
            invariant
                n == self.chats.len(),
                0 <= i <= n,
                forall|j: int| 0 <= j < i ==> chat_ids(self.chats@)[j] != chat_id@,
            decreases n - i,
        {
            if str_eq(self.chats[i].chat_id.as_str(), chat_id) {
                proof {
                    lemma_find_idx_first(chat_ids(self.chats@), chat_id@, i as int);
                }
                return Some(i);
            }
            i += 1;
        }
        proof {
            lemma_find_idx_none(chat_ids(self.chats@), chat_id@);
        }
        None
    }

    /// The index of the delivered-content document with id `id`, if one exists.
    fn find_data(&self, id: &str) -> (r: Option<usize>)
        ensures
            match r {
                Some(i) => i == find_idx(data_ids(self.content@), id@),
                None => find_idx(data_ids(self.content@), id@) == -1,
            },
    {
        let n = self.content.len();
        let mut i: usize = 0;
        while i < n
            invariant
                n == self.content.len(),
                0 <= i <= n,
                forall|j: int| 0 <= j < i ==> data_ids(self.content@)[j] != id@,
            decreases n - i,
        {
            if str_eq(self.content[i].id.as_str(), id) {
                proof {
                    lemma_find_idx_first(data_ids(self.content@), id@, i as int);
                }
                return Some(i);
            }
            i += 1;
        }
        proof {
            lemma_find_idx_none(data_ids(self.content@), id@);
        }
        None
    }

    /// Whether chat `chat_id` is subscribed to user `user_id` for kind `stype`.
    pub fn is_user_subscribed(&self, user_id: &str, chat_id: &str, stype: SubscriptionType) -> (r:
        bool)
        ensures
            r == subscribed(*self, user_id@, chat_id@, stype),
    {
        proof {
            lemma_find_idx_props(user_ids(self.users@), user_id@);
        }
        match self.find_user(user_id) {
            Some(i) => {
                match self.users[i].get_chats_by_subscription_type(stype) {
                    Some(chats) => contains_str(chats, chat_id),
                    None => false,
                }
            },
            None => false,
        }
    }

    /// Whether user `user_id` has at least one subscriber chat for `stype`.
    pub fn is_user_exist(&self, user_id: &str, stype: SubscriptionType) -> (r: bool)
        ensures
            r == (chats_of(*self, user_id@, stype).len() > 0),
    {
        proof {
            lemma_find_idx_props(user_ids(self.users@), user_id@);
        }
        match self.find_user(user_id) {
            Some(i) => {
                match self.users[i].get_chats_by_subscription_type(stype) {
                    Some(chats) => chats.len() > 0,
                    None => false,
                }
            },
            None => false,
        }
    }

    /// Whether content `content_id` was already delivered for `(user_id, stype)`.
    #[verifier::loop_isolation(false)]
    pub fn is_content_showed(&self, content_id: &str, user_id: &str, stype: SubscriptionType) -> (r:
        bool)
        ensures
            r == is_delivered_spec(*self, user_id@, stype, content_id@),
    {
        proof {
            lemma_find_idx_props(data_ids(self.content@), user_id@);
        }
        match self.find_data(user_id) {
            Some(i) => {
                match self.content[i].get_videos_by_subscription_type(stype) {
                    Some(records) => {
                        let n = records.len();
                        let mut j: usize = 0;
                        while j < n
                            invariant
                                n == records.len(),
                                0 <= j <= n,
                                forall|t: int| 0 <= t < j ==> (#[trigger] records@[t]).id@
                                    != content_id@,
                            decreases n - j,
                        {
                            if str_eq(records[j].id.as_str(), content_id) {
                                proof {
                                    let ids = records@.map_values(|r: ContentRecord| r.id@);
                                    assert(ids[j as int] == content_id@);
                                    assert(ids.contains(content_id@));
                                }
                                return true;
                            }
                            j += 1;
                        }
                        proof {
                            let ids = records@.map_values(|r: ContentRecord| r.id@);
                            assert forall|t: int| 0 <= t < ids.len() implies ids[t] != content_id@
                            by {
                                assert(ids[t] == records@[t].id@);
                            }
                        }
                        false
                    },
                    None => false,
                }
            },
            None => false,
        }
    }

    /// The chat reverse-index document for `chat_id`, if one exists.
    pub fn get_chat_info(&self, chat_id: &str) -> (r: Option<&ChatInfo>)
        ensures
            match r {
                Some(c) => {
                    &&& find_idx(chat_ids(self.chats@), chat_id@) >= 0
                    &&& *c == self.chats@[find_idx(chat_ids(self.chats@), chat_id@)]
                },
                None => find_idx(chat_ids(self.chats@), chat_id@) == -1,
            },
    {
        match self.find_chat(chat_id) {
            Some(i) => {
                proof {
                    lemma_find_idx_props(chat_ids(self.chats@), chat_id@);
                }
                Some(&self.chats[i])
            },
            None => None,
        }
    }

    /// Every watched user of this provider, for the scheduler to walk.
    pub fn get_users(&self) -> (r: &Vec<User>)
        ensures
            r == &self.users,
    {
        &self.users
    }
}

impl ProviderStore {
    /// Add-to-set of `chat_id` into the chat list of user `id` for `stype`,
    /// creating the user document when it is missing (upsert).
    fn add_user_chat(&mut self, id: &str, chat_id: &str, stype: SubscriptionType)
        requires
            old(self).wf(),
        ensures
            final(self).wf(),
            final(self).chats == old(self).chats,
            final(self).content == old(self).content,
            chats_of(*final(self), id@, stype) == (if subscribed(
                *old(self),
                id@,
                chat_id@,
                stype,
            ) {
                chats_of(*old(self), id@, stype)
            } else {
                chats_of(*old(self), id@, stype).push(chat_id@)
            }),
            forall|u2: Seq<char>, k2: SubscriptionType|
                !(u2 == id@ && k2 == stype) ==> chats_of(*final(self), u2, k2) == chats_of(
                    *old(self),
                    u2,
                    k2,
                ),
    {
        let ghost old_users = self.users@;
        match self.find_user(id) {
            Some(i) => {
                proof {
                    lemma_find_idx_props(user_ids(old_users), id@);
                }
                let u = self.users.remove(i);
                let User { id: uid, subscribed_chats_to_likes: lk, subscribed_chats_to_content: ct }
                    = u;
                let (lk, ct) = match stype {
                    SubscriptionType::Likes => (push_unique(lk, chat_id), ct),
                    SubscriptionType::Content => (lk, push_unique(ct, chat_id)),
                };
                let u2 = User {
                    id: uid,
                    subscribed_chats_to_likes: lk,
                    subscribed_chats_to_content: ct,
                };
                self.users.insert(i, u2);
                proof {
                    assert(self.users@ =~= old_users.update(i as int, u2));
                    assert(user_ids(self.users@) =~= user_ids(old_users));
                    assert forall|t: int| 0 <= t < self.users@.len() implies (#[trigger] self
                        .users@[t]).wf() by {
                        if t != i {
                            assert(self.users@[t] == old_users[t]);
                        }
                    }
                    assert forall|u2q: Seq<char>, k2: SubscriptionType|
                        !(u2q == id@ && k2 == stype) implies chats_of(*self, u2q, k2) == chats_of(
                        *old(self),
                        u2q,
                        k2,
                    ) by {
                        lemma_find_idx_props(user_ids(old_users), u2q);
                        let j = find_idx(user_ids(old_users), u2q);
                        if j >= 0 {
                            if j == i as int {
                                assert(u2q == id@);
                                assert(self.users@[j].spec_chats(k2) == old_users[j].spec_chats(
                                    k2,
                                ));
                            } else {
                                assert(self.users@[j] == old_users[j]);
                            }
                        }
                    }
                }
            },
            None => {
                proof {
                    lemma_find_idx_props(user_ids(old_users), id@);
                }
                let single = push_unique(None, chat_id);
                let fresh = match stype {
                    SubscriptionType::Likes => User {
                        id: String::from_str(id),
                        subscribed_chats_to_likes: single,
                        subscribed_chats_to_content: None,
                    },
                    SubscriptionType::Content => User {
                        id: String::from_str(id),
                        subscribed_chats_to_likes: None,
                        subscribed_chats_to_content: single,
                    },
                };
                self.users.push(fresh);
                proof {
                    assert(user_ids(self.users@) =~= user_ids(old_users).push(id@));
                    if user_ids(old_users).contains(id@) {
                        let w = choose|w: int|
                            0 <= w < user_ids(old_users).len() && user_ids(old_users)[w] == id@;
                        assert(false);
                    }
                    lemma_push_no_dup(user_ids(old_users), id@);
                    lemma_find_idx_first(
                        user_ids(self.users@),
                        id@,
                        old_users.len() as int,
                    );
                    assert(opt_list_view(None) =~= Seq::<Seq<char>>::empty());
                    assert(Seq::<Seq<char>>::empty().no_duplicates());
                    assert(fresh.wf());
                    assert forall|t: int| 0 <= t < self.users@.len() implies (#[trigger] self
                        .users@[t]).wf() by {
                        if t < old_users.len() {
                            assert(self.users@[t] == old_users[t]);
                        }
                    }
                    assert(chats_of(*self, id@, stype) == Seq::<Seq<char>>::empty().push(
                        chat_id@,
                    ));
                    assert(chats_of(*old(self), id@, stype) =~= Seq::<Seq<char>>::empty());
                    assert forall|u2q: Seq<char>, k2: SubscriptionType|
                        !(u2q == id@ && k2 == stype) implies chats_of(*self, u2q, k2) == chats_of(
                        *old(self),
                        u2q,
                        k2,
                    ) by {
                        if u2q == id@ {
                            assert(fresh.spec_chats(k2) =~= Seq::<Seq<char>>::empty());
                        } else {
                            lemma_find_idx_push_other(user_ids(old_users), id@, u2q);
                            lemma_find_idx_props(user_ids(old_users), u2q);
                            let j = find_idx(user_ids(old_users), u2q);
                            if j >= 0 {
                                assert(self.users@[j] == old_users[j]);
                            }
                        }
                    }
                }
            },
        }
    }
}

impl ProviderStore {
    /// Pull-from-set of `chat_id` out of the chat list of user `id` for `stype`.
    fn pull_user_chat(&mut self, id: &str, chat_id: &str, stype: SubscriptionType)
        requires
            old(self).wf(),
        ensures
            final(self).wf(),
            final(self).chats == old(self).chats,
            final(self).content == old(self).content,
            chats_of(*final(self), id@, stype) == chats_of(*old(self), id@, stype).filter(
                |s: Seq<char>| s != chat_id@,
            ),
            forall|u2: Seq<char>, k2: SubscriptionType|
                !(u2 == id@ && k2 == stype) ==> chats_of(*final(self), u2, k2) == chats_of(
                    *old(self),
                    u2,
                    k2,
                ),
    {
        let ghost old_users = self.users@;
        match self.find_user(id) {
            Some(i) => {
                proof {
                    lemma_find_idx_props(user_ids(old_users), id@);
                }
                let u = self.users.remove(i);
                let User { id: uid, subscribed_chats_to_likes: lk, subscribed_chats_to_content: ct }
                    = u;
                let (lk, ct) = match stype {
                    SubscriptionType::Likes => (pull_value(lk, chat_id), ct),
                    SubscriptionType::Content => (lk, pull_value(ct, chat_id)),
                };
                let u2 = User {
                    id: uid,
                    subscribed_chats_to_likes: lk,
                    subscribed_chats_to_content: ct,
                };
                self.users.insert(i, u2);
                proof {
                    assert(self.users@ =~= old_users.update(i as int, u2));
                    assert(user_ids(self.users@) =~= user_ids(old_users));
                    assert forall|t: int| 0 <= t < self.users@.len() implies (#[trigger] self
                        .users@[t]).wf() by {
                        if t != i {
                            assert(self.users@[t] == old_users[t]);
                        }
                    }
                    assert forall|u2q: Seq<char>, k2: SubscriptionType|
                        !(u2q == id@ && k2 == stype) implies chats_of(*self, u2q, k2) == chats_of(
                        *old(self),
                        u2q,
                        k2,
                    ) by {
                        lemma_find_idx_props(user_ids(old_users), u2q);
                        let j = find_idx(user_ids(old_users), u2q);
                        if j >= 0 {
                            if j == i as int {
                                assert(u2q == id@);
                                assert(self.users@[j].spec_chats(k2) == old_users[j].spec_chats(
                                    k2,
                                ));
                            } else {
                                assert(self.users@[j] == old_users[j]);
                            }
                        }
                    }
                }
            },
            None => {
                proof {
                    reveal(Seq::filter);
                    assert(chats_of(*self, id@, stype) =~= Seq::<Seq<char>>::empty());
                }
            },
        }
    }

    /// Add-to-set of user `id` into the reverse index of chat `chat_id` for
    /// `stype`, creating the chat document when it is missing (upsert).
    fn add_chat_user(&mut self, chat_id: &str, id: &str, stype: SubscriptionType)
        requires
            old(self).wf(),
        ensures
            final(self).wf(),
            final(self).users == old(self).users,
            final(self).content == old(self).content,
            users_of_chat(*final(self), chat_id@, stype) == (if users_of_chat(
                *old(self),
                chat_id@,
                stype,
            ).contains(id@) {
                users_of_chat(*old(self), chat_id@, stype)
            } else {
                users_of_chat(*old(self), chat_id@, stype).push(id@)
            }),
            forall|c2: Seq<char>, k2: SubscriptionType|
                !(c2 == chat_id@ && k2 == stype) ==> users_of_chat(*final(self), c2, k2)
                    == users_of_chat(*old(self), c2, k2),
    {
        let ghost old_chats = self.chats@;
        match self.find_chat(chat_id) {
            Some(i) => {
                proof {
                    lemma_find_idx_props(chat_ids(old_chats), chat_id@);
                }
                let c = self.chats.remove(i);
                let ChatInfo {
                    chat_id: cid,
                    subscribed_for_likes_to: lk,
                    subscribed_for_content_to: ct,
                } = c;
                let (lk, ct) = match stype {
                    SubscriptionType::Likes => (push_unique(lk, id), ct),
                    SubscriptionType::Content => (lk, push_unique(ct, id)),
                };
                let c2 = ChatInfo {
                    chat_id: cid,
                    subscribed_for_likes_to: lk,
                    subscribed_for_content_to: ct,
                };
                self.chats.insert(i, c2);
                proof {
                    assert(self.chats@ =~= old_chats.update(i as int, c2));
                    assert(chat_ids(self.chats@) =~= chat_ids(old_chats));
                    assert forall|t: int| 0 <= t < self.chats@.len() implies (#[trigger] self
                        .chats@[t]).wf() by {
                        if t != i {
                            assert(self.chats@[t] == old_chats[t]);
                        }
                    }
                    assert forall|c2q: Seq<char>, k2: SubscriptionType|
                        !(c2q == chat_id@ && k2 == stype) implies users_of_chat(*self, c2q, k2)
                        == users_of_chat(*old(self), c2q, k2) by {
                        lemma_find_idx_props(chat_ids(old_chats), c2q);
                        let j = find_idx(chat_ids(old_chats), c2q);
                        if j >= 0 {
                            if j == i as int {
                                assert(c2q == chat_id@);
                                assert(self.chats@[j].spec_users(k2) == old_chats[j].spec_users(
                                    k2,
                                ));
                            } else {
                                assert(self.chats@[j] == old_chats[j]);
                            }
                        }
                    }
                }
            },
            None => {
                proof {
                    lemma_find_idx_props(chat_ids(old_chats), chat_id@);
                }
                let single = push_unique(None, id);
                let fresh = match stype {
                    SubscriptionType::Likes => ChatInfo {
                        chat_id: String::from_str(chat_id),
                        subscribed_for_likes_to: single,
                        subscribed_for_content_to: None,
                    },
                    SubscriptionType::Content => ChatInfo {
                        chat_id: String::from_str(chat_id),
                        subscribed_for_likes_to: None,
                        subscribed_for_content_to: single,
                    },
                };
                self.chats.push(fresh);
                proof {
                    assert(chat_ids(self.chats@) =~= chat_ids(old_chats).push(chat_id@));
                    if chat_ids(old_chats).contains(chat_id@) {
                        let w = choose|w: int|
                            0 <= w < chat_ids(old_chats).len() && chat_ids(old_chats)[w]
                                == chat_id@;
                        assert(false);
                    }
                    lemma_push_no_dup(chat_ids(old_chats), chat_id@);
                    lemma_find_idx_first(
                        chat_ids(self.chats@),
                        chat_id@,
                        old_chats.len() as int,
                    );
                    assert(opt_list_view(None) =~= Seq::<Seq<char>>::empty());
                    assert(Seq::<Seq<char>>::empty().no_duplicates());
                    assert(fresh.wf());
                    assert forall|t: int| 0 <= t < self.chats@.len() implies (#[trigger] self
                        .chats@[t]).wf() by {
                        if t < old_chats.len() {
                            assert(self.chats@[t] == old_chats[t]);
                        }
                    }
                    assert(users_of_chat(*self, chat_id@, stype) == Seq::<
                        Seq<char>,
                    >::empty().push(id@));
                    assert(users_of_chat(*old(self), chat_id@, stype) =~= Seq::<
                        Seq<char>,
                    >::empty());
                    assert forall|c2q: Seq<char>, k2: SubscriptionType|
                        !(c2q == chat_id@ && k2 == stype) implies users_of_chat(*self, c2q, k2)
                        == users_of_chat(*old(self), c2q, k2) by {
                        if c2q == chat_id@ {
                            assert(fresh.spec_users(k2) =~= Seq::<Seq<char>>::empty());
                        } else {
                            lemma_find_idx_push_other(chat_ids(old_chats), chat_id@, c2q);
                            lemma_find_idx_props(chat_ids(old_chats), c2q);
                            let j = find_idx(chat_ids(old_chats), c2q);
                            if j >= 0 {
                                assert(self.chats@[j] == old_chats[j]);
                            }
                        }
                    }
                }
            },
        }
    }

    /// Pull-from-set of user `id` out of the reverse index of chat `chat_id`.
    fn pull_chat_user(&mut self, chat_id: &str, id: &str, stype: SubscriptionType)
        requires
            old(self).wf(),
        ensures
            final(self).wf(),
            final(self).users == old(self).users,
            final(self).content == old(self).content,
            users_of_chat(*final(self), chat_id@, stype) == users_of_chat(
                *old(self),
                chat_id@,
                stype,
            ).filter(|s: Seq<char>| s != id@),
            forall|c2: Seq<char>, k2: SubscriptionType|
                !(c2 == chat_id@ && k2 == stype) ==> users_of_chat(*final(self), c2, k2)
                    == users_of_chat(*old(self), c2, k2),
    {
        let ghost old_chats = self.chats@;
        match self.find_chat(chat_id) {
            Some(i) => {
                proof {
                    lemma_find_idx_props(chat_ids(old_chats), chat_id@);
                }
                let c = self.chats.remove(i);
                let ChatInfo {
                    chat_id: cid,
                    subscribed_for_likes_to: lk,
                    subscribed_for_content_to: ct,
                } = c;
                let (lk, ct) = match stype {
                    SubscriptionType::Likes => (pull_value(lk, id), ct),
                    SubscriptionType::Content => (lk, pull_value(ct, id)),
                };
                let c2 = ChatInfo {
                    chat_id: cid,
                    subscribed_for_likes_to: lk,
                    subscribed_for_content_to: ct,
                };
                self.chats.insert(i, c2);
                proof {
                    assert(self.chats@ =~= old_chats.update(i as int, c2));
                    assert(chat_ids(self.chats@) =~= chat_ids(old_chats));
                    assert forall|t: int| 0 <= t < self.chats@.len() implies (#[trigger] self
                        .chats@[t]).wf() by {
                        if t != i {
                            assert(self.chats@[t] == old_chats[t]);
                        }
                    }
                    assert forall|c2q: Seq<char>, k2: SubscriptionType|
                        !(c2q == chat_id@ && k2 == stype) implies users_of_chat(*self, c2q, k2)
                        == users_of_chat(*old(self), c2q, k2) by {
                        lemma_find_idx_props(chat_ids(old_chats), c2q);
                        let j = find_idx(chat_ids(old_chats), c2q);
                        if j >= 0 {
                            if j == i as int {
                                assert(c2q == chat_id@);
                                assert(self.chats@[j].spec_users(k2) == old_chats[j].spec_users(
                                    k2,
                                ));
                            } else {
                                assert(self.chats@[j] == old_chats[j]);
                            }
                        }
                    }
                }
            },
            None => {
                proof {
                    reveal(Seq::filter);
                    assert(users_of_chat(*self, chat_id@, stype) =~= Seq::<Seq<char>>::empty());
                }
            },
        }
    }

    /// Add-to-set of a delivery record for `(user_id, stype)`, creating the
    /// delivered-content document when it is missing (upsert).
    fn add_record(&mut self, content_id: &str, user_id: &str, stype: SubscriptionType, now: u64)
        requires
            old(self).wf(),
        ensures
            final(self).wf(),
            final(self).users == old(self).users,
            final(self).chats == old(self).chats,
            delivered_ids(*final(self), user_id@, stype) == (if is_delivered_spec(
                *old(self),
                user_id@,
                stype,
                content_id@,
            ) {
                delivered_ids(*old(self), user_id@, stype)
            } else {
                delivered_ids(*old(self), user_id@, stype).push(content_id@)
            }),
            forall|u2: Seq<char>, k2: SubscriptionType|
                !(u2 == user_id@ && k2 == stype) ==> delivered_ids(*final(self), u2, k2)
                    == delivered_ids(*old(self), u2, k2),
    {
        let ghost old_docs = self.content@;
        match self.find_data(user_id) {
            Some(i) => {
                proof {
                    lemma_find_idx_props(data_ids(old_docs), user_id@);
                }
                let d = self.content.remove(i);
                let DataStorage { id: did, liked_content: lk, processed_content: ct } = d;
                let (lk, ct) = match stype {
                    SubscriptionType::Likes => (push_unique_record(lk, content_id, now), ct),
                    SubscriptionType::Content => (lk, push_unique_record(ct, content_id, now)),
                };
                let d2 = DataStorage { id: did, liked_content: lk, processed_content: ct };
                self.content.insert(i, d2);
                proof {
                    assert(self.content@ =~= old_docs.update(i as int, d2));
                    assert(data_ids(self.content@) =~= data_ids(old_docs));
                    assert forall|t: int| 0 <= t < self.content@.len() implies (#[trigger] self
                        .content@[t]).wf() by {
                        if t != i {
                            assert(self.content@[t] == old_docs[t]);
                        }
                    }
                    assert forall|u2q: Seq<char>, k2: SubscriptionType|
                        !(u2q == user_id@ && k2 == stype) implies delivered_ids(*self, u2q, k2)
                        == delivered_ids(*old(self), u2q, k2) by {
                        lemma_find_idx_props(data_ids(old_docs), u2q);
                        let j = find_idx(data_ids(old_docs), u2q);
                        if j >= 0 {
                            if j == i as int {
                                assert(u2q == user_id@);
                                assert(self.content@[j].spec_record_ids(k2)
                                    == old_docs[j].spec_record_ids(k2));
                            } else {
                                assert(self.content@[j] == old_docs[j]);
                            }
                        }
                    }
                }
            },
            None => {
                proof {
                    lemma_find_idx_props(data_ids(old_docs), user_id@);
                }
                let single = push_unique_record(None, content_id, now);
                let fresh = match stype {
                    SubscriptionType::Likes => DataStorage {
                        id: String::from_str(user_id),
                        liked_content: single,
                        processed_content: None,
                    },
                    SubscriptionType::Content => DataStorage {
                        id: String::from_str(user_id),
                        liked_content: None,
                        processed_content: single,
                    },
                };
                self.content.push(fresh);
                proof {
                    assert(data_ids(self.content@) =~= data_ids(old_docs).push(user_id@));
                    if data_ids(old_docs).contains(user_id@) {
                        let w = choose|w: int|
                            0 <= w < data_ids(old_docs).len() && data_ids(old_docs)[w]
                                == user_id@;
                        assert(false);
                    }
                    lemma_push_no_dup(data_ids(old_docs), user_id@);
                    lemma_find_idx_first(
                        data_ids(self.content@),
                        user_id@,
                        old_docs.len() as int,
                    );
                    assert(opt_record_ids(None) =~= Seq::<Seq<char>>::empty());
                    assert(Seq::<Seq<char>>::empty().no_duplicates());
                    assert(fresh.wf());
                    assert forall|t: int| 0 <= t < self.content@.len() implies (#[trigger] self
                        .content@[t]).wf() by {
                        if t < old_docs.len() {
                            assert(self.content@[t] == old_docs[t]);
                        }
                    }
                    assert(delivered_ids(*self, user_id@, stype) == Seq::<
                        Seq<char>,
                    >::empty().push(content_id@));
                    assert(delivered_ids(*old(self), user_id@, stype) =~= Seq::<
                        Seq<char>,
                    >::empty());
                    assert forall|u2q: Seq<char>, k2: SubscriptionType|
                        !(u2q == user_id@ && k2 == stype) implies delivered_ids(*self, u2q, k2)
                        == delivered_ids(*old(self), u2q, k2) by {
                        if u2q == user_id@ {
                            assert(fresh.spec_record_ids(k2) =~= Seq::<Seq<char>>::empty());
                        } else {
                            lemma_find_idx_push_other(data_ids(old_docs), user_id@, u2q);
                            lemma_find_idx_props(data_ids(old_docs), u2q);
                            let j = find_idx(data_ids(old_docs), u2q);
                            if j >= 0 {
                                assert(self.content@[j] == old_docs[j]);
                            }
                        }
                    }
                }
            },
        }
    }
}

impl ProviderStore {
    /// Subscribe chat `chat_id` to user `id` for kind `stype`: add-to-set on
    /// the user document and on the chat reverse index, in that order.
    pub fn subscribe_user(&mut self, id: &str, chat_id: &str, stype: SubscriptionType)
        requires
            old(self).wf(),
        ensures
            final(self).wf(),
            chats_of(*final(self), id@, stype) == add_to_set_spec(
                chats_of(*old(self), id@, stype),
                chat_id@,
            ),
            forall|u2: Seq<char>, k2: SubscriptionType|
                !(u2 == id@ && k2 == stype) ==> chats_of(*final(self), u2, k2) == chats_of(
                    *old(self),
                    u2,
                    k2,
                ),
            users_of_chat(*final(self), chat_id@, stype) == add_to_set_spec(
                users_of_chat(*old(self), chat_id@, stype),
                id@,
            ),
            forall|c2: Seq<char>, k2: SubscriptionType|
                !(c2 == chat_id@ && k2 == stype) ==> users_of_chat(*final(self), c2, k2)
                    == users_of_chat(*old(self), c2, k2),
            final(self).content == old(self).content,
    {
        self.add_user_chat(id, chat_id, stype);
        self.add_chat_user(chat_id, id, stype);
    }

    /// Unsubscribe chat `chat_id` from user `id` for kind `stype`: pull from
    /// the user document and from the chat reverse index, in that order.
    pub fn unsubscribe_user(&mut self, id: &str, chat_id: &str, stype: SubscriptionType)
        requires
            old(self).wf(),
        ensures
            final(self).wf(),
            chats_of(*final(self), id@, stype) == chats_of(*old(self), id@, stype).filter(
                |s: Seq<char>| s != chat_id@,
            ),
            forall|u2: Seq<char>, k2: SubscriptionType|
                !(u2 == id@ && k2 == stype) ==> chats_of(*final(self), u2, k2) == chats_of(
                    *old(self),
                    u2,
                    k2,
                ),
            users_of_chat(*final(self), chat_id@, stype) == users_of_chat(
                *old(self),
                chat_id@,
                stype,
            ).filter(|s: Seq<char>| s != id@),
            forall|c2: Seq<char>, k2: SubscriptionType|
                !(c2 == chat_id@ && k2 == stype) ==> users_of_chat(*final(self), c2, k2)
                    == users_of_chat(*old(self), c2, k2),
            final(self).content == old(self).content,
    {
        self.pull_user_chat(id, chat_id, stype);
        self.pull_chat_user(chat_id, id, stype);
    }

    /// Record content `content_id` as delivered for `(user_id, stype)` at time
    /// `now`; a second recording of the same id leaves the set unchanged.
    pub fn add_content(&mut self, content_id: &str, user_id: &str, stype: SubscriptionType, now: u64)
        requires
            old(self).wf(),
        ensures
            final(self).wf(),
            delivered_ids(*final(self), user_id@, stype) == add_to_set_spec(
                delivered_ids(*old(self), user_id@, stype),
                content_id@,
            ),
            is_delivered_spec(*final(self), user_id@, stype, content_id@),
            forall|u2: Seq<char>, k2: SubscriptionType|
                !(u2 == user_id@ && k2 == stype) ==> delivered_ids(*final(self), u2, k2)
                    == delivered_ids(*old(self), u2, k2),
            final(self).users == old(self).users,
            final(self).chats == old(self).chats,
    {
        self.add_record(content_id, user_id, stype, now);
        proof {
            if !is_delivered_spec(*old(self), user_id@, stype, content_id@) {
                let ids = delivered_ids(*self, user_id@, stype);
                assert(ids[ids.len() - 1] == content_id@);
                assert(ids.contains(content_id@));
            }
        }
    }
}

/// The whole persistent store: one namespace per provider.
#[derive(Debug)]
pub struct Storage {
    pub tiktok: ProviderStore,
    pub twitter: ProviderStore,
    pub instagram: ProviderStore,
}

impl Storage {
    /// The namespace of one provider.
    pub open spec fn store_of(&self, api: Api) -> ProviderStore {
        match api {
            Api::Tiktok => self.tiktok,
            Api::Twitter => self.twitter,
            Api::Instagram => self.instagram,
        }
    }

    pub open spec fn wf(&self) -> bool {
        &&& self.tiktok.wf()
        &&& self.twitter.wf()
        &&& self.instagram.wf()
    }

    pub fn new() -> (s: Storage)
        ensures
            s.wf(),
            forall|a: Api, u: Seq<char>, k: SubscriptionType|
                #[trigger] chats_of(s.store_of(a), u, k) == Seq::<Seq<char>>::empty(),
            forall|a: Api, c: Seq<char>, k: SubscriptionType|
                #[trigger] users_of_chat(s.store_of(a), c, k) == Seq::<Seq<char>>::empty(),
            forall|a: Api, u: Seq<char>, k: SubscriptionType|
                #[trigger] delivered_ids(s.store_of(a), u, k) == Seq::<Seq<char>>::empty(),
    {
        let s = Storage {
            tiktok: ProviderStore::new(),
            twitter: ProviderStore::new(),
            instagram: ProviderStore::new(),
        };
        proof {
            assert forall|a: Api, u: Seq<char>, k: SubscriptionType|
                #[trigger] chats_of(s.store_of(a), u, k) == Seq::<Seq<char>>::empty() by {
                assert(user_ids(s.store_of(a).users@) =~= Seq::<Seq<char>>::empty());
            }
            assert forall|a: Api, c: Seq<char>, k: SubscriptionType|
                #[trigger] users_of_chat(s.store_of(a), c, k) == Seq::<Seq<char>>::empty() by {
                assert(chat_ids(s.store_of(a).chats@) =~= Seq::<Seq<char>>::empty());
            }
            assert forall|a: Api, u: Seq<char>, k: SubscriptionType|
                #[trigger] delivered_ids(s.store_of(a), u, k) == Seq::<Seq<char>>::empty() by {
                assert(data_ids(s.store_of(a).content@) =~= Seq::<Seq<char>>::empty());
            }
        }
        s
    }

    fn provider(&self, api: Api) -> (r: &ProviderStore)
        ensures
            *r == self.store_of(api),
    {
        match api {
            Api::Tiktok => &self.tiktok,
            Api::Twitter => &self.twitter,
            Api::Instagram => &self.instagram,
        }
    }

    /// Subscribe chat `chat_id` to user `user_id` under provider `api`.
    pub fn subscribe(&mut self, api: Api, user_id: &str, chat_id: &str, stype: SubscriptionType)
        requires
            old(self).wf(),
        ensures
            final(self).wf(),
            forall|a2: Api|
                a2 != api ==> #[trigger] final(self).store_of(a2) == old(self).store_of(a2),
            chats_of(final(self).store_of(api), user_id@, stype) == add_to_set_spec(
                chats_of(old(self).store_of(api), user_id@, stype),
                chat_id@,
            ),
            forall|u2: Seq<char>, k2: SubscriptionType|
                !(u2 == user_id@ && k2 == stype) ==> chats_of(final(self).store_of(api), u2, k2)
                    == chats_of(old(self).store_of(api), u2, k2),
            users_of_chat(final(self).store_of(api), chat_id@, stype) == add_to_set_spec(
                users_of_chat(old(self).store_of(api), chat_id@, stype),
                user_id@,
            ),
            forall|c2: Seq<char>, k2: SubscriptionType|
                !(c2 == chat_id@ && k2 == stype) ==> users_of_chat(
                    final(self).store_of(api),
                    c2,
                    k2,
                ) == users_of_chat(old(self).store_of(api), c2, k2),
            final(self).store_of(api).content == old(self).store_of(api).content,
    {
        match api {
            Api::Tiktok => self.tiktok.subscribe_user(user_id, chat_id, stype),
            Api::Twitter => self.twitter.subscribe_user(user_id, chat_id, stype),
            Api::Instagram => self.instagram.subscribe_user(user_id, chat_id, stype),
        }
    }

    /// Unsubscribe chat `chat_id` from user `user_id` under provider `api`.
    pub fn unsubscribe(&mut self, api: Api, user_id: &str, chat_id: &str, stype: SubscriptionType)
        requires
            old(self).wf(),
        ensures
            final(self).wf(),
            forall|a2: Api|
                a2 != api ==> #[trigger] final(self).store_of(a2) == old(self).store_of(a2),
            chats_of(final(self).store_of(api), user_id@, stype) == chats_of(
                old(self).store_of(api),
                user_id@,
                stype,
            ).filter(|s: Seq<char>| s != chat_id@),
            forall|u2: Seq<char>, k2: SubscriptionType|
                !(u2 == user_id@ && k2 == stype) ==> chats_of(final(self).store_of(api), u2, k2)
                    == chats_of(old(self).store_of(api), u2, k2),
            users_of_chat(final(self).store_of(api), chat_id@, stype) == users_of_chat(
                old(self).store_of(api),
                chat_id@,
                stype,
            ).filter(|s: Seq<char>| s != user_id@),
            forall|c2: Seq<char>, k2: SubscriptionType|
                !(c2 == chat_id@ && k2 == stype) ==> users_of_chat(
                    final(self).store_of(api),
                    c2,
                    k2,
                ) == users_of_chat(old(self).store_of(api), c2, k2),
            final(self).store_of(api).content == old(self).store_of(api).content,
    {
        match api {
            Api::Tiktok => self.tiktok.unsubscribe_user(user_id, chat_id, stype),
            Api::Twitter => self.twitter.unsubscribe_user(user_id, chat_id, stype),
            Api::Instagram => self.instagram.unsubscribe_user(user_id, chat_id, stype),
        }
    }

    /// Record one delivered content id under provider `api`.
    pub fn record_delivered(
        &mut self,
        api: Api,
        content_id: &str,
        user_id: &str,
        stype: SubscriptionType,
        now: u64,
    )
        requires
            old(self).wf(),
        ensures
            final(self).wf(),
            forall|a2: Api|
                a2 != api ==> #[trigger] final(self).store_of(a2) == old(self).store_of(a2),
            delivered_ids(final(self).store_of(api), user_id@, stype) == add_to_set_spec(
                delivered_ids(old(self).store_of(api), user_id@, stype),
                content_id@,
            ),
            is_delivered_spec(final(self).store_of(api), user_id@, stype, content_id@),
            forall|u2: Seq<char>, k2: SubscriptionType|
                !(u2 == user_id@ && k2 == stype) ==> delivered_ids(
                    final(self).store_of(api),
                    u2,
                    k2,
                ) == delivered_ids(old(self).store_of(api), u2, k2),
            final(self).store_of(api).users == old(self).store_of(api).users,
            final(self).store_of(api).chats == old(self).store_of(api).chats,
    {
        match api {
            Api::Tiktok => self.tiktok.add_content(content_id, user_id, stype, now),
            Api::Twitter => self.twitter.add_content(content_id, user_id, stype, now),
            Api::Instagram => self.instagram.add_content(content_id, user_id, stype, now),
        }
    }

    /// Whether content `content_id` was already delivered for `(user_id, stype)`.
    pub fn is_delivered(&self, api: Api, content_id: &str, user_id: &str, stype: SubscriptionType)
        -> (r: bool)
        ensures
            r == is_delivered_spec(self.store_of(api), user_id@, stype, content_id@),
    {
        self.provider(api).is_content_showed(content_id, user_id, stype)
    }

    /// Whether chat `chat_id` is subscribed to `user_id` for `stype`.
    pub fn is_subscribed(&self, api: Api, user_id: &str, chat_id: &str, stype: SubscriptionType)
        -> (r: bool)
        ensures
            r == subscribed(self.store_of(api), user_id@, chat_id@, stype),
    {
        self.provider(api).is_user_subscribed(user_id, chat_id, stype)
    }

    /// Whether `user_id` already has a subscriber chat for `stype`.
    pub fn user_exists(&self, api: Api, user_id: &str, stype: SubscriptionType) -> (r: bool)
        ensures
            r == (chats_of(self.store_of(api), user_id@, stype).len() > 0),
    {
        self.provider(api).is_user_exist(user_id, stype)
    }

    /// The chat reverse-index document for `chat_id`, if one exists.
    pub fn get_chat_info(&self, api: Api, chat_id: &str) -> (r: Option<&ChatInfo>)
        ensures
            match r {
                Some(c) => {
                    &&& find_idx(chat_ids(self.store_of(api).chats@), chat_id@) >= 0
                    &&& *c == self.store_of(api).chats@[find_idx(
                        chat_ids(self.store_of(api).chats@),
                        chat_id@,
                    )]
                },
                None => find_idx(chat_ids(self.store_of(api).chats@), chat_id@) == -1,
            },
    {
        self.provider(api).get_chat_info(chat_id)
    }

    /// Every watched user under provider `api`.
    pub fn get_subscriptions(&self, api: Api) -> (r: &Vec<User>)
        ensures
            r@ == self.store_of(api).users@,
    {
        self.provider(api).get_users()
    }
}

/// In a duplicate-free sequence that holds `v`, `v` occurs exactly once.
proof fn lemma_filter_count_single(s: Seq<Seq<char>>, v: Seq<char>)
    requires
        s.no_duplicates(),
        s.contains(v),
    ensures
        s.filter(|x: Seq<char>| x == v).len() == 1,
    decreases s.len(),
{
    reveal(Seq::filter);
    let pred = |x: Seq<char>| x == v;
    let pre = s.drop_last();
    assert(pre.no_duplicates());
    if s.last() == v {
        assert forall|i: int| 0 <= i < pre.len() implies !pred(pre[i]) by {
            if pre[i] == v {
                assert(s[i] == s[s.len() - 1]);
            }
        }
        pre.lemma_all_neg_filter_empty(pred);
    } else {
        let i = choose|i: int| 0 <= i < s.len() && s[i] == v;
        assert(pre[i] == v);
        assert(pre.contains(v));
        lemma_filter_count_single(pre, v);
    }
}

/// What add-to-set holds: everything it held before, and the added id.
pub proof fn lemma_add_to_set_contains(s: Seq<Seq<char>>, v: Seq<char>, c: Seq<char>)
    ensures
        add_to_set_spec(s, v).contains(c) <==> (s.contains(c) || c == v),
{
    let once = add_to_set_spec(s, v);
    if s.contains(v) {
        if c == v {
            assert(once.contains(c));
        }
    } else {
        if s.contains(c) {
            let j = choose|j: int| 0 <= j < s.len() && s[j] == c;
            assert(once[j] == c);
            assert(once.contains(c));
        }
        if c == v {
            assert(once[once.len() - 1] == c);
            assert(once.contains(c));
        }
        if once.contains(c) && !s.contains(c) && c != v {
            let j = choose|j: int| 0 <= j < once.len() && once[j] == c;
            if j < s.len() {
                assert(s[j] == c);
            }
            assert(false);
        }
    }
}

/// Law: add-to-set is idempotent — adding the same id a second time leaves
/// the list exactly as the first addition left it.
pub proof fn lemma_add_to_set_idempotent(s: Seq<Seq<char>>, v: Seq<char>)
    ensures
        add_to_set_spec(add_to_set_spec(s, v), v) == add_to_set_spec(s, v),
{
    let once = add_to_set_spec(s, v);
    if s.contains(v) {
    } else {
        assert(once[once.len() - 1] == v);
        assert(once.contains(v));
    }
}

/// Law: after add-to-set on a duplicate-free list, the added id occurs in the
/// list exactly once.  Together with `lemma_add_to_set_idempotent` this is the
/// subscribe-twice property: both the user's chat list and the chat's reverse
/// index hold exactly one occurrence of the subscribed pair.
pub proof fn lemma_add_to_set_exactly_once(s: Seq<Seq<char>>, v: Seq<char>)
    requires
        s.no_duplicates(),
    ensures
        add_to_set_spec(s, v).no_duplicates(),
        add_to_set_spec(s, v).filter(|x: Seq<char>| x == v).len() == 1,
{
    let once = add_to_set_spec(s, v);
    if s.contains(v) {
        lemma_filter_count_single(s, v);
    } else {
        lemma_push_no_dup(s, v);
        assert(once[once.len() - 1] == v);
        assert(once.contains(v));
        lemma_filter_count_single(once, v);
    }
}

proof fn lemma_push_no_dup<A>(s: Seq<A>, v: A)
    requires
        s.no_duplicates(),
        !s.contains(v),
    ensures
        s.push(v).no_duplicates(),
{
    let t = s.push(v);
    assert forall|i: int, j: int| 0 <= i < t.len() && 0 <= j < t.len() && i != j implies t[i]
        != t[j] by {
        if i < s.len() && j < s.len() {
            assert(s[i] != s[j]);
        } else if i < s.len() && j == s.len() {
            if s[i] == v {
                assert(s.contains(v));
            }
        } else if j < s.len() && i == s.len() {
            if s[j] == v {
                assert(s.contains(v));
            }
        }
    }
}

proof fn lemma_filter_push<A>(s: Seq<A>, p: spec_fn(A) -> bool, e: A)
    ensures
        s.push(e).filter(p) == (if p(e) {
            s.filter(p).push(e)
        } else {
            s.filter(p)
        }),
{
    reveal(Seq::filter);
    assert(s.push(e).drop_last() =~= s);
    assert(s.push(e).last() == e);
}

proof fn lemma_filter_no_dup<A>(s: Seq<A>, p: spec_fn(A) -> bool)
    requires
        s.no_duplicates(),
    ensures
        s.filter(p).no_duplicates(),
    decreases s.len(),
{
    reveal(Seq::filter);
    if s.len() > 0 {
        let pre = s.drop_last();
        assert(pre.no_duplicates());
        lemma_filter_no_dup(pre, p);
        if p(s.last()) {
            if pre.filter(p).contains(s.last()) {
                pre.lemma_filter_contains_rev(p, s.last());
                let i = choose|i: int| 0 <= i < pre.len() && pre[i] == s.last();
                assert(s[i] == s[s.len() - 1]);
                assert(false);
            }
            lemma_push_no_dup(pre.filter(p), s.last());
        }
    }
}

/// Add-to-set on an optional list of ids: append `value` unless present;
/// create a singleton list where the field was absent.
fn push_unique(list: Option<Vec<String>>, value: &str) -> (r: Option<Vec<String>>)
    ensures
        opt_list_view(r) == (if opt_list_view(list).contains(value@) {
            opt_list_view(list)
        } else {
            opt_list_view(list).push(value@)
        }),
        opt_list_view(list).no_duplicates() ==> opt_list_view(r).no_duplicates(),
{
    match list {
        None => {
            let mut v: Vec<String> = Vec::new();
            v.push(String::from_str(value));
            proof {
                assert(v.deep_view() =~= Seq::<Seq<char>>::empty().push(value@));
                lemma_push_no_dup(Seq::<Seq<char>>::empty(), value@);
            }
            Some(v)
        },
        Some(mut v) => {
            if contains_str(&v, value) {
                Some(v)
            } else {
                let ghost before = v.deep_view();
                v.push(String::from_str(value));
                proof {
                    assert(v.deep_view() =~= before.push(value@));
                    if before.no_duplicates() {
                        lemma_push_no_dup(before, value@);
                    }
                }
                Some(v)
            }
        },
    }
}

/// Pull-from-set on an optional list of ids: drop every occurrence of `value`.
fn pull_value(list: Option<Vec<String>>, value: &str) -> (r: Option<Vec<String>>)
    ensures
        opt_list_view(r) == opt_list_view(list).filter(|s: Seq<char>| s != value@),
        opt_list_view(list).no_duplicates() ==> opt_list_view(r).no_duplicates(),
{
    proof {
        reveal(Seq::filter);
    }
    match list {
        None => {
            proof {
                if opt_list_view(list).no_duplicates() {
                    lemma_filter_no_dup(
                        Seq::<Seq<char>>::empty(),
                        |s: Seq<char>| s != value@,
                    );
                }
            }
            None
        },
        Some(v) => {
            let ghost pred = |s: Seq<char>| s != value@;
            let mut out: Vec<String> = Vec::new();
            let n = v.len();
            let mut i: usize = 0;
            while i < n
                invariant
                    n == v.len(),
                    0 <= i <= n,
                    out.deep_view() == v.deep_view().take(i as int).filter(
                        |s: Seq<char>| s != value@,
                    ),
                decreases n - i,
            {
                let ghost prefix = v.deep_view().take(i as int);
                let keep = !str_eq(v[i].as_str(), value);
                if keep {
                    let ghost before = out.deep_view();
                    out.push(v[i].clone());
                    proof {
                        assert(out.deep_view() =~= before.push(v.deep_view()[i as int]));
                    }
                }
                proof {
                    lemma_filter_push(prefix, |s: Seq<char>| s != value@, v.deep_view()[i as int]);
                    assert(v.deep_view().take(i + 1) =~= prefix.push(v.deep_view()[i as int]));
                }
                i += 1;
            }
            proof {
                assert(v.deep_view().take(n as int) =~= v.deep_view());
                if opt_list_view(list).no_duplicates() {
                    lemma_filter_no_dup(v.deep_view(), |s: Seq<char>| s != value@);
                }
            }
            Some(out)
        },
    }
}

/// Whether some record in `v` carries content id `id`.
fn contains_record_id(v: &Vec<ContentRecord>, id: &str) -> (r: bool)
    ensures
        r == v@.map_values(|rec: ContentRecord| rec.id@).contains(id@),
{
    let n = v.len();
    let mut i: usize = 0;
    while i < n
        invariant
            n == v.len(),
            0 <= i <= n,
            forall|j: int| 0 <= j < i ==> (#[trigger] v@[j]).id@ != id@,
        decreases n - i,
    {
        if str_eq(v[i].id.as_str(), id) {
            proof {
                let ids = v@.map_values(|rec: ContentRecord| rec.id@);
                assert(ids[i as int] == id@);
                assert(ids.contains(id@));
            }
            return true;
        }
        i += 1;
    }
    proof {
        let ids = v@.map_values(|rec: ContentRecord| rec.id@);
        assert forall|t: int| 0 <= t < ids.len() implies ids[t] != id@ by {
            assert(ids[t] == v@[t].id@);
        }
    }
    false
}

/// Add-to-set on an optional list of delivery records, keyed by content id.
fn push_unique_record(list: Option<Vec<ContentRecord>>, content_id: &str, now: u64) -> (r: Option<
    Vec<ContentRecord>,
>)
    ensures
        opt_record_ids(r) == (if opt_record_ids(list).contains(content_id@) {
            opt_record_ids(list)
        } else {
            opt_record_ids(list).push(content_id@)
        }),
        opt_record_ids(list).no_duplicates() ==> opt_record_ids(r).no_duplicates(),
{
    match list {
        None => {
            let mut v: Vec<ContentRecord> = Vec::new();
            v.push(ContentRecord { id: String::from_str(content_id), delivered_at: now });
            proof {
                assert(v@.map_values(|rec: ContentRecord| rec.id@) =~= Seq::<
                    Seq<char>,
                >::empty().push(content_id@));
                lemma_push_no_dup(Seq::<Seq<char>>::empty(), content_id@);
            }
            Some(v)
        },
        Some(mut v) => {
            if contains_record_id(&v, content_id) {
                Some(v)
            } else {
                let ghost before = v@.map_values(|rec: ContentRecord| rec.id@);
                v.push(ContentRecord { id: String::from_str(content_id), delivered_at: now });
                proof {
                    assert(v@.map_values(|rec: ContentRecord| rec.id@) =~= before.push(
                        content_id@,
                    ));
                    if before.no_duplicates() {
                        lemma_push_no_dup(before, content_id@);
                    }
                }
                Some(v)
            }
        },
    }
}

} // verus!
