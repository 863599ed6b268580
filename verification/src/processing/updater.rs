//! The per-provider polling scheduler and the queue processor: deduplication
//! of fetched batches, per-user update planning, fan-out delivery recording,
//! and the execution of queued requests.

use vstd::prelude::*;
use vstd::string::StringExecFns;

use crate::api::{
    clone_item, clone_string_vec, clone_user_info, Api, ContentItem, ContentItemView, OutputType,
    SubscriptionType, UserInfo, UserInfoView,
};
use crate::database::{
    add_to_set_spec, chats_of, delivered_ids, is_delivered_spec, subscribed, users_of_chat,
    ProviderStore, Storage, User,
};
use crate::processing::{LinkInfo, ProcessingError, RequestModel, UserRequest};

verus! {

/// The items of a fetched batch not yet marked delivered for `(u, k)`.
pub open spec fn not_delivered_filter(
    s: ProviderStore,
    u: Seq<char>,
    k: SubscriptionType,
    items: Seq<ContentItemView>,
) -> Seq<ContentItemView> {
    items.filter(|it: ContentItemView| !is_delivered_spec(s, u, k, it.id))
}

/// The items kept after the store lookups came back: an item survives exactly
/// when its lookup succeeded and answered "not delivered".  A failed lookup
/// (`None`) counts as delivered — fail closed, no double-posting.
pub open spec fn keep_by_flags(items: Seq<ContentItemView>, delivered: Seq<Option<bool>>) -> Seq<
    ContentItemView,
>
    decreases items.len(),
{
    if items.len() == 0 {
        Seq::empty()
    } else {
        let rest = keep_by_flags(items.drop_first(), delivered.drop_first());
        if delivered.len() > 0 && delivered[0] == Some(false) {
            seq![items[0]] + rest
        } else {
            rest
        }
    }
}

proof fn lemma_keep_by_flags_push(
    items: Seq<ContentItemView>,
    flags: Seq<Option<bool>>,
    it: ContentItemView,
    fl: Option<bool>,
)
    requires
        flags.len() == items.len(),
    ensures
        keep_by_flags(items.push(it), flags.push(fl)) == keep_by_flags(items, flags) + (if fl
            == Some(false) {
            seq![it]
        } else {
            Seq::<ContentItemView>::empty()
        }),
    decreases items.len(),
{
    let tail = if fl == Some(false) {
        seq![it]
    } else {
        Seq::<ContentItemView>::empty()
    };
    if items.len() == 0 {
        assert(items.push(it)[0] == it);
        assert(flags.push(fl)[0] == fl);
        assert(items.push(it).drop_first() =~= Seq::<ContentItemView>::empty());
        assert(flags.push(fl).drop_first() =~= Seq::<Option<bool>>::empty());
        assert(keep_by_flags(items, flags) =~= Seq::<ContentItemView>::empty());
        assert(keep_by_flags(
            Seq::<ContentItemView>::empty(),
            Seq::<Option<bool>>::empty(),
        ) == Seq::<ContentItemView>::empty());
        assert(seq![it] + Seq::<ContentItemView>::empty() =~= seq![it]);
        assert(keep_by_flags(items.push(it), flags.push(fl)) =~= tail);
        assert(keep_by_flags(items, flags) + tail =~= tail);
    } else {
        assert(items.push(it).drop_first() =~= items.drop_first().push(it));
        assert(flags.push(fl).drop_first() =~= flags.drop_first().push(fl));
        lemma_keep_by_flags_push(items.drop_first(), flags.drop_first(), it, fl);
        assert(items.push(it)[0] == items[0]);
        assert(flags.push(fl)[0] == flags[0]);
        if flags[0] == Some(false) {
            assert((seq![items[0]] + keep_by_flags(items.drop_first(), flags.drop_first())) + tail
                =~= seq![items[0]] + (keep_by_flags(items.drop_first(), flags.drop_first())
                + tail));
        }
    }
}

/// When every lookup succeeded and answered truthfully, keeping by flags is
/// exactly the not-yet-delivered filter.
proof fn lemma_flags_match_filter(
    s: ProviderStore,
    u: Seq<char>,
    k: SubscriptionType,
    items: Seq<ContentItemView>,
    flags: Seq<Option<bool>>,
)
    requires
        flags.len() == items.len(),
        forall|i: int|
            0 <= i < items.len() ==> flags[i] == Some(
                is_delivered_spec(s, u, k, (#[trigger] items[i]).id),
            ),
    ensures
        keep_by_flags(items, flags) == not_delivered_filter(s, u, k, items),
    decreases items.len(),
{
    reveal(Seq::filter);
    if items.len() > 0 {
        let pre = items.drop_last();
        let fpre = flags.drop_last();
        assert(forall|i: int| 0 <= i < pre.len() ==> pre[i] == items[i]);
        assert(forall|i: int| 0 <= i < fpre.len() ==> fpre[i] == flags[i]);
        lemma_flags_match_filter(s, u, k, pre, fpre);
        lemma_keep_by_flags_push(pre, fpre, items.last(), flags.last());
        assert(pre.push(items.last()) =~= items);
        assert(fpre.push(flags.last()) =~= flags);
        assert(flags.last() == Some(is_delivered_spec(s, u, k, items.last().id)));
        if !is_delivered_spec(s, u, k, items.last().id) {
            assert(keep_by_flags(items, flags) =~= not_delivered_filter(s, u, k, pre).push(
                items.last(),
            ));
        } else {
            assert(keep_by_flags(items, flags) =~= not_delivered_filter(s, u, k, pre));
        }
    }
}

/// Combine a fetched batch with its store lookups, keeping the items whose
/// lookup succeeded and answered "not delivered" (fail closed).
pub fn keep_undelivered(content: &Vec<ContentItem>, delivered: &Vec<Option<bool>>) -> (kept: Vec<
    ContentItem,
>)
    requires
        delivered@.len() == content@.len(),
    ensures
        kept.deep_view() == keep_by_flags(content.deep_view(), delivered@),
{
    let n = content.len();
    let mut kept: Vec<ContentItem> = Vec::new();
    let mut i: usize = 0;
    proof {
        assert(content.deep_view().take(0) =~= Seq::<ContentItemView>::empty());
        assert(delivered@.take(0) =~= Seq::<Option<bool>>::empty());
        assert(kept.deep_view() =~= Seq::<ContentItemView>::empty());
    }
    while i < n
        invariant
            n == content@.len(),
            delivered@.len() == content@.len(),
            0 <= i <= n,
            kept.deep_view() == keep_by_flags(content.deep_view().take(i as int), delivered@.take(
                i as int,
            )),
        decreases n - i,
    {
        let ghost prefix = content.deep_view().take(i as int);
        let ghost fprefix = delivered@.take(i as int);
        let keep = match delivered[i] {
            Some(f) => !f,
            None => false,
        };
        if keep {
            let ghost before = kept.deep_view();
            kept.push(clone_item(&content[i]));
            proof {
                assert(kept.deep_view() =~= before.push(content.deep_view()[i as int]));
            }
        }
        proof {
            lemma_keep_by_flags_push(prefix, fprefix, content.deep_view()[i as int], delivered@[
                i as int
            ]);
            assert(content.deep_view().take(i + 1) =~= prefix.push(content.deep_view()[i as int]));
            assert(delivered@.take(i + 1) =~= fprefix.push(delivered@[i as int]));
            if delivered@[i as int] == Some(false) {
                assert(kept.deep_view() =~= keep_by_flags(prefix, fprefix) + seq![
                    content.deep_view()[i as int],
                ]);
            } else {
                assert(keep_by_flags(
                    content.deep_view().take(i + 1),
                    delivered@.take(i + 1),
                ) == keep_by_flags(prefix, fprefix) + Seq::<ContentItemView>::empty());
                assert(keep_by_flags(prefix, fprefix) + Seq::<ContentItemView>::empty()
                    =~= keep_by_flags(prefix, fprefix));
            }
        }
        i += 1;
    }
    proof {
        assert(content.deep_view().take(n as int) =~= content.deep_view());
        assert(delivered@.take(n as int) =~= delivered@);
    }
    kept
}

/// The dedup filter: of a fetched batch, the items not yet recorded delivered
/// for `(user_id, stype)` under provider `api`, in fetched order.
pub fn filter_sent_content(
    db: &Storage,
    api: Api,
    content: &Vec<ContentItem>,
    user_id: &str,
    stype: SubscriptionType,
) -> (kept: Vec<ContentItem>)
    ensures
        kept.deep_view() == not_delivered_filter(
            db.store_of(api),
            user_id@,
            stype,
            content.deep_view(),
        ),
{
    let n = content.len();
    let mut delivered: Vec<Option<bool>> = Vec::new();
    let mut i: usize = 0;
    while i < n
        invariant
            n == content@.len(),
            0 <= i <= n,
            delivered@.len() == i,
            forall|j: int|
                0 <= j < i ==> delivered@[j] == Some(
                    is_delivered_spec(
                        db.store_of(api),
                        user_id@,
                        stype,
                        (#[trigger] content.deep_view()[j]).id,
                    ),
                ),
        decreases n - i,
    {
        delivered.push(Some(db.is_delivered(api, content[i].id.as_str(), user_id, stype)));
        i += 1;
    }
    let kept = keep_undelivered(content, &delivered);
    proof {
        lemma_flags_match_filter(
            db.store_of(api),
            user_id@,
            stype,
            content.deep_view(),
            delivered@,
        );
    }
    kept
}

/// Law: the dedup filter is idempotent — filtering an already-filtered batch
/// against the same store keeps every item, so two filter passes without an
/// intervening delivery record yield the same surviving set.
pub proof fn lemma_dedup_idempotent(
    s: ProviderStore,
    u: Seq<char>,
    k: SubscriptionType,
    items: Seq<ContentItemView>,
)
    ensures
        not_delivered_filter(s, u, k, not_delivered_filter(s, u, k, items))
            == not_delivered_filter(s, u, k, items),
    decreases items.len(),
{
    reveal(Seq::filter);
    broadcast use vstd::seq_lib::group_filter_ensures;

    let once = not_delivered_filter(s, u, k, items);
    assert forall|i: int| 0 <= i < once.len() implies !is_delivered_spec(
        s,
        u,
        k,
        (#[trigger] once[i]).id,
    ) by {
        let pred = |it: ContentItemView| !is_delivered_spec(s, u, k, it.id);
        assert(pred(items.filter(pred)[i]));
    }
    lemma_filter_all_kept(s, u, k, once);
}

/// A batch none of whose items is recorded delivered passes the filter whole.
proof fn lemma_filter_all_kept(
    s: ProviderStore,
    u: Seq<char>,
    k: SubscriptionType,
    items: Seq<ContentItemView>,
)
    requires
        forall|i: int|
            0 <= i < items.len() ==> !is_delivered_spec(s, u, k, (#[trigger] items[i]).id),
    ensures
        not_delivered_filter(s, u, k, items) == items,
    decreases items.len(),
{
    reveal(Seq::filter);
    if items.len() > 0 {
        let pre = items.drop_last();
        assert(forall|i: int| 0 <= i < pre.len() ==> pre[i] == items[i]);
        lemma_filter_all_kept(s, u, k, pre);
        assert(!is_delivered_spec(s, u, k, items.last().id));
        assert(not_delivered_filter(s, u, k, items) =~= pre.push(items.last()));
        assert(pre.push(items.last()) =~= items);
    }
}

/// Law: once `record_delivered` has succeeded for an id, no item carrying
/// that id survives a later dedup filter pass.
pub proof fn lemma_no_duplicate_after_ack(
    s: ProviderStore,
    u: Seq<char>,
    k: SubscriptionType,
    id: Seq<char>,
    items: Seq<ContentItemView>,
)
    requires
        is_delivered_spec(s, u, k, id),
    ensures
        forall|i: int|
            0 <= i < not_delivered_filter(s, u, k, items).len() ==> (#[trigger] not_delivered_filter(
                s,
                u,
                k,
                items,
            )[i]).id != id,
{
    broadcast use vstd::seq_lib::group_filter_ensures;

    let pred = |it: ContentItemView| !is_delivered_spec(s, u, k, it.id);
    assert forall|i: int| 0 <= i < not_delivered_filter(s, u, k, items).len() implies (
    #[trigger] not_delivered_filter(s, u, k, items)[i]).id != id by {
        assert(pred(items.filter(pred)[i]));
    }
}

/// A fetched batch in delivery order: the provider returns newest first, and
/// delivery must run oldest first, so a crash mid-batch leaves the oldest
/// items undelivered and the next poll naturally resumes from them.
pub fn reverse_items(items: &Vec<ContentItem>) -> (r: Vec<ContentItem>)
    ensures
        r.deep_view() == items.deep_view().reverse(),
{
    let n = items.len();
    let mut out: Vec<ContentItem> = Vec::new();
    let mut i: usize = 0;
    while i < n
        invariant
            n == items@.len(),
            0 <= i <= n,
            out.deep_view().len() == i,
            forall|j: int|
                0 <= j < i ==> out.deep_view()[j] == items.deep_view()[n - 1 - j],
        decreases n - i,
    {
        let ghost before = out.deep_view();
        out.push(clone_item(&items[n - 1 - i]));
        proof {
            assert(out.deep_view() =~= before.push(items.deep_view()[n - 1 - i as int]));
        }
        i += 1;
    }
    proof {
        assert(out.deep_view() =~= items.deep_view().reverse());
    }
    out
}

/// One planned fan-out: one surviving item, sent to every subscriber chat.
#[derive(Debug)]
pub struct ItemDispatch {
    pub item_id: String,
    pub chats: Vec<String>,
}

/// The dispatch sequence of a scheduler round for one user: for each item in
/// delivery order, one send per subscriber chat.
pub fn plan_dispatches(items: &Vec<ContentItem>, chats: &Vec<String>) -> (plan: Vec<ItemDispatch>)
    ensures
        plan@.len() == items@.len(),
        forall|i: int|
            0 <= i < plan@.len() ==> (#[trigger] plan@[i]).item_id@ == items.deep_view()[i].id
                && plan@[i].chats.deep_view() == chats.deep_view(),
{
    let n = items.len();
    let mut plan: Vec<ItemDispatch> = Vec::new();
    let mut i: usize = 0;
    while i < n
        invariant
            n == items@.len(),
            0 <= i <= n,
            plan@.len() == i,
            forall|j: int|
                0 <= j < i ==> (#[trigger] plan@[j]).item_id@ == items.deep_view()[j].id
                    && plan@[j].chats.deep_view() == chats.deep_view(),
        decreases n - i,
    {
        plan.push(ItemDispatch { item_id: items[i].id.clone(), chats: clone_string_vec(chats) });
        i += 1;
    }
    plan
}

/// Everything one scheduler round needs for one user: the surviving items in
/// delivery order, the subscriber chats, and the planned dispatch sequence.
#[derive(Debug)]
pub struct UserUpdatePlan {
    pub to_send: Vec<ContentItem>,
    pub chats: Vec<String>,
    pub dispatches: Vec<ItemDispatch>,
}

fn empty_update_plan() -> (p: UserUpdatePlan)
    ensures
        p.to_send@.len() == 0,
        p.dispatches@.len() == 0,
        p.chats@.len() == 0,
{
    UserUpdatePlan { to_send: Vec::new(), chats: Vec::new(), dispatches: Vec::new() }
}

/// One scheduler step for one user and kind: skip the user when no chat is
/// subscribed or the profile could not be resolved upstream; otherwise keep
/// the fetched items not yet delivered, oldest first, fanned out to every
/// subscriber chat.
pub fn prepare_user_update(
    db: &Storage,
    api: Api,
    user: &User,
    stype: SubscriptionType,
    profile_found: bool,
    fetched: &Vec<ContentItem>,
) -> (plan: UserUpdatePlan)
    ensures
        (user.spec_chats(stype).len() == 0 || !profile_found) ==> {
            &&& plan.to_send@.len() == 0
            &&& plan.dispatches@.len() == 0
            &&& plan.chats@.len() == 0
        },
        (user.spec_chats(stype).len() > 0 && profile_found) ==> {
            &&& plan.chats.deep_view() == user.spec_chats(stype)
            &&& plan.to_send.deep_view() == not_delivered_filter(
                db.store_of(api),
                user.id@,
                stype,
                fetched.deep_view(),
            ).reverse()
            &&& plan.dispatches@.len() == plan.to_send@.len()
            &&& forall|i: int|
                0 <= i < plan.dispatches@.len() ==> (#[trigger] plan.dispatches@[i]).item_id@
                    == plan.to_send.deep_view()[i].id && plan.dispatches@[i].chats.deep_view()
                    == user.spec_chats(stype)
        },
{
    if !profile_found {
        return empty_update_plan();
    }
    let chats: Vec<String> = match user.get_chats_by_subscription_type(stype) {
        Some(list) => clone_string_vec(list),
        None => Vec::new(),
    };
    if chats.len() == 0 {
        proof {
            assert(chats.deep_view().len() == user.spec_chats(stype).len());
        }
        return empty_update_plan();
    }
    proof {
        assert(chats.deep_view() =~= user.spec_chats(stype));
    }
    let survivors = filter_sent_content(db, api, fetched, user.id.as_str(), stype);
    let to_send = reverse_items(&survivors);
    let dispatches = plan_dispatches(&to_send, &chats);
    UserUpdatePlan { to_send, chats, dispatches }
}

/// Whether at least one send of a fan-out succeeded.
pub open spec fn any_true_spec(v: Vec<bool>) -> bool {
    exists|j: int| 0 <= j < v@.len() && v@[j]
}

fn any_true(v: &Vec<bool>) -> (r: bool)
    ensures
        r == any_true_spec(*v),
{
    let n = v.len();
    let mut i: usize = 0;
    while i < n
        invariant
            n == v@.len(),
            0 <= i <= n,
            forall|j: int| 0 <= j < i ==> !v@[j],
        decreases n - i,
    {
        if v[i] {
            return true;
        }
        i += 1;
    }
    false
}

/// Whether some dispatched item carrying id `cid` reached at least one chat.
pub open spec fn some_chat_succeeded(
    sent: Seq<ContentItemView>,
    results: Seq<Vec<bool>>,
    cid: Seq<char>,
) -> bool {
    exists|i: int|
        0 <= i < sent.len() && (#[trigger] sent[i]).id == cid && any_true_spec(results[i])
}

/// Record the outcome of one user's fan-out round: an item is recorded
/// delivered exactly when its dispatch succeeded for at least one chat.  A
/// chat that failed while another succeeded will not see the item again —
/// delivery is recorded per user and kind, not per chat.
pub fn apply_dispatch_results(
    db: &mut Storage,
    api: Api,
    user_id: &str,
    stype: SubscriptionType,
    sent: &Vec<ContentItem>,
    results: &Vec<Vec<bool>>,
    now: u64,
)
    requires
        old(db).wf(),
        results@.len() == sent@.len(),
    ensures
        final(db).wf(),
        forall|cid: Seq<char>|
            (#[trigger] is_delivered_spec(final(db).store_of(api), user_id@, stype, cid)) <==> (
            is_delivered_spec(old(db).store_of(api), user_id@, stype, cid) || some_chat_succeeded(
                sent.deep_view(),
                results@,
                cid,
            )),
        forall|u2: Seq<char>, k2: SubscriptionType|
            !(u2 == user_id@ && k2 == stype) ==> delivered_ids(final(db).store_of(api), u2, k2)
                == delivered_ids(old(db).store_of(api), u2, k2),
        forall|a2: Api|
            a2 != api ==> #[trigger] final(db).store_of(a2) == old(db).store_of(a2),
        final(db).store_of(api).users == old(db).store_of(api).users,
        final(db).store_of(api).chats == old(db).store_of(api).chats,
{
    let ghost db0 = *old(db);
    let n = sent.len();
    let mut i: usize = 0;
    while i < n
        invariant
            n == sent@.len(),
            results@.len() == sent@.len(),
            0 <= i <= n,
            db.wf(),
            forall|cid: Seq<char>|
                (#[trigger] is_delivered_spec(db.store_of(api), user_id@, stype, cid)) <==> (
                is_delivered_spec(db0.store_of(api), user_id@, stype, cid) || some_chat_succeeded(
                    sent.deep_view().take(i as int),
                    results@.take(i as int),
                    cid,
                )),
            forall|u2: Seq<char>, k2: SubscriptionType|
                !(u2 == user_id@ && k2 == stype) ==> delivered_ids(db.store_of(api), u2, k2)
                    == delivered_ids(db0.store_of(api), u2, k2),
            forall|a2: Api| a2 != api ==> #[trigger] db.store_of(a2) == db0.store_of(a2),
            db.store_of(api).users == db0.store_of(api).users,
            db.store_of(api).chats == db0.store_of(api).chats,
        decreases n - i,
    {
        let ghost pre_store = db.store_of(api);
        let succeeded = any_true(&results[i]);
        if succeeded {
            db.record_delivered(api, sent[i].id.as_str(), user_id, stype, now);
        }
        proof {
            let prev = sent.deep_view().take(i as int);
            let rprev = results@.take(i as int);
            let cur = sent.deep_view().take(i + 1);
            let rcur = results@.take(i + 1);
            assert(sent.deep_view()[i as int] == sent@[i as int].deep_view());
            assert(sent.deep_view()[i as int].id == sent@[i as int].id@);
            assert forall|cid: Seq<char>|
                (#[trigger] is_delivered_spec(db.store_of(api), user_id@, stype, cid)) <==> (
                is_delivered_spec(db0.store_of(api), user_id@, stype, cid) || some_chat_succeeded(
                    cur,
                    rcur,
                    cid,
                )) by {
                if succeeded {
                    crate::database::lemma_add_to_set_contains(
                        delivered_ids(pre_store, user_id@, stype),
                        sent.deep_view()[i as int].id,
                        cid,
                    );
                }
                if is_delivered_spec(db.store_of(api), user_id@, stype, cid) {
                    if !is_delivered_spec(db0.store_of(api), user_id@, stype, cid) {
                        if some_chat_succeeded(prev, rprev, cid) {
                            let w = choose|w: int|
                                0 <= w < prev.len() && (#[trigger] prev[w]).id == cid
                                    && any_true_spec(rprev[w]);
                            assert(cur[w].id == cid && any_true_spec(rcur[w]));
                            assert(some_chat_succeeded(cur, rcur, cid));
                        } else {
                            assert(!is_delivered_spec(pre_store, user_id@, stype, cid));
                            assert(succeeded && cid == sent.deep_view()[i as int].id);
                            assert(cur[i as int].id == cid && any_true_spec(rcur[i as int]));
                            assert(some_chat_succeeded(cur, rcur, cid));
                        }
                    }
                } else {
                    if is_delivered_spec(db0.store_of(api), user_id@, stype, cid) {
                        assert(is_delivered_spec(pre_store, user_id@, stype, cid));
                        assert(is_delivered_spec(db.store_of(api), user_id@, stype, cid));
                        assert(false);
                    }
                    if some_chat_succeeded(cur, rcur, cid) {
                        let w = choose|w: int|
                            0 <= w < cur.len() && (#[trigger] cur[w]).id == cid && any_true_spec(
                                rcur[w],
                            );
                        if w < i as int {
                            assert(rprev[w] == results@[w] && rcur[w] == results@[w]);
                            assert(prev[w] == sent.deep_view()[w] && cur[w] == sent.deep_view()[w]);
                            assert(prev[w].id == cid && any_true_spec(rprev[w]));
                            assert(some_chat_succeeded(prev, rprev, cid));
                            assert(is_delivered_spec(pre_store, user_id@, stype, cid));
                            assert(is_delivered_spec(db.store_of(api), user_id@, stype, cid));
                            assert(false);
                        } else {
                            assert(w == i as int);
                            assert(cid == sent.deep_view()[i as int].id);
                            assert(rcur[w] == results@[i as int]);
                            assert(any_true_spec(results@[i as int]));
                            assert(succeeded);
                            assert(is_delivered_spec(db.store_of(api), user_id@, stype, cid));
                            assert(false);
                        }
                    }
                }
            }
            assert(sent.deep_view().take(i as int + 1) == cur && results@.take(i as int + 1)
                == rcur);
        }
        i += 1;
    }
    proof {
        assert(sent.deep_view().take(n as int) =~= sent.deep_view());
        assert(results@.take(n as int) =~= results@);
    }
}

/// What the driver fetched for one queued request before the engine decides.
/// `Err` is a provider or network failure; `Ok(None)` is "not found" upstream.
#[derive(Debug)]
pub enum RequestData {
    ForLastN {
        user: Result<Option<UserInfo>, ProcessingError>,
        items: Result<Vec<ContentItem>, ProcessingError>,
    },
    ForSubscribe {
        user: Result<Option<UserInfo>, ProcessingError>,
        items: Result<Vec<ContentItem>, ProcessingError>,
    },
    ForLink {
        item: Result<Option<ContentItem>, ProcessingError>,
        author: Result<Option<UserInfo>, ProcessingError>,
    },
}

/// One outbound message the driver must send for a processed request.
#[derive(Debug)]
pub enum PlannedSend {
    /// A plain status message to the requesting chat.
    Notice { chat_id: String, text: String },
    /// A content item to render and dispatch.
    Content { chat_id: String, item: ContentItem, user: UserInfo, output: OutputType },
}

/// Whether `s` is the status message `text` to chat `chat`.
pub open spec fn is_notice(s: PlannedSend, chat: Seq<char>, text: Seq<char>) -> bool {
    &&& s matches PlannedSend::Notice { chat_id, text: t }
    &&& chat_id@ == chat
    &&& t@ == text
}

/// Whether `s` dispatches item `item` for `user` to chat `chat` with framing
/// `output`.
pub open spec fn is_content_send(
    s: PlannedSend,
    chat: Seq<char>,
    item: ContentItemView,
    user: UserInfoView,
    output: OutputType,
) -> bool {
    &&& s matches PlannedSend::Content { chat_id, item: it, user: u, output: o }
    &&& chat_id@ == chat
    &&& it@ == item
    &&& u@ == user
    &&& o == output
}

pub open spec fn user_not_found_text(user: Seq<char>) -> Seq<char> {
    "@"@ + user + " user not found."@
}

fn build_user_not_found(user: &str) -> (r: String)
    ensures
        r@ == user_not_found_text(user@),
{
    let mut s = String::from_str("@");
    s.append(user);
    s.append(" user not found.");
    s
}

pub open spec fn subscribe_ok_text(user: Seq<char>, nickname: Seq<char>) -> Seq<char> {
    "Successfully subscribed to "@ + user + " aka "@ + nickname
}

fn build_subscribe_ok(user: &str, nickname: &str) -> (r: String)
    ensures
        r@ == subscribe_ok_text(user@, nickname@),
{
    let mut s = String::from_str("Successfully subscribed to ");
    s.append(user);
    s.append(" aka ");
    s.append(nickname);
    s
}

pub open spec fn subscribe_not_found_text(user: Seq<char>) -> Seq<char> {
    "Failed to subscribe for user: @"@ + user + ". User not found"@
}

fn build_subscribe_not_found(user: &str) -> (r: String)
    ensures
        r@ == subscribe_not_found_text(user@),
{
    let mut s = String::from_str("Failed to subscribe for user: @");
    s.append(user);
    s.append(". User not found");
    s
}

/// How many items a last-N request delivers: N, or the whole batch if the
/// provider returned fewer.
pub open spec fn clamp_len(n: u8, len: int) -> int {
    if (n as int) <= len {
        n as int
    } else {
        len
    }
}

/// What a processed last-N request must have produced: a not-found notice, a
/// transient failure, or the first N fetched items dispatched to the
/// requesting chat, oldest first.
pub open spec fn last_n_post(
    model: RequestModel,
    n: u8,
    user: Result<Option<UserInfo>, ProcessingError>,
    items: Result<Vec<ContentItem>, ProcessingError>,
    r: Result<Vec<PlannedSend>, ProcessingError>,
) -> bool {
    match user {
        Err(_) => r == Result::<Vec<PlannedSend>, ProcessingError>::Err(
            ProcessingError::Transient,
        ),
        Ok(None) => {
            &&& r matches Ok(sends)
            &&& sends@.len() == 1
            &&& is_notice(sends@[0], model.chat_id@, user_not_found_text(model.user@))
        },
        Ok(Some(ui)) => match items {
            Err(_) => r == Result::<Vec<PlannedSend>, ProcessingError>::Err(
                ProcessingError::Transient,
            ),
            Ok(batch) => {
                let selected = batch.deep_view().take(clamp_len(n, batch.deep_view().len() as int))
                    .reverse();
                &&& r matches Ok(sends)
                &&& sends@.len() == selected.len()
                &&& forall|j: int|
                    0 <= j < sends@.len() ==> is_content_send(
                        #[trigger] sends@[j],
                        model.chat_id@,
                        selected[j],
                        ui@,
                        OutputType::BySubscription(model.stype),
                    )
            },
        },
    }
}

/// Process one last-N request: resolve the user, take the first `n` fetched
/// items, and dispatch them to the requesting chat, oldest first.  The store
/// is never touched; a missing user is answered with a notice, not an error.
pub fn last_n_data(
    model: &RequestModel,
    n: u8,
    user: &Result<Option<UserInfo>, ProcessingError>,
    items: Result<Vec<ContentItem>, ProcessingError>,
) -> (r: Result<Vec<PlannedSend>, ProcessingError>)
    ensures
        last_n_post(*model, n, *user, items, r),
{
    match user {
        Err(_) => Err(ProcessingError::Transient),
        Ok(None) => {
            let mut sends: Vec<PlannedSend> = Vec::new();
            sends.push(
                PlannedSend::Notice {
                    chat_id: model.chat_id.clone(),
                    text: build_user_not_found(model.user.as_str()),
                },
            );
            Ok(sends)
        },
        Ok(Some(ui)) => {
            match items {
                Err(_) => Err(ProcessingError::Transient),
                Ok(batch) => {
                    let ghost obatch = batch.deep_view();
                    let mut data = batch;
                    data.truncate(n as usize);
                    proof {
                        let c = clamp_len(n, obatch.len() as int);
                        assert(data.deep_view() =~= obatch.take(c));
                    }
                    let selected = reverse_items(&data);
                    let count = selected.len();
                    let mut sends: Vec<PlannedSend> = Vec::new();
                    let mut j: usize = 0;
                    while j < count
                        invariant
                            count == selected@.len(),
                            0 <= j <= count,
                            sends@.len() == j,
                            forall|t: int|
                                0 <= t < j ==> is_content_send(
                                    #[trigger] sends@[t],
                                    model.chat_id@,
                                    selected.deep_view()[t],
                                    ui@,
                                    OutputType::BySubscription(model.stype),
                                ),
                        decreases count - j,
                    {
                        sends.push(
                            PlannedSend::Content {
                                chat_id: model.chat_id.clone(),
                                item: clone_item(&selected[j]),
                                user: clone_user_info(ui),
                                output: OutputType::BySubscription(model.stype),
                            },
                        );
                        j += 1;
                    }
                    Ok(sends)
                },
            }
        },
    }
}

/// The delivered-id set after backfilling a whole batch, in fetched order.
pub open spec fn record_all(ids: Seq<Seq<char>>, batch: Seq<ContentItemView>) -> Seq<Seq<char>>
    decreases batch.len(),
{
    if batch.len() == 0 {
        ids
    } else {
        record_all(add_to_set_spec(ids, batch[0].id), batch.drop_first())
    }
}

/// Law: backfilling marks exactly the batch ids delivered — afterwards an id
/// is recorded if and only if it was recorded before or occurs in the batch.
pub proof fn lemma_record_all_contains(
    ids: Seq<Seq<char>>,
    batch: Seq<ContentItemView>,
    cid: Seq<char>,
)
    ensures
        record_all(ids, batch).contains(cid) <==> (ids.contains(cid) || exists|i: int|
            0 <= i < batch.len() && (#[trigger] batch[i]).id == cid),
    decreases batch.len(),
{
    if batch.len() > 0 {
        crate::database::lemma_add_to_set_contains(ids, batch[0].id, cid);
        lemma_record_all_contains(add_to_set_spec(ids, batch[0].id), batch.drop_first(), cid);
        assert(forall|i: int|
            0 <= i < batch.drop_first().len() ==> #[trigger] batch.drop_first()[i] == batch[i + 1]);
        if record_all(ids, batch).contains(cid) && !ids.contains(cid) {
            if cid == batch[0].id {
                assert(batch[0].id == cid);
                assert(exists|i: int| 0 <= i < batch.len() && (#[trigger] batch[i]).id == cid);
            } else {
                let w = choose|w: int|
                    0 <= w < batch.drop_first().len() && (#[trigger] batch.drop_first()[w]).id
                        == cid;
                assert(batch[w + 1].id == cid);
            }
        }
        if !record_all(ids, batch).contains(cid) {
            if exists|i: int| 0 <= i < batch.len() && (#[trigger] batch[i]).id == cid {
                let w = choose|w: int| 0 <= w < batch.len() && (#[trigger] batch[w]).id == cid;
                if w == 0 {
                    assert(add_to_set_spec(ids, batch[0].id).contains(cid));
                    assert(false);
                } else {
                    assert(batch.drop_first()[w - 1].id == cid);
                    assert(false);
                }
            }
        }
    }
}

/// Law: backfill-on-first-subscribe.  When the user has no subscriber chat
/// and no delivery record for the kind yet, a processed subscribe leaves
/// exactly the fetched batch recorded as delivered, and plans no content
/// dispatch — its only send is a status notice.  (A user with subscriber
/// chats but no delivery records is not backfilled: the handler decides by
/// the subscriber list, not by the record set.)
pub proof fn lemma_backfill_on_first_subscribe(
    db_old: Storage,
    db_new: Storage,
    model: RequestModel,
    ui: UserInfo,
    batch: Vec<ContentItem>,
    r: Result<Vec<PlannedSend>, ProcessingError>,
)
    requires
        subscribe_post(db_old, db_new, model, Ok(Some(ui)), Ok(batch), r),
        !subscribed(db_old.store_of(model.api), model.user@, model.chat_id@, model.stype),
        chats_of(db_old.store_of(model.api), model.user@, model.stype).len() == 0,
        delivered_ids(db_old.store_of(model.api), model.user@, model.stype).len() == 0,
    ensures
        forall|cid: Seq<char>|
            is_delivered_spec(db_new.store_of(model.api), model.user@, model.stype, cid) <==> (
            exists|i: int|
                0 <= i < batch.deep_view().len() && (#[trigger] batch.deep_view()[i]).id == cid),
        r matches Ok(sends) && forall|j: int|
            0 <= j < sends@.len() ==> (#[trigger] sends@[j]) is Notice,
{
    let store_old = db_old.store_of(model.api);
    let store_new = db_new.store_of(model.api);
    let ids0 = delivered_ids(store_old, model.user@, model.stype);
    assert forall|cid: Seq<char>|
        is_delivered_spec(store_new, model.user@, model.stype, cid) <==> (exists|i: int|
            0 <= i < batch.deep_view().len() && (#[trigger] batch.deep_view()[i]).id == cid) by {
        lemma_record_all_contains(ids0, batch.deep_view(), cid);
        if ids0.contains(cid) {
            let w = choose|w: int| 0 <= w < ids0.len() && ids0[w] == cid;
            assert(false);
        }
    }
    let sends = r.unwrap();
    assert forall|j: int| 0 <= j < sends@.len() implies (#[trigger] sends@[j]) is Notice by {
        assert(j == 0);
        assert(is_notice(
            sends@[0],
            model.chat_id@,
            subscribe_ok_text(model.user@, ui@.nickname),
        ));
    }
}

/// What a processed subscribe request must have produced and changed.
pub open spec fn subscribe_post(
    db_old: Storage,
    db_new: Storage,
    model: RequestModel,
    user: Result<Option<UserInfo>, ProcessingError>,
    items: Result<Vec<ContentItem>, ProcessingError>,
    r: Result<Vec<PlannedSend>, ProcessingError>,
) -> bool {
    let store_old = db_old.store_of(model.api);
    let store_new = db_new.store_of(model.api);
    let was_subscribed = subscribed(store_old, model.user@, model.chat_id@, model.stype);
    let needs_backfill = chats_of(store_old, model.user@, model.stype).len() == 0;
    if was_subscribed {
        // Idempotent: already checked before doing any work.
        &&& db_new == db_old
        &&& r matches Ok(sends) && sends@.len() == 0
    } else {
        match user {
            Err(_) => db_new == db_old && r == Result::<Vec<PlannedSend>, ProcessingError>::Err(
                ProcessingError::Transient,
            ),
            Ok(None) => {
                &&& db_new == db_old
                &&& r matches Ok(sends)
                &&& sends@.len() == 1
                &&& is_notice(sends@[0], model.chat_id@, subscribe_not_found_text(model.user@))
            },
            Ok(Some(ui)) => {
                if needs_backfill {
                    match items {
                        Err(_) => db_new == db_old && r == Result::<
                            Vec<PlannedSend>,
                            ProcessingError,
                        >::Err(ProcessingError::Transient),
                        Ok(batch) => {
                            // Backfill first (only on a first-ever subscribe
                            // for this kind), then subscribe under the
                            // canonical username.
                            &&& delivered_ids(store_new, model.user@, model.stype) == record_all(
                                delivered_ids(store_old, model.user@, model.stype),
                                batch.deep_view(),
                            )
                            &&& forall|u2: Seq<char>, k2: SubscriptionType|
                                !(u2 == model.user@ && k2 == model.stype) ==> delivered_ids(
                                    store_new,
                                    u2,
                                    k2,
                                ) == delivered_ids(store_old, u2, k2)
                            &&& subscribe_applied(db_old, db_new, model, ui@, r)
                        },
                    }
                } else {
                    &&& forall|u2: Seq<char>, k2: SubscriptionType|
                        #[trigger] delivered_ids(store_new, u2, k2) == delivered_ids(
                            store_old,
                            u2,
                            k2,
                        )
                    &&& subscribe_applied(db_old, db_new, model, ui@, r)
                }
            },
        }
    }
}

/// The subscription itself was applied under the canonical username, the
/// reverse index updated in lock-step, nothing else changed, and the chat was
/// told so.
pub open spec fn subscribe_applied(
    db_old: Storage,
    db_new: Storage,
    model: RequestModel,
    ui: UserInfoView,
    r: Result<Vec<PlannedSend>, ProcessingError>,
) -> bool {
    let store_old = db_old.store_of(model.api);
    let store_new = db_new.store_of(model.api);
    &&& chats_of(store_new, ui.username, model.stype) == add_to_set_spec(
        chats_of(store_old, ui.username, model.stype),
        model.chat_id@,
    )
    &&& forall|u2: Seq<char>, k2: SubscriptionType|
        !(u2 == ui.username && k2 == model.stype) ==> chats_of(store_new, u2, k2) == chats_of(
            store_old,
            u2,
            k2,
        )
    &&& users_of_chat(store_new, model.chat_id@, model.stype) == add_to_set_spec(
        users_of_chat(store_old, model.chat_id@, model.stype),
        ui.username,
    )
    &&& forall|c2: Seq<char>, k2: SubscriptionType|
        !(c2 == model.chat_id@ && k2 == model.stype) ==> users_of_chat(store_new, c2, k2)
            == users_of_chat(store_old, c2, k2)
    &&& forall|a2: Api| a2 != model.api ==> #[trigger] db_new.store_of(a2) == db_old.store_of(a2)
    &&& r matches Ok(sends)
    &&& sends@.len() == 1
    &&& is_notice(sends@[0], model.chat_id@, subscribe_ok_text(model.user@, ui.nickname))
}

/// Process one subscribe request.  Re-subscribing an already-subscribed
/// triple is a silent no-op, checked before any work.  On a first-ever
/// subscribe for this kind the current batch is recorded as delivered without
/// being dispatched, so the first scheduled poll does not replay history.
pub fn subscribe(
    db: &mut Storage,
    model: &RequestModel,
    user: &Result<Option<UserInfo>, ProcessingError>,
    items: &Result<Vec<ContentItem>, ProcessingError>,
    now: u64,
) -> (r: Result<Vec<PlannedSend>, ProcessingError>)
    requires
        old(db).wf(),
    ensures
        final(db).wf(),
        subscribe_post(*old(db), *final(db), *model, *user, *items, r),
{
    if db.is_subscribed(model.api, model.user.as_str(), model.chat_id.as_str(), model.stype) {
        return Ok(Vec::new());
    }
    match user {
        Err(_) => Err(ProcessingError::Transient),
        Ok(None) => {
            let mut sends: Vec<PlannedSend> = Vec::new();
            sends.push(
                PlannedSend::Notice {
                    chat_id: model.chat_id.clone(),
                    text: build_subscribe_not_found(model.user.as_str()),
                },
            );
            Ok(sends)
        },
        Ok(Some(ui)) => {
            let ghost db_mid = *db;
            if !db.user_exists(model.api, model.user.as_str(), model.stype) {
                match items {
                    Err(_) => {
                        return Err(ProcessingError::Transient);
                    },
                    Ok(batch) => {
                        let ghost ids0 = delivered_ids(
                            db.store_of(model.api),
                            model.user@,
                            model.stype,
                        );
                        let count = batch.len();
                        let mut i: usize = 0;
                        proof {
                            assert(batch.deep_view().skip(0) =~= batch.deep_view());
                        }
                        while i < count
                            invariant
                                count == batch@.len(),
                                0 <= i <= count,
                                db.wf(),
                                record_all(
                                    delivered_ids(
                                        db.store_of(model.api),
                                        model.user@,
                                        model.stype,
                                    ),
                                    batch.deep_view().skip(i as int),
                                ) == record_all(ids0, batch.deep_view()),
                                forall|u2: Seq<char>, k2: SubscriptionType|
                                    !(u2 == model.user@ && k2 == model.stype) ==> delivered_ids(
                                        db.store_of(model.api),
                                        u2,
                                        k2,
                                    ) == delivered_ids(db_mid.store_of(model.api), u2, k2),
                                forall|a2: Api|
                                    a2 != model.api ==> #[trigger] db.store_of(a2)
                                        == db_mid.store_of(a2),
                                db.store_of(model.api).users == db_mid.store_of(model.api).users,
                                db.store_of(model.api).chats == db_mid.store_of(model.api).chats,
                            decreases count - i,
                        {
                            let ghost pre_ids = delivered_ids(
                                db.store_of(model.api),
                                model.user@,
                                model.stype,
                            );
                            db.record_delivered(
                                model.api,
                                batch[i].id.as_str(),
                                model.user.as_str(),
                                model.stype,
                                now,
                            );
                            proof {
                                assert(batch.deep_view()[i as int].id == batch@[i as int].id@);
                                assert(batch.deep_view().skip(i as int)[0] == batch.deep_view()[
                                    i as int
                                ]);
                                assert(batch.deep_view().skip(i as int).drop_first()
                                    =~= batch.deep_view().skip(i as int + 1));
                            }
                            i += 1;
                        }
                        proof {
                            assert(batch.deep_view().skip(count as int) =~= Seq::<
                                ContentItemView,
                            >::empty());
                        }
                    },
                }
            }
            db.subscribe(model.api, ui.username.as_str(), model.chat_id.as_str(), model.stype);
            let mut sends: Vec<PlannedSend> = Vec::new();
            sends.push(
                PlannedSend::Notice {
                    chat_id: model.chat_id.clone(),
                    text: build_subscribe_ok(model.user.as_str(), ui.nickname.as_str()),
                },
            );
            Ok(sends)
        },
    }
}

/// What a processed direct-link request must have produced: one dispatch of
/// the resolved item to the requesting chat, framed as shared by the
/// requesting chat member; any unresolved piece fails the request so it is
/// retried.
pub open spec fn link_post(
    link_info: LinkInfo,
    item: Result<Option<ContentItem>, ProcessingError>,
    author: Result<Option<UserInfo>, ProcessingError>,
    r: Result<Vec<PlannedSend>, ProcessingError>,
) -> bool {
    match item {
        Ok(Some(it)) => match author {
            Ok(Some(au)) => {
                &&& r matches Ok(sends)
                &&& sends@.len() == 1
                &&& is_content_send(
                    sends@[0],
                    link_info.chat_id@,
                    it@,
                    au@,
                    OutputType::ByLink(link_info.telegram_user),
                )
            },
            _ => r == Result::<Vec<PlannedSend>, ProcessingError>::Err(ProcessingError::Transient),
        },
        _ => r == Result::<Vec<PlannedSend>, ProcessingError>::Err(ProcessingError::Transient),
    }
}

/// Process one direct-link request: the resolved item and its author become a
/// single dispatch to the requesting chat with "shared" framing.
pub fn process_link(
    link_info: &LinkInfo,
    item: Result<Option<ContentItem>, ProcessingError>,
    author: &Result<Option<UserInfo>, ProcessingError>,
) -> (r: Result<Vec<PlannedSend>, ProcessingError>)
    ensures
        link_post(*link_info, item, *author, r),
{
    match item {
        Ok(Some(it)) => {
            match author {
                Ok(Some(au)) => {
                    let mut sends: Vec<PlannedSend> = Vec::new();
                    let tg = crate::api::TelegramUser {
                        name: link_info.telegram_user.name.clone(),
                        id: link_info.telegram_user.id,
                    };
                    sends.push(
                        PlannedSend::Content {
                            chat_id: link_info.chat_id.clone(),
                            item: it,
                            user: clone_user_info(au),
                            output: OutputType::ByLink(tg),
                        },
                    );
                    Ok(sends)
                },
                _ => Err(ProcessingError::Transient),
            }
        },
        _ => Err(ProcessingError::Transient),
    }
}

/// Execute one drained request against the store and the data the driver
/// fetched for it.  Only a subscribe request changes the store.
pub fn start_request(db: &mut Storage, req: &UserRequest, data: RequestData, now: u64) -> (r:
    Result<Vec<PlannedSend>, ProcessingError>)
    requires
        old(db).wf(),
        match *req {
            UserRequest::LastNData(_, _) => data is ForLastN,
            UserRequest::Subscribe(_) => data is ForSubscribe,
            UserRequest::ProcessLink(_) => data is ForLink,
        },
    ensures
        final(db).wf(),
        match *req {
            UserRequest::LastNData(model, n) => {
                &&& *final(db) == *old(db)
                &&& data matches RequestData::ForLastN { user, items } && last_n_post(
                    model,
                    n,
                    user,
                    items,
                    r,
                )
            },
            UserRequest::Subscribe(model) => data matches RequestData::ForSubscribe {
                user,
                items,
            } && subscribe_post(*old(db), *final(db), model, user, items, r),
            UserRequest::ProcessLink(link_info) => {
                &&& *final(db) == *old(db)
                &&& data matches RequestData::ForLink { item, author } && link_post(
                    link_info,
                    item,
                    author,
                    r,
                )
            },
        },
{
    match req {
        UserRequest::LastNData(model, n) => {
            match data {
                RequestData::ForLastN { user, items } => last_n_data(model, *n, &user, items),
                _ => {
                    proof {
                        assert(false);
                    }
                    Err(ProcessingError::Transient)
                },
            }
        },
        UserRequest::Subscribe(model) => {
            match data {
                RequestData::ForSubscribe { user, items } => subscribe(
                    db,
                    model,
                    &user,
                    &items,
                    now,
                ),
                _ => {
                    proof {
                        assert(false);
                    }
                    Err(ProcessingError::Transient)
                },
            }
        },
        UserRequest::ProcessLink(link_info) => {
            match data {
                RequestData::ForLink { item, author } => process_link(link_info, item, &author),
                _ => {
                    proof {
                        assert(false);
                    }
                    Err(ProcessingError::Transient)
                },
            }
        },
    }
}

/// Whether a processed request counts as succeeded: it produced a plan and
/// every planned send went out.  Anything else keeps it queued for retry.
pub fn request_succeeded(
    plan: &Result<Vec<PlannedSend>, ProcessingError>,
    send_ok: &Vec<bool>,
) -> (ok: bool)
    ensures
        ok == (plan is Ok && forall|j: int| 0 <= j < send_ok@.len() ==> send_ok@[j]),
{
    match plan {
        Err(_) => false,
        Ok(_) => {
            let n = send_ok.len();
            let mut j: usize = 0;
            while j < n
                invariant
                    n == send_ok@.len(),
                    0 <= j <= n,
                    forall|t: int| 0 <= t < j ==> send_ok@[t],
                decreases n - j,
            {
                if !send_ok[j] {
                    return false;
                }
                j += 1;
            }
            true
        },
    }
}

} // verus!
