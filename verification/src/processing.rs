//! The request queue: the operations a chat can submit, the bounded queue
//! they wait in, and the retry rule the processor applies after each drain
//! cycle — failed requests are kept, successful ones are dropped.

pub mod updater;

use vstd::prelude::*;
use vstd::string::StringExecFns;

use crate::api::{
    clone_attachments, Api, ContentItem, ContentItemView, DataForDownload, DataType, DataView,
    SubscriptionType, TelegramUser,
};
use crate::common::description_builder::{build_spec, BuilderView, DescriptionBuilder};

verus! {

/// One queued fetch-or-subscribe operation.
#[derive(Debug)]
pub struct RequestModel {
    pub chat_id: String,
    pub stype: SubscriptionType,
    pub user: String,
    pub api: Api,
}

/// One queued direct-link resolution.
#[derive(Debug)]
pub struct LinkInfo {
    pub chat_id: String,
    pub telegram_user: TelegramUser,
    pub api: Api,
    pub link: String,
}

/// The three operation kinds the processor accepts.
#[derive(Debug)]
pub enum UserRequest {
    LastNData(RequestModel, u8),
    Subscribe(RequestModel),
    ProcessLink(LinkInfo),
}

/// Why an engine operation did not complete.
#[derive(Debug, PartialEq, Eq, Structural)]
pub enum ProcessingError {
    /// The bounded queue is at capacity; the submitter is told so at once.
    QueueFull,
    /// A provider or network failure; a queued request is retried next cycle.
    Transient,
}

/// The bounded FIFO between the command layer and the processor.
///
/// Submission fails fast when the queue is at capacity.  Requests kept after
/// a failed cycle are merged back in front of newer arrivals, so the queue
/// may transiently exceed its capacity by the retained requests; capacity
/// only limits new submissions.
#[derive(Debug)]
pub struct RequestQueue {
    items: Vec<UserRequest>,
    capacity: usize,
}

impl View for RequestQueue {
    type V = Seq<UserRequest>;

    closed spec fn view(&self) -> Seq<UserRequest> {
        self.items@
    }
}

impl RequestQueue {
    /// The capacity the queue was created with.
    pub closed spec fn cap(&self) -> usize {
        self.capacity
    }

    pub fn new(capacity: usize) -> (q: RequestQueue)
        ensures
            q@ =~= Seq::<UserRequest>::empty(),
            q.cap() == capacity,
    {
        RequestQueue { items: Vec::new(), capacity }
    }

    pub fn len(&self) -> (n: usize)
        ensures
            n == self@.len(),
    {
        self.items.len()
    }

    /// Fail-fast submission: accepted exactly when the queue is below
    /// capacity, and then appended at the tail.
    pub fn try_enqueue(&mut self, request: UserRequest) -> (r: Result<(), ProcessingError>)
        ensures
            final(self).cap() == old(self).cap(),
            old(self)@.len() < old(self).cap() ==> r is Ok && final(self)@ == old(self)@.push(
                request,
            ),
            old(self)@.len() >= old(self).cap() ==> r == Result::<(), ProcessingError>::Err(
                ProcessingError::QueueFull,
            ) && final(self)@ == old(self)@,
    {
        if self.items.len() < self.capacity {
            self.items.push(request);
            Ok(())
        } else {
            Err(ProcessingError::QueueFull)
        }
    }

    /// Non-blocking drain: every queued request, in submission order; new
    /// arrivals during processing go into the next batch.
    pub fn drain(&mut self) -> (batch: Vec<UserRequest>)
        ensures
            final(self).cap() == old(self).cap(),
            batch@ == old(self)@,
            final(self)@ =~= Seq::<UserRequest>::empty(),
    {
        let batch = self.items.split_off(0);
        proof {
            assert(batch@ =~= old(self)@);
        }
        batch
    }

    /// Merge the requests kept after a failed cycle back in, ahead of
    /// anything submitted while the batch was being processed.
    pub fn requeue(&mut self, kept: Vec<UserRequest>)
        ensures
            final(self).cap() == old(self).cap(),
            final(self)@ == kept@ + old(self)@,
    {
        let mut merged = kept;
        let mut tail = self.items.split_off(0);
        merged.append(&mut tail);
        self.items = merged;
    }
}

/// The local cache file an attachment is downloaded to, keyed by its stable
/// name and the extension of its media kind.
pub open spec fn attachment_filename_spec(name: Seq<char>, data_type: DataType) -> Seq<char> {
    "content/"@ + name + "."@ + (match data_type {
        DataType::Video => "mp4"@,
        DataType::Image => "jpg"@,
    })
}

/// The cache path of one attachment.
pub fn attachment_filename(attachment: &DataForDownload) -> (r: String)
    ensures
        r@ == attachment_filename_spec(attachment.name@, attachment.data_type),
{
    let mut s = String::from_str("content/");
    s.append(attachment.name.as_str());
    s.append(".");
    s.append(attachment.data_type.to_extension());
    s
}

/// Every attachment of a batch, in item order: what must be downloaded to
/// the cache before any send, so a mid-batch send never references a
/// partially written file.
pub open spec fn flat_attachments(items: Seq<ContentItemView>) -> Seq<DataView>
    decreases items.len(),
{
    if items.len() == 0 {
        Seq::<DataView>::empty()
    } else {
        flat_attachments(items.drop_last()) + items.last().attachments
    }
}

pub fn collect_attachments(items: &Vec<ContentItem>) -> (out: Vec<DataForDownload>)
    ensures
        out.deep_view() == flat_attachments(items.deep_view()),
{
    let n = items.len();
    let mut out: Vec<DataForDownload> = Vec::new();
    let mut i: usize = 0;
    proof {
        assert(items.deep_view().take(0) =~= Seq::<ContentItemView>::empty());
        assert(out.deep_view() =~= Seq::<DataView>::empty());
    }
    while i < n
        invariant
            n == items@.len(),
            0 <= i <= n,
            out.deep_view() == flat_attachments(items.deep_view().take(i as int)),
        decreases n - i,
    {
        let ghost before = out.deep_view();
        let mut chunk = clone_attachments(&items[i].attachments);
        let ghost chunk_view = chunk.deep_view();
        out.append(&mut chunk);
        proof {
            assert(chunk_view =~= items.deep_view()[i as int].attachments);
            assert(out.deep_view() =~= before + items.deep_view()[i as int].attachments);
            assert(items.deep_view().take(i as int + 1).drop_last() =~= items.deep_view().take(
                i as int,
            ));
            assert(items.deep_view().take(i as int + 1).last() == items.deep_view()[i as int]);
        }
        i += 1;
    }
    proof {
        assert(items.deep_view().take(n as int) =~= items.deep_view());
    }
    out
}

/// One element of a grouped-media message: the cached file, its kind, and
/// the caption — which sits on exactly the first element.
#[derive(Debug)]
pub struct MediaItem {
    pub filename: String,
    pub data_type: DataType,
    pub caption: Option<String>,
}

/// How one item is sent to one chat.
#[derive(Debug)]
pub enum SendPlan {
    /// A single formatted text message.
    TextMessage(String),
    /// A single grouped-media message, captioned on its first element.
    MediaGroup(Vec<MediaItem>),
}

/// The total size of the cached attachment files.  A file missing from the
/// cache is reported by the driver with a large placeholder size, so it can
/// never sneak a broken group past the size check.
pub open spec fn total_bytes(sizes: Seq<u64>) -> int
    decreases sizes.len(),
{
    if sizes.len() == 0 {
        0
    } else {
        total_bytes(sizes.drop_last()) + sizes.last()
    }
}

/// Decide how one item goes out, given its rendered caption builder and the
/// local sizes of its cached attachments: plain text when there is nothing
/// to attach, a caption-only text message when the files exceed the media
/// size cap, else one grouped-media message with the caption on its first
/// element.
pub fn plan_send(
    builder: DescriptionBuilder,
    content: &ContentItem,
    attachment_sizes: &Vec<u64>,
) -> (plan: SendPlan)
    requires
        attachment_sizes@.len() == content.attachments@.len(),
    ensures
        content.attachments@.len() == 0 ==> (plan matches SendPlan::TextMessage(t) && t@
            == build_spec(BuilderView { size_limit: Some(4096usize), ..builder@ })),
        content.attachments@.len() > 0 && total_bytes(attachment_sizes@) > 50 * 1024 * 1024
            ==> (plan matches SendPlan::TextMessage(t) && t@ == build_spec(
            BuilderView {
                size_limit: Some(4096usize),
                achieved_content_size_limit: Some(true),
                ..builder@
            },
        )),
        content.attachments@.len() > 0 && total_bytes(attachment_sizes@) <= 50 * 1024 * 1024 ==> {
            &&& plan matches SendPlan::MediaGroup(media)
            &&& media@.len() == content.attachments@.len()
            &&& forall|i: int|
                0 <= i < media@.len() ==> {
                    &&& (#[trigger] media@[i]).filename@ == attachment_filename_spec(
                        content@.attachments[i].name,
                        content@.attachments[i].data_type,
                    )
                    &&& media@[i].data_type == content@.attachments[i].data_type
                    &&& (i == 0 ==> (media@[i].caption matches Some(c) && c@ == build_spec(
                        BuilderView { size_limit: Some(1024usize), ..builder@ },
                    )))
                    &&& (i != 0 ==> media@[i].caption is None)
                }
        },
{
    proof {
        reveal_strlit("... [Read more in the source]");
    }
    if content.attachments.len() == 0 {
        let text = builder.size_limit(4096).build();
        SendPlan::TextMessage(text)
    } else {
        let n = attachment_sizes.len();
        let mut total: u64 = 0;
        let mut i: usize = 0;
        proof {
            assert(attachment_sizes@.take(0) =~= Seq::<u64>::empty());
        }
        while i < n
            invariant
                n == attachment_sizes@.len(),
                0 <= i <= n,
                (if total_bytes(attachment_sizes@.take(i as int)) <= u64::MAX {
                    total as int == total_bytes(attachment_sizes@.take(i as int))
                } else {
                    total == u64::MAX
                }),
            decreases n - i,
        {
            let x = attachment_sizes[i];
            if total > u64::MAX - x {
                total = u64::MAX;
            } else {
                total = total + x;
            }
            proof {
                assert(attachment_sizes@.take(i as int + 1).drop_last() =~= attachment_sizes@.take(
                    i as int,
                ));
                assert(attachment_sizes@.take(i as int + 1).last() == attachment_sizes@[i as int]);
            }
            i += 1;
        }
        proof {
            assert(attachment_sizes@.take(n as int) =~= attachment_sizes@);
        }
        if total > 50 * 1024 * 1024 {
            let text = builder.size_limit(4096).achieved_content_size_limit(true).build();
            SendPlan::TextMessage(text)
        } else {
            let caption = builder.size_limit(1024).build();
            let mut media: Vec<MediaItem> = Vec::new();
            let count = content.attachments.len();
            let mut j: usize = 0;
            let mut caption_slot: Option<String> = Some(caption);
            while j < count
                invariant
                    count == content.attachments@.len(),
                    0 <= j <= count,
                    media@.len() == j,
                    j == 0 ==> (caption_slot matches Some(c) && c@ == build_spec(
                        BuilderView { size_limit: Some(1024usize), ..builder@ },
                    )),
                    j > 0 ==> caption_slot is None,
                    forall|t: int|
                        0 <= t < j ==> {
                            &&& (#[trigger] media@[t]).filename@ == attachment_filename_spec(
                                content@.attachments[t].name,
                                content@.attachments[t].data_type,
                            )
                            &&& media@[t].data_type == content@.attachments[t].data_type
                            &&& (t == 0 ==> (media@[t].caption matches Some(c) && c@
                                == build_spec(
                                BuilderView { size_limit: Some(1024usize), ..builder@ },
                            )))
                            &&& (t != 0 ==> media@[t].caption is None)
                        },
                decreases count - j,
            {
                let attachment = &content.attachments[j];
                let mut taken: Option<String> = None;
                let mut slot = caption_slot;
                match slot {
                    Some(c) => {
                        taken = Some(c);
                        slot = None;
                    },
                    None => {},
                }
                caption_slot = slot;
                media.push(
                    MediaItem {
                        filename: attachment_filename(attachment),
                        data_type: attachment.data_type,
                        caption: taken,
                    },
                );
                j += 1;
            }
            SendPlan::MediaGroup(media)
        }
    }
}

/// The requests of a drained batch whose handler reported failure, in order.
pub open spec fn failed_subseq(batch: Seq<UserRequest>, succeeded: Seq<bool>) -> Seq<UserRequest>
    decreases batch.len(),
{
    if batch.len() == 0 {
        Seq::empty()
    } else {
        let rest = failed_subseq(batch.drop_first(), succeeded.drop_first());
        if succeeded.len() > 0 && !succeeded[0] {
            seq![batch[0]] + rest
        } else {
            rest
        }
    }
}

/// Keep exactly the requests whose handler failed, preserving their order.
pub fn retain_failed(batch: Vec<UserRequest>, succeeded: &Vec<bool>) -> (kept: Vec<UserRequest>)
    requires
        succeeded@.len() == batch@.len(),
    ensures
        kept@ == failed_subseq(batch@, succeeded@),
{
    let ghost obatch = batch@;
    let ghost osucc = succeeded@;
    let mut rem = batch;
    let n0 = rem.len();
    let mut kept: Vec<UserRequest> = Vec::new();
    let mut i: usize = 0;
    proof {
        assert(obatch.skip(0) =~= obatch);
        assert(osucc.skip(0) =~= osucc);
        assert(Seq::<UserRequest>::empty() + failed_subseq(obatch, osucc) =~= failed_subseq(
            obatch,
            osucc,
        ));
    }
    while rem.len() > 0
        invariant
            succeeded@ == osucc,
            osucc.len() == obatch.len(),
            n0 == obatch.len(),
            0 <= i <= n0,
            i + rem@.len() == n0,
            rem@ == obatch.skip(i as int),
            kept@ + failed_subseq(obatch.skip(i as int), osucc.skip(i as int)) == failed_subseq(
                obatch,
                osucc,
            ),
        decreases rem@.len(),
    {
        let request = rem.remove(0);
        proof {
            assert(rem@ =~= obatch.skip(i as int).drop_first());
            assert(obatch.skip(i as int).drop_first() =~= obatch.skip(i as int + 1));
            assert(osucc.skip(i as int).drop_first() =~= osucc.skip(i as int + 1));
            assert(obatch.skip(i as int)[0] == obatch[i as int]);
            assert(osucc.skip(i as int)[0] == osucc[i as int]);
        }
        if !succeeded[i] {
            let ghost before = kept@;
            kept.push(request);
            proof {
                assert(kept@ =~= before + seq![obatch[i as int]]);
                assert((before + seq![obatch[i as int]]) + failed_subseq(
                    obatch.skip(i as int + 1),
                    osucc.skip(i as int + 1),
                ) =~= before + (seq![obatch[i as int]] + failed_subseq(
                    obatch.skip(i as int + 1),
                    osucc.skip(i as int + 1),
                )));
            }
        }
        i += 1;
    }
    proof {
        assert(obatch.skip(obatch.len() as int) =~= Seq::<UserRequest>::empty());
        assert(kept@ + Seq::<UserRequest>::empty() =~= kept@);
    }
    kept
}

/// Law: a request whose handler returned an error is still enumerable in the
/// retained batch after the cycle — it will be attempted again.
pub proof fn lemma_failed_request_kept(batch: Seq<UserRequest>, succeeded: Seq<bool>, i: int)
    requires
        succeeded.len() == batch.len(),
        0 <= i < batch.len(),
        !succeeded[i],
    ensures
        failed_subseq(batch, succeeded).contains(batch[i]),
    decreases i,
{
    if i == 0 {
        let whole = failed_subseq(batch, succeeded);
        assert(whole[0] == batch[0]);
        assert(whole.contains(batch[0]));
    } else {
        assert(batch.drop_first()[i - 1] == batch[i]);
        assert(succeeded.drop_first()[i - 1] == succeeded[i]);
        lemma_failed_request_kept(batch.drop_first(), succeeded.drop_first(), i - 1);
        let rest = failed_subseq(batch.drop_first(), succeeded.drop_first());
        let j = choose|j: int| 0 <= j < rest.len() && rest[j] == batch[i];
        if !succeeded[0] {
            assert(failed_subseq(batch, succeeded)[j + 1] == batch[i]);
        }
        assert(failed_subseq(batch, succeeded).contains(batch[i]));
    }
}

/// Law: once the handler succeeds, the request disappears permanently — no
/// copy of it whose handler succeeded is retained.  (A value-equal duplicate
/// that failed in the same batch is of course kept.)
pub proof fn lemma_succeeded_request_dropped(
    batch: Seq<UserRequest>,
    succeeded: Seq<bool>,
    request: UserRequest,
)
    requires
        succeeded.len() == batch.len(),
        forall|j: int| 0 <= j < batch.len() && batch[j] == request ==> succeeded[j],
    ensures
        !failed_subseq(batch, succeeded).contains(request),
    decreases batch.len(),
{
    if batch.len() > 0 {
        assert(forall|j: int|
            0 <= j < batch.drop_first().len() && #[trigger] batch.drop_first()[j] == request
                ==> succeeded.drop_first()[j]) by {
            assert(forall|j: int|
                0 <= j < batch.drop_first().len() ==> #[trigger] batch.drop_first()[j] == batch[j
                    + 1] && succeeded.drop_first()[j] == succeeded[j + 1]);
        }
        lemma_succeeded_request_dropped(batch.drop_first(), succeeded.drop_first(), request);
        let whole = failed_subseq(batch, succeeded);
        let rest = failed_subseq(batch.drop_first(), succeeded.drop_first());
        if !succeeded[0] {
            assert(batch[0] != request);
            if whole.contains(request) {
                let j = choose|j: int| 0 <= j < whole.len() && whole[j] == request;
                if j == 0 {
                    assert(whole[0] == batch[0]);
                    assert(false);
                } else {
                    assert(whole[j] == rest[j - 1]);
                    assert(rest.contains(request));
                    assert(false);
                }
            }
        }
    }
}

} // verus!
