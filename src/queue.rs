//! The Queue Store and Job Intake.
//!
//! The store keeps the pending jobs in the order they were accepted and a
//! counter that hands out identities. Every change returns the snapshot
//! that is to be written to the queue file, so the file can be kept equal
//! to the store: a job still in the file was not finished.
use vstd::prelude::*;
use crate::models::{copy_text, DownloadParams, DownloadQueueItem, DownloadRequest, DownloadResponse, JobResult};
use crate::paths::{is_safe_subfolder, join_path, joined, subfolder_is_safe};
use crate::text::{chars_of, concat, string_from, trim, trimmed};

verus! {

/// The store as a mathematical value: the pending jobs in order of
/// acceptance, and the last identity handed out.
pub struct QueueState {
    pub items: Seq<DownloadQueueItem>,
    pub last_id: nat,
}

/// No pending job has an identity above the last one handed out.
pub open spec fn well_formed(s: QueueState) -> bool {
    forall|i: int| 0 <= i < s.items.len() ==> (#[trigger] s.items[i]).id <= s.last_id
}

/// A change of the store.
pub enum QueueOp {
    /// A job was accepted.
    Accept(DownloadQueueItem),
    /// The job with this identity left the queue.
    Remove(u64),
}

/// The store after one change.
pub open spec fn apply_op(s: QueueState, op: QueueOp) -> QueueState {
    match op {
        QueueOp::Accept(item) => QueueState { items: s.items.push(item), last_id: item.id as nat },
        QueueOp::Remove(id) => QueueState {
            items: s.items.filter(|x: DownloadQueueItem| x.id != id),
            last_id: s.last_id,
        },
    }
}

/// An accepted job takes the identity after the last one.
pub open spec fn op_allowed(s: QueueState, op: QueueOp) -> bool {
    match op {
        QueueOp::Accept(item) => item.id == s.last_id + 1,
        QueueOp::Remove(_) => true,
    }
}

/// An item is kept by a removal exactly when it was there and has another
/// identity.
pub proof fn lemma_remove_member(items: Seq<DownloadQueueItem>, id: u64, x: DownloadQueueItem)
    ensures
        items.filter(|z: DownloadQueueItem| z.id != id).contains(x) <==> (items.contains(x) && x.id
            != id),
{
    broadcast use vstd::seq_lib::group_filter_ensures;

    let f = |z: DownloadQueueItem| z.id != id;
    if items.filter(f).contains(x) {
        items.lemma_filter_contains_rev(f, x);
        let k = choose|k: int| 0 <= k < items.filter(f).len() && items.filter(f)[k] == x;
        assert(f(items.filter(f)[k]));
    }
    if items.contains(x) && x.id != id {
        let k = choose|k: int| 0 <= k < items.len() && items[k] == x;
        assert(f(items[k]));
    }
}

/// The store after a series of changes.
pub open spec fn run_ops(s: QueueState, ops: Seq<QueueOp>) -> QueueState
    decreases ops.len(),
{
    if ops.len() == 0 {
        s
    } else {
        apply_op(run_ops(s, ops.drop_last()), ops.last())
    }
}

/// Every change of the series was allowed where it happened.
pub open spec fn ops_allowed(s: QueueState, ops: Seq<QueueOp>) -> bool {
    forall|k: int| 0 <= k < ops.len() ==> op_allowed(run_ops(s, ops.take(k)), #[trigger] ops[k])
}

/// Why a request was not taken, or a job not handed over.
#[derive(Clone, Debug, PartialEq, Eq)]
pub enum IntakeError {
    /// The URL is empty.
    MissingUrl,
    /// The subfolder is absolute or steps out of the download root.
    UnsafeSubfolder,
    /// The job's directory could not be created.
    FolderUnavailable { reason: String },
    /// Every identity was handed out.
    IdentitiesExhausted,
    /// The worker could not take the job.
    HandoverFailed,
}

/// A request that passed validation, with its defaults filled in.
#[derive(Clone, Debug, PartialEq, Eq)]
pub struct PreparedJob {
    pub params: DownloadParams,
    pub subfolder: String,
}

/// An accepted job: its identity, what the worker needs, and the queue
/// snapshot to write.
#[derive(Debug)]
pub struct Admission {
    pub id: u64,
    pub params: DownloadParams,
    pub snapshot: Vec<DownloadQueueItem>,
}

/// The text of an option, or a default.
pub open spec fn or_default(o: Option<String>, d: Seq<char>) -> Seq<char> {
    match o {
        Some(s) => s@,
        None => d,
    }
}

/// What validation makes of a request, given the download root.
pub open spec fn prepared_from(req: DownloadRequest, root: Seq<char>, p: PreparedJob) -> bool {
    let sub = or_default(req.subfolder, Seq::empty());
    &&& p.params.url == req.url
    &&& p.params.quality@ == or_default(req.quality, "best"@)
    &&& p.params.format_selector@ == or_default(req.format, "mp4"@)
    &&& p.subfolder@ == sub
    &&& p.params.output_path@ == (if sub.len() == 0 {
        root
    } else {
        joined(root, sub)
    })
    &&& p.params.custom_title == req.title
    &&& p.params.username == req.username
    &&& p.params.password == req.password
}

/// The queue record of a prepared job under an identity.
pub open spec fn item_of(p: PreparedJob, id: u64) -> DownloadQueueItem {
    DownloadQueueItem {
        url: p.params.url,
        quality: p.params.quality,
        format_selector: p.params.format_selector,
        subfolder: p.subfolder,
        title: p.params.custom_title,
        username: p.params.username,
        password: p.params.password,
        id,
    }
}

fn text_or(o: &Option<String>, d: &str) -> (r: String)
    ensures
        r@ == or_default(*o, d@),
{
    match o {
        Some(s) => s.clone(),
        None => string_from(d),
    }
}

/// Checks a request and fills in its defaults: quality `best`, format
/// `mp4`, no subfolder. The job's directory is the subfolder in `root`.
pub fn validate_request(req: &DownloadRequest, root: &str) -> (r: Result<PreparedJob, IntakeError>)
    ensures
        trim(req.url@).len() == 0 ==> r == Err::<PreparedJob, IntakeError>(IntakeError::MissingUrl),
        trim(req.url@).len() > 0 && !is_safe_subfolder(or_default(req.subfolder, Seq::empty()))
            ==> r == Err::<PreparedJob, IntakeError>(IntakeError::UnsafeSubfolder),
        trim(req.url@).len() > 0 && is_safe_subfolder(or_default(req.subfolder, Seq::empty()))
            ==> (r matches Ok(p) && prepared_from(*req, root@, p)),
{
    let url = trimmed(req.url.as_str());
    let url_chars = chars_of(url.as_str());
    if url_chars.len() == 0 {
        return Err(IntakeError::MissingUrl);
    }
    let subfolder = text_or(&req.subfolder, "");
    proof {
        reveal_strlit("");
    }
    if !subfolder_is_safe(subfolder.as_str()) {
        return Err(IntakeError::UnsafeSubfolder);
    }
    let sub_chars = chars_of(subfolder.as_str());
    let output_path = if sub_chars.len() == 0 {
        string_from(root)
    } else {
        join_path(root, subfolder.as_str())
    };
    let params = DownloadParams {
        url: req.url.clone(),
        quality: text_or(&req.quality, "best"),
        format_selector: text_or(&req.format, "mp4"),
        output_path,
        custom_title: copy_text(&req.title),
        username: copy_text(&req.username),
        password: copy_text(&req.password),
    };
    let p = PreparedJob { params, subfolder };
    assert(p.params.url == req.url);
    assert(p.params.quality@ == or_default(req.quality, "best"@));
    assert(p.subfolder@ == or_default(req.subfolder, Seq::empty()));
    assert(p.params.custom_title == req.title);
    Ok(p)
}

/// The pending jobs and the identity counter.
pub struct QueueStore {
    items: Vec<DownloadQueueItem>,
    last_id: u64,
}

/// The largest identity among the jobs, or 0.
pub open spec fn max_id(items: Seq<DownloadQueueItem>) -> nat
    decreases items.len(),
{
    if items.len() == 0 {
        0
    } else {
        let m = max_id(items.drop_last());
        if items.last().id > m {
            items.last().id as nat
        } else {
            m
        }
    }
}

proof fn lemma_max_id(items: Seq<DownloadQueueItem>)
    ensures
        forall|i: int| 0 <= i < items.len() ==> (#[trigger] items[i]).id <= max_id(items),
        max_id(items) <= u64::MAX,
    decreases items.len(),
{
    if items.len() > 0 {
        lemma_max_id(items.drop_last());
        assert forall|i: int| 0 <= i < items.len() implies (#[trigger] items[i]).id <= max_id(
            items,
        ) by {
            if i < items.len() - 1 {
                assert(items[i] == items.drop_last()[i]);
            }
        }
    }
}

impl View for QueueStore {
    type V = QueueState;

    closed spec fn view(&self) -> QueueState {
        QueueState { items: self.items@, last_id: self.last_id as nat }
    }
}

fn copy_items(items: &Vec<DownloadQueueItem>) -> (r: Vec<DownloadQueueItem>)
    ensures
        r@ == items@,
{
    let mut r: Vec<DownloadQueueItem> = Vec::new();
    let mut i: usize = 0;
    while i < items.len()
        invariant
            i <= items.len(),
            r@ == items@.take(i as int),
        decreases items.len() - i,
    {
        r.push(items[i].duplicate());
        assert(items@.take(i + 1) =~= items@.take(i as int).push(items@[i as int]));
        i = i + 1;
    }
    assert(items@.take(items.len() as int) =~= items@);
    r
}

impl QueueStore {
    #[verifier::type_invariant]
    spec fn inv(&self) -> bool {
        well_formed(self@)
    }

    /// An empty store; the first identity will be 1.
    pub fn new() -> (r: QueueStore)
        ensures
            r@.items.len() == 0,
            r@.last_id == 0,
            well_formed(r@),
    {
        QueueStore { items: Vec::new(), last_id: 0 }
    }

    /// The store as loaded from the queue file: the jobs in their order, and
    /// identities that continue after the largest one loaded.
    pub fn from_loaded(items: Vec<DownloadQueueItem>) -> (r: QueueStore)
        ensures
            r@.items == items@,
            r@.last_id == max_id(items@),
            well_formed(r@),
    {
        let mut last: u64 = 0;
        let mut i: usize = 0;
        while i < items.len()
            invariant
                i <= items.len(),
                last == max_id(items@.take(i as int)),
            decreases items.len() - i,
        {
            assert(items@.take(i + 1).drop_last() =~= items@.take(i as int));
            if items[i].id > last {
                last = items[i].id;
            }
            i = i + 1;
        }
        assert(items@.take(items.len() as int) =~= items@);
        proof {
            lemma_max_id(items@);
        }
        QueueStore { items, last_id: last }
    }

    /// The last identity handed out.
    pub fn last_id(&self) -> (r: u64)
        ensures
            r == self@.last_id,
    {
        self.last_id
    }

    /// The number of pending jobs.
    pub fn len(&self) -> (r: usize)
        ensures
            r == self@.items.len(),
    {
        self.items.len()
    }

    /// The pending jobs in order of acceptance.
    pub fn pending(&self) -> (r: Vec<DownloadQueueItem>)
        ensures
            r@ == self@.items,
            well_formed(self@),
    {
        proof {
            use_type_invariant(self);
        }
        copy_items(&self.items)
    }

    /// Accepts a prepared job under the next identity and returns the
    /// snapshot to write. When every identity was handed out, nothing
    /// changes.
    pub fn enqueue(&mut self, job: &PreparedJob) -> (r: Result<Admission, IntakeError>)
        ensures
            well_formed(final(self)@),
            old(self)@.last_id == u64::MAX ==> r == Err::<Admission, IntakeError>(
                IntakeError::IdentitiesExhausted,
            ) && final(self)@ == old(self)@,
            old(self)@.last_id < u64::MAX ==> ({
                &&& r matches Ok(a)
                &&& a.id == old(self)@.last_id + 1
                &&& op_allowed(old(self)@, QueueOp::Accept(item_of(*job, a.id)))
                &&& final(self)@ == apply_op(old(self)@, QueueOp::Accept(item_of(*job, a.id)))
                &&& forall|i: int|
                    0 <= i < old(self)@.items.len() ==> (#[trigger] old(self)@.items[i]).id < a.id
                &&& a.params == job.params
                &&& a.snapshot@ == final(self)@.items
            }),
    {
        proof {
            use_type_invariant(&*self);
        }
        if self.last_id == u64::MAX {
            return Err(IntakeError::IdentitiesExhausted);
        }
        let id = self.last_id + 1;
        let item = DownloadQueueItem {
            url: job.params.url.clone(),
            quality: job.params.quality.clone(),
            format_selector: job.params.format_selector.clone(),
            subfolder: job.subfolder.clone(),
            title: copy_text(&job.params.custom_title),
            username: copy_text(&job.params.username),
            password: copy_text(&job.params.password),
            id,
        };
        let ghost before = self@;
        let mut items = copy_items(&self.items);
        items.push(item);
        *self = QueueStore { items, last_id: id };
        assert(self@.items =~= before.items.push(item_of(*job, id)));
        let snapshot = copy_items(&self.items);
        Ok(Admission { id, params: job.params.duplicate(), snapshot })
    }

    /// Validates a request and accepts it: Job Intake. A rejected request
    /// leaves the store as it was.
    pub fn submit(&mut self, req: &DownloadRequest, root: &str) -> (r: Result<
        Admission,
        IntakeError,
    >)
        ensures
            well_formed(final(self)@),
            trim(req.url@).len() == 0 ==> r == Err::<Admission, IntakeError>(
                IntakeError::MissingUrl,
            ) && final(self)@ == old(self)@,
            trim(req.url@).len() > 0 && !is_safe_subfolder(or_default(req.subfolder, Seq::empty()))
                ==> r == Err::<Admission, IntakeError>(IntakeError::UnsafeSubfolder)
                && final(self)@ == old(self)@,
            trim(req.url@).len() > 0 && is_safe_subfolder(or_default(req.subfolder, Seq::empty()))
                && old(self)@.last_id == u64::MAX ==> r == Err::<Admission, IntakeError>(
                IntakeError::IdentitiesExhausted,
            ) && final(self)@ == old(self)@,
            trim(req.url@).len() > 0 && is_safe_subfolder(or_default(req.subfolder, Seq::empty()))
                && old(self)@.last_id < u64::MAX ==> ({
                &&& r matches Ok(a)
                &&& exists|p: PreparedJob|
                    {
                        &&& prepared_from(*req, root@, p)
                        &&& a.id == old(self)@.last_id + 1
                        &&& final(self)@ == apply_op(old(self)@, QueueOp::Accept(item_of(p, a.id)))
                        &&& a.params == p.params
                        &&& a.snapshot@ == final(self)@.items
                    }
            }),
    {
        proof {
            use_type_invariant(&*self);
        }
        let job = match validate_request(req, root) {
            Ok(job) => job,
            Err(e) => return Err(e),
        };
        let r = self.enqueue(&job);
        proof {
            if r is Ok {
                assert(prepared_from(*req, root@, job));
            }
        }
        r
    }

    /// Removes the job with this identity, once it was processed or could
    /// not be handed over, and returns the snapshot to write.
    pub fn remove(&mut self, id: u64) -> (snapshot: Vec<DownloadQueueItem>)
        ensures
            well_formed(final(self)@),
            final(self)@ == apply_op(old(self)@, QueueOp::Remove(id)),
            forall|i: int|
                0 <= i < final(self)@.items.len() ==> (#[trigger] final(self)@.items[i]).id != id,
            snapshot@ == final(self)@.items,
    {
        proof {
            use_type_invariant(&*self);
        }
        let ghost before = self@;
        let mut kept: Vec<DownloadQueueItem> = Vec::new();
        let mut i: usize = 0;
        while i < self.items.len()
            invariant
                i <= self.items.len(),
                self@ == before,
                kept@ == self.items@.take(i as int).filter(|x: DownloadQueueItem| x.id != id),
            decreases self.items.len() - i,
        {
            let ghost prefix = self.items@.take(i as int);
            assert(self.items@.take(i + 1) =~= prefix.push(self.items@[i as int]));
            proof {
                prefix.lemma_filter_push(self.items@[i as int], |x: DownloadQueueItem| x.id != id);
            }
            if self.items[i].id != id {
                kept.push(self.items[i].duplicate());
            }
            i = i + 1;
        }
        assert(self.items@.take(self.items.len() as int) =~= self.items@);
        proof {
            let f = |x: DownloadQueueItem| x.id != id;
            assert forall|k: int| 0 <= k < kept@.len() implies (#[trigger] kept@[k]).id != id by {
                assert(f(kept@[k]));
            }
            assert forall|k: int| 0 <= k < kept@.len() implies (#[trigger] kept@[k]).id
                <= before.last_id by {
                assert(kept@.contains(kept@[k]));
                lemma_remove_member(before.items, id, kept@[k]);
                let m = choose|m: int| 0 <= m < before.items.len() && before.items[m] == kept@[k];
                assert(before.items[m].id <= before.last_id);
            }
        }
        *self = QueueStore { items: kept, last_id: self.last_id };
        copy_items(&self.items)
    }

    /// What follows the attempt to hand an accepted job to the worker: if
    /// the worker did not take it, the job leaves the queue again and the
    /// snapshot to write comes back.
    pub fn settle_handover(&mut self, id: u64, delivered: bool) -> (r: Option<Vec<DownloadQueueItem>>)
        ensures
            well_formed(final(self)@),
            delivered ==> r is None && final(self)@ == old(self)@,
            !delivered ==> ({
                &&& r matches Some(snapshot)
                &&& final(self)@ == apply_op(old(self)@, QueueOp::Remove(id))
                &&& snapshot@ == final(self)@.items
            }),
    {
        proof {
            use_type_invariant(&*self);
        }
        if delivered {
            None
        } else {
            Some(self.remove(id))
        }
    }
}

proof fn lemma_last_id_grows(s: QueueState, ops: Seq<QueueOp>, k: int)
    requires
        0 <= k <= ops.len(),
        ops_allowed(s, ops),
    ensures
        run_ops(s, ops.take(k)).last_id <= run_ops(s, ops).last_id,
        run_ops(s, ops).last_id >= s.last_id,
    decreases ops.len(),
{
    if ops.len() > 0 {
        let init = ops.drop_last();
        assert forall|j: int| 0 <= j < init.len() implies op_allowed(
            run_ops(s, init.take(j)),
            #[trigger] init[j],
        ) by {
            assert(init.take(j) =~= ops.take(j));
            assert(init[j] == ops[j]);
        }
        assert(ops.take(ops.len() - 1) =~= init);
        assert(op_allowed(run_ops(s, init), ops[ops.len() - 1]));
        if k < ops.len() {
            assert(init.take(k) =~= ops.take(k));
            lemma_last_id_grows(s, init, k);
        } else {
            assert(ops.take(k) =~= ops);
            lemma_last_id_grows(s, init, 0);
        }
    } else {
        assert(ops.take(k) =~= ops);
    }
}

/// Identities are strictly increasing over the life of a store, removals
/// included: of two jobs accepted one after the other, the later has the
/// larger identity, and an accepted job's identity is above that of every
/// job pending when it came.
pub proof fn lemma_identities_increase(s: QueueState, ops: Seq<QueueOp>, i: int, j: int)
    requires
        well_formed(s),
        ops_allowed(s, ops),
        0 <= i < j < ops.len(),
        ops[i] is Accept,
        ops[j] is Accept,
    ensures
        ops[i]->Accept_0.id < ops[j]->Accept_0.id,
        forall|k: int|
            0 <= k < run_ops(s, ops.take(j)).items.len() ==> (#[trigger] run_ops(
                s,
                ops.take(j),
            ).items[k]).id < ops[j]->Accept_0.id,
{
    let before_i = ops.take(i);
    let upto_i = ops.take(i + 1);
    let before_j = ops.take(j);
    assert(op_allowed(run_ops(s, before_i), ops[i]));
    assert(op_allowed(run_ops(s, before_j), ops[j]));
    assert(upto_i.drop_last() =~= before_i);
    assert(run_ops(s, upto_i).last_id == ops[i]->Accept_0.id);
    assert forall|k: int| 0 <= k < before_j.len() implies op_allowed(
        run_ops(s, before_j.take(k)),
        #[trigger] before_j[k],
    ) by {
        assert(before_j.take(k) =~= ops.take(k));
        assert(before_j[k] == ops[k]);
        assert(op_allowed(run_ops(s, ops.take(k)), ops[k]));
    }
    assert(before_j.take(i + 1) =~= upto_i);
    lemma_last_id_grows(s, before_j, i + 1);
    lemma_well_formed_kept(s, before_j);
}

/// A store stays well formed through allowed changes.
pub proof fn lemma_well_formed_kept(s: QueueState, ops: Seq<QueueOp>)
    requires
        well_formed(s),
        ops_allowed(s, ops),
    ensures
        well_formed(run_ops(s, ops)),
    decreases ops.len(),
{
    if ops.len() > 0 {
        let init = ops.drop_last();
        assert forall|j: int| 0 <= j < init.len() implies op_allowed(
            run_ops(s, init.take(j)),
            #[trigger] init[j],
        ) by {
            assert(init.take(j) =~= ops.take(j));
            assert(init[j] == ops[j]);
        }
        lemma_well_formed_kept(s, init);
        assert(ops.take(ops.len() - 1) =~= init);
        assert(op_allowed(run_ops(s, init), ops[ops.len() - 1]));
        let pre = run_ops(s, init);
        let post = run_ops(s, ops);
        match ops.last() {
            QueueOp::Accept(item) => {
                assert forall|k: int| 0 <= k < post.items.len() implies (
                #[trigger] post.items[k]).id <= post.last_id by {
                    if k < pre.items.len() {
                        assert(post.items[k] == pre.items[k]);
                    }
                }
            },
            QueueOp::Remove(id) => {
                assert forall|k: int| 0 <= k < post.items.len() implies (
                #[trigger] post.items[k]).id <= post.last_id by {
                    assert(post.items.contains(post.items[k]));
                    lemma_remove_member(pre.items, id, post.items[k]);
                    let m = choose|m: int| 0 <= m < pre.items.len() && pre.items[m] == post.items[k];
                    assert(pre.items[m].id <= pre.last_id);
                }
            },
        }
    }
}

/// The job is accepted at step `k` and not removed after it.
pub open spec fn pending_since(ops: Seq<QueueOp>, x: DownloadQueueItem, k: int) -> bool {
    &&& 0 <= k < ops.len()
    &&& ops[k] == QueueOp::Accept(x)
    &&& forall|m: int| k < m < ops.len() ==> #[trigger] ops[m] != QueueOp::Remove(x.id)
}

/// The store holds exactly the jobs accepted and not yet finished: a job is
/// in it after a series of changes if and only if it was there at the start
/// or accepted during the series, and no removal of its identity came
/// later. In particular a job is gone once it was removed.
pub proof fn lemma_queue_holds_unfinished(s: QueueState, ops: Seq<QueueOp>, x: DownloadQueueItem)
    ensures
        run_ops(s, ops).items.contains(x) <==> ((s.items.contains(x) && forall|m: int|
            0 <= m < ops.len() ==> #[trigger] ops[m] != QueueOp::Remove(x.id)) || exists|k: int|
            pending_since(ops, x, k)),
    decreases ops.len(),
{
    if ops.len() > 0 {
        let n = ops.len() - 1;
        let init = ops.drop_last();
        lemma_queue_holds_unfinished(s, init, x);
        let pre = run_ops(s, init);
        let post = run_ops(s, ops);
        let from_start = s.items.contains(x) && forall|m: int|
            0 <= m < ops.len() ==> #[trigger] ops[m] != QueueOp::Remove(x.id);
        let from_start_init = s.items.contains(x) && forall|m: int|
            0 <= m < init.len() ==> #[trigger] init[m] != QueueOp::Remove(x.id);
        match ops[n] {
            QueueOp::Accept(y) => {
                assert(post.items == pre.items.push(y));
                if post.items.contains(x) {
                    if x == y {
                        assert(pending_since(ops, x, n));
                    } else {
                        let k = choose|k: int| 0 <= k < post.items.len() && post.items[k] == x;
                        assert(pre.items[k] == x);
                        assert(pre.items.contains(x));
                        if from_start_init {
                            assert forall|m: int| 0 <= m < ops.len() implies #[trigger] ops[m]
                                != QueueOp::Remove(x.id) by {
                                if m < n {
                                    assert(init[m] == ops[m]);
                                }
                            }
                        } else {
                            let k2 = choose|k2: int| pending_since(init, x, k2);
                            assert(init[k2] == ops[k2]);
                            assert forall|m: int| k2 < m < ops.len() implies #[trigger] ops[m]
                                != QueueOp::Remove(x.id) by {
                                if m < n {
                                    assert(init[m] == ops[m]);
                                }
                            }
                            assert(pending_since(ops, x, k2));
                        }
                    }
                } else {
                    assert(!pre.items.contains(x)) by {
                        if pre.items.contains(x) {
                            let k = choose|k: int| 0 <= k < pre.items.len() && pre.items[k] == x;
                            assert(post.items[k] == x);
                        }
                    }
                    assert(x != y) by {
                        assert(post.items[pre.items.len() as int] == y);
                    }
                    if from_start {
                        assert forall|m: int| 0 <= m < init.len() implies #[trigger] init[m]
                            != QueueOp::Remove(x.id) by {
                            assert(init[m] == ops[m]);
                        }
                    }
                    if exists|k: int| pending_since(ops, x, k) {
                        let k = choose|k: int| pending_since(ops, x, k);
                        assert(k < n);
                        assert(init[k] == ops[k]);
                        assert forall|m: int| k < m < init.len() implies #[trigger] init[m]
                            != QueueOp::Remove(x.id) by {
                            assert(init[m] == ops[m]);
                        }
                        assert(pending_since(init, x, k));
                    }
                }
            },
            QueueOp::Remove(id) => {
                lemma_remove_member(pre.items, id, x);
                if post.items.contains(x) {
                    if from_start_init {
                        assert forall|m: int| 0 <= m < ops.len() implies #[trigger] ops[m]
                            != QueueOp::Remove(x.id) by {
                            if m < n {
                                assert(init[m] == ops[m]);
                            }
                        }
                    } else {
                        let k2 = choose|k2: int| pending_since(init, x, k2);
                        assert(init[k2] == ops[k2]);
                        assert forall|m: int| k2 < m < ops.len() implies #[trigger] ops[m]
                            != QueueOp::Remove(x.id) by {
                            if m < n {
                                assert(init[m] == ops[m]);
                            }
                        }
                        assert(pending_since(ops, x, k2));
                    }
                } else {
                    if from_start {
                        assert(ops[n] != QueueOp::Remove(x.id));
                        assert forall|m: int| 0 <= m < init.len() implies #[trigger] init[m]
                            != QueueOp::Remove(x.id) by {
                            assert(init[m] == ops[m]);
                        }
                    }
                    if exists|k: int| pending_since(ops, x, k) {
                        let k = choose|k: int| pending_since(ops, x, k);
                        assert(k < n);
                        assert(ops[n] != QueueOp::Remove(x.id));
                        assert(init[k] == ops[k]);
                        assert forall|m: int| k < m < init.len() implies #[trigger] init[m]
                            != QueueOp::Remove(x.id) by {
                            assert(init[m] == ops[m]);
                        }
                        assert(pending_since(init, x, k));
                    }
                }
            },
        }
    }
}

/// The message of an intake error.
pub open spec fn intake_message(e: IntakeError) -> Seq<char> {
    match e {
        IntakeError::MissingUrl => "URL jest wymagany"@,
        IntakeError::UnsafeSubfolder => "Nieprawidłowa nazwa podfolderu"@,
        IntakeError::FolderUnavailable { reason } => "Nie udało się utworzyć folderu: "@ + reason@,
        IntakeError::IdentitiesExhausted => "Wyczerpano identyfikatory zadań"@,
        IntakeError::HandoverFailed => "Nie udało się dodać zadania do kolejki"@,
    }
}

impl IntakeError {
    /// The HTTP status for the error: 400 for a bad request, 500 otherwise.
    pub fn status(&self) -> (r: u16)
        ensures
            r == (if self is MissingUrl || self is UnsafeSubfolder {
                400u16
            } else {
                500u16
            }),
    {
        match self {
            IntakeError::MissingUrl | IntakeError::UnsafeSubfolder => 400,
            _ => 500,
        }
    }

    /// The message for the client.
    pub fn message(&self) -> (r: String)
        ensures
            r@ == intake_message(*self),
    {
        match self {
            IntakeError::MissingUrl => string_from("URL jest wymagany"),
            IntakeError::UnsafeSubfolder => string_from("Nieprawidłowa nazwa podfolderu"),
            IntakeError::FolderUnavailable { reason } => concat(
                "Nie udało się utworzyć folderu: ",
                reason.as_str(),
            ),
            IntakeError::IdentitiesExhausted => string_from("Wyczerpano identyfikatory zadań"),
            IntakeError::HandoverFailed => string_from("Nie udało się dodać zadania do kolejki"),
        }
    }
}

/// The answer to a request that was not taken.
pub fn rejection_response(e: &IntakeError) -> (r: DownloadResponse)
    ensures
        !r.success,
        r.message is None,
        r.error matches Some(m) && m@ == intake_message(*e),
        r.output_path is None,
        r.id is None,
{
    DownloadResponse {
        success: false,
        message: None,
        error: Some(e.message()),
        output_path: None,
        id: None,
    }
}

/// The answer to a request that was queued, given at once.
pub fn accepted_response(id: u64) -> (r: DownloadResponse)
    ensures
        r.success,
        r.message matches Some(m) && m@ == "Dodano do kolejki"@,
        r.error is None,
        r.output_path is None,
        r.id == Some(id),
{
    DownloadResponse {
        success: true,
        message: Some(string_from("Dodano do kolejki")),
        error: None,
        output_path: None,
        id: Some(id),
    }
}

/// The HTTP status of a job's answer: the result's own code where it is a
/// valid status code (100 to 999), 500 otherwise.
pub open spec fn answer_status(r: JobResult) -> u16 {
    if r.success {
        200
    } else if 100 <= r.http_status <= 999 {
        r.http_status
    } else {
        500
    }
}

/// The answer to a request whose caller waited for the job's result.
pub fn result_response(res: JobResult, id: u64) -> (r: (u16, DownloadResponse))
    ensures
        r.0 == answer_status(res),
        r.1.success == res.success,
        r.1.message == res.message,
        r.1.error == (if res.success {
            None
        } else {
            res.error
        }),
        r.1.output_path == res.output_path,
        r.1.id == Some(id),
{
    let status: u16 = if res.success {
        200
    } else if 100 <= res.http_status && res.http_status <= 999 {
        res.http_status
    } else {
        500
    };
    let error = if res.success {
        None
    } else {
        res.error
    };
    (status, DownloadResponse {
        success: res.success,
        message: res.message,
        error,
        output_path: res.output_path,
        id: Some(id),
    })
}

} // verus!
