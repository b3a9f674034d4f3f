//! The bounded cache of fetched mail.
//!
//! Headers and bodies are records of one cache. Every record has a size
//! and the time at which it was cached; when the sum of the sizes exceeds
//! the budget, records are evicted one at a time, the one cached earliest
//! first, until the sum is within the budget.

use vstd::prelude::*;
use crate::email::{Attachment, EmailBody, EmailHeader};
use crate::text::{chars_of, contains, has_infix, lowercase, to_lowercase};

verus! {

/// What a record holds.
#[derive(Debug)]
pub enum MailItem {
    Header(EmailHeader),
    Body(EmailBody),
}

/// One cached header or body.
#[derive(Debug)]
pub struct MailRecord {
    pub item: MailItem,
    pub cached_at: i64,
}

/// Sum of the sizes of attachments.
pub open spec fn attachments_size(a: Seq<Attachment>) -> nat
    decreases a.len(),
{
    if a.len() == 0 {
        0
    } else {
        attachments_size(a.drop_last()) + a.last().size as nat
    }
}

/// The size that a record counts for: the size of a header, the sum of
/// the attachment sizes of a body.
pub open spec fn record_size(r: MailRecord) -> nat {
    match r.item {
        MailItem::Header(h) => h.size as nat,
        MailItem::Body(b) => attachments_size(b.attachments@),
    }
}

/// The message that a record belongs to.
pub open spec fn record_uid(r: MailRecord) -> u32 {
    match r.item {
        MailItem::Header(h) => h.uid,
        MailItem::Body(b) => b.uid,
    }
}

/// Whether a record is the body of message `uid`.
pub open spec fn is_body_of(r: MailRecord, uid: u32) -> bool {
    r.item is Body && record_uid(r) == uid
}

/// Whether two records are of the same kind and message.
pub open spec fn same_slot(a: MailRecord, b: MailRecord) -> bool {
    (a.item is Header <==> b.item is Header) && record_uid(a) == record_uid(b)
}

/// Sum of the sizes of all records.
pub open spec fn total_size(rs: Seq<MailRecord>) -> nat
    decreases rs.len(),
{
    if rs.len() == 0 {
        0
    } else {
        total_size(rs.drop_last()) + record_size(rs.last())
    }
}

/// Index of the record that is evicted next: the first among those
/// cached earliest.
pub open spec fn oldest_index(rs: Seq<MailRecord>) -> int
    decreases rs.len(),
{
    if rs.len() <= 1 {
        0
    } else {
        let j = oldest_index(rs.drop_last());
        if rs.last().cached_at < rs[j].cached_at {
            rs.len() - 1
        } else {
            j
        }
    }
}

/// The records that remain when the oldest record is evicted until the
/// sum of the sizes is within `budget`.
pub open spec fn evict_until(rs: Seq<MailRecord>, budget: nat) -> Seq<MailRecord>
    decreases rs.len(),
    via evict_until_decreases
{
    if rs.len() == 0 || total_size(rs) <= budget {
        rs
    } else {
        evict_until(rs.remove(oldest_index(rs)), budget)
    }
}

#[via_fn]
proof fn evict_until_decreases(rs: Seq<MailRecord>, budget: nat) {
    if rs.len() > 0 {
        lemma_oldest_index(rs);
    }
}

/// The records after `r` was stored and before sizes are enforced: the
/// record of the same kind and message is replaced.
pub open spec fn with_record(rs: Seq<MailRecord>, r: MailRecord) -> Seq<MailRecord> {
    rs.filter(|x: MailRecord| !same_slot(x, r)).push(r)
}

/// Index of the body of message `uid`, or `rs.len()` when there is none.
pub open spec fn body_index(rs: Seq<MailRecord>, uid: u32) -> int
    decreases rs.len(),
{
    if rs.len() == 0 || is_body_of(rs[0], uid) {
        0
    } else {
        1 + body_index(rs.drop_first(), uid)
    }
}

/// Whether a header matches a search: subject, sender or recipient
/// contains the query, letters compared without regard to ASCII case.
pub open spec fn header_matches(h: EmailHeader, query: Seq<char>) -> bool {
    let q = lowercase(query);
    has_infix(lowercase(h.subject@), q) || has_infix(lowercase(h.from@), q) || has_infix(
        lowercase(h.to@),
        q,
    )
}

/// The matching headers of the cache, in cache order.
pub open spec fn matching_headers(rs: Seq<MailRecord>, query: Seq<char>) -> Seq<EmailHeader>
    decreases rs.len(),
{
    if rs.len() == 0 {
        Seq::empty()
    } else {
        let rest = matching_headers(rs.drop_last(), query);
        match rs.last().item {
            MailItem::Header(h) => if header_matches(h, query) {
                rest.push(h)
            } else {
                rest
            },
            MailItem::Body(_) => rest,
        }
    }
}

/// A sequence of headers with `h` inserted behind every header that is
/// not older than it.
pub open spec fn inserted(sorted: Seq<EmailHeader>, h: EmailHeader) -> Seq<EmailHeader> {
    sorted.insert(insert_position(sorted, h), h)
}

/// The position at which `h` is inserted: behind the leading headers
/// whose date is not earlier than that of `h`.
pub open spec fn insert_position(sorted: Seq<EmailHeader>, h: EmailHeader) -> int
    decreases sorted.len(),
{
    if sorted.len() == 0 || sorted[0].date < h.date {
        0
    } else {
        1 + insert_position(sorted.drop_first(), h)
    }
}

/// Headers ordered by date, latest first; headers of the same date keep
/// their order.
pub open spec fn newest_first(hs: Seq<EmailHeader>) -> Seq<EmailHeader>
    decreases hs.len(),
{
    if hs.len() == 0 {
        Seq::empty()
    } else {
        inserted(newest_first(hs.drop_last()), hs.last())
    }
}

/// Whether dates never increase along a sequence.
pub open spec fn dates_descend(hs: Seq<EmailHeader>) -> bool {
    forall|i: int, j: int| 0 <= i < j < hs.len() ==> hs[i].date >= hs[j].date
}

/// The headers behind a sequence of references.
pub open spec fn deref_all(hs: Seq<&EmailHeader>) -> Seq<EmailHeader> {
    Seq::new(hs.len(), |i: int| *hs[i])
}

/// `oldest_index` is a position of the cache, and no record was cached earlier.
pub proof fn lemma_oldest_index(rs: Seq<MailRecord>)
    requires
        rs.len() > 0,
    ensures
        0 <= oldest_index(rs) < rs.len(),
        forall|i: int|
            0 <= i < rs.len() ==> rs[oldest_index(rs)].cached_at <= (#[trigger] rs[i]).cached_at,
    decreases rs.len(),
{
    if rs.len() > 1 {
        let t = rs.drop_last();
        lemma_oldest_index(t);
        let j = oldest_index(t);
        assert(t[j] == rs[j]);
        assert forall|i: int| 0 <= i < rs.len() implies rs[oldest_index(rs)].cached_at <= (
        #[trigger] rs[i]).cached_at by {
            if i < rs.len() - 1 {
                assert(rs[i] == t[i]);
            }
        }
    }
}

/// Removing a record lowers the sum by that record's size.
pub proof fn lemma_total_size_remove(rs: Seq<MailRecord>, i: int)
    requires
        0 <= i < rs.len(),
    ensures
        total_size(rs.remove(i)) == total_size(rs) - record_size(rs[i]),
    decreases rs.len(),
{
    if i == rs.len() - 1 {
        assert(rs.remove(i) =~= rs.drop_last());
    } else {
        let t = rs.drop_last();
        lemma_total_size_remove(t, i);
        assert(rs.remove(i).drop_last() =~= t.remove(i));
        assert(rs.remove(i).last() == rs.last());
    }
}

/// Appending a record raises the sum by that record's size.
pub proof fn lemma_total_size_push(rs: Seq<MailRecord>, r: MailRecord)
    ensures
        total_size(rs.push(r)) == total_size(rs) + record_size(r),
{
    assert(rs.push(r).drop_last() =~= rs);
}

/// Eviction ends within budget.
pub proof fn lemma_evict_within_budget(rs: Seq<MailRecord>, budget: nat)
    ensures
        total_size(evict_until(rs, budget)) <= budget,
        total_size(rs) <= budget ==> evict_until(rs, budget) == rs,
        evict_until(evict_until(rs, budget), budget) == evict_until(rs, budget),
    decreases rs.len(),
{
    if !(rs.len() == 0 || total_size(rs) <= budget) {
        lemma_oldest_index(rs);
        lemma_evict_within_budget(rs.remove(oldest_index(rs)), budget);
    }
}

/// `insert_position` lies behind the headers that are not older than `h` and before one that is.
pub proof fn lemma_insert_position(sorted: Seq<EmailHeader>, h: EmailHeader)
    ensures
        0 <= insert_position(sorted, h) <= sorted.len(),
        forall|i: int| 0 <= i < insert_position(sorted, h) ==> (#[trigger] sorted[i]).date >= h.date,
        insert_position(sorted, h) < sorted.len() ==> sorted[insert_position(sorted, h)].date
            < h.date,
    decreases sorted.len(),
{
    if !(sorted.len() == 0 || sorted[0].date < h.date) {
        let t = sorted.drop_first();
        lemma_insert_position(t, h);
        assert forall|i: int| 0 <= i < insert_position(sorted, h) implies (
        #[trigger] sorted[i]).date >= h.date by {
            if i > 0 {
                assert(sorted[i] == t[i - 1]);
            }
        }
        if insert_position(sorted, h) < sorted.len() {
            assert(sorted[insert_position(sorted, h)] == t[insert_position(t, h)]);
        }
    }
}

/// The first position whose header is older than `h` is `insert_position`.
pub proof fn lemma_insert_position_is(sorted: Seq<EmailHeader>, h: EmailHeader, n: int)
    requires
        0 <= n <= sorted.len(),
        forall|i: int| 0 <= i < n ==> (#[trigger] sorted[i]).date >= h.date,
        n < sorted.len() ==> sorted[n].date < h.date,
    ensures
        insert_position(sorted, h) == n,
    decreases sorted.len(),
{
    if n > 0 {
        let t = sorted.drop_first();
        assert(sorted[0].date >= h.date);
        assert forall|i: int| 0 <= i < n - 1 implies (#[trigger] t[i]).date >= h.date by {
            assert(t[i] == sorted[i + 1]);
        }
        lemma_insert_position_is(t, h, n - 1);
    }
}

/// Search results are ordered by date, latest first, and there are as
/// many of them as there are matching headers.
pub proof fn lemma_newest_first(hs: Seq<EmailHeader>)
    ensures
        dates_descend(newest_first(hs)),
        newest_first(hs).len() == hs.len(),
    decreases hs.len(),
{
    if hs.len() > 0 {
        let s = newest_first(hs.drop_last());
        lemma_newest_first(hs.drop_last());
        let h = hs.last();
        lemma_insert_position(s, h);
        let p = insert_position(s, h);
        let r = inserted(s, h);
        assert forall|i: int, j: int| 0 <= i < j < r.len() implies r[i].date >= r[j].date by {
            if j < p {
                assert(r[i] == s[i] && r[j] == s[j]);
            } else if j == p {
                assert(r[i] == s[i]);
            } else if i < p {
                assert(r[i] == s[i] && r[j] == s[j - 1]);
                if p < s.len() {
                    assert(s[p].date >= s[j - 1].date || p == j - 1);
                }
            } else if i == p {
                assert(r[j] == s[j - 1]);
                assert(s[p].date >= s[j - 1].date || p == j - 1);
            } else {
                assert(r[i] == s[i - 1] && r[j] == s[j - 1]);
            }
        }
    }
}

/// The first position that holds the body of `uid` is `body_index`.
pub proof fn lemma_body_index_is(rs: Seq<MailRecord>, uid: u32, n: int)
    requires
        0 <= n <= rs.len(),
        forall|i: int| 0 <= i < n ==> !is_body_of(#[trigger] rs[i], uid),
        n < rs.len() ==> is_body_of(rs[n], uid),
    ensures
        body_index(rs, uid) == n,
    decreases rs.len(),
{
    if n > 0 {
        let t = rs.drop_first();
        assert(!is_body_of(rs[0], uid));
        assert forall|i: int| 0 <= i < n - 1 implies !is_body_of(#[trigger] t[i], uid) by {
            assert(t[i] == rs[i + 1]);
        }
        lemma_body_index_is(t, uid, n - 1);
    }
}

/// The size that a body counts for, with overflow reported as `None`.
fn body_size(body: &EmailBody) -> (r: Option<usize>)
    ensures
        match r {
            Some(n) => n == attachments_size(body.attachments@),
            None => attachments_size(body.attachments@) > usize::MAX,
        },
{
    let mut sum: usize = 0;
    let mut i: usize = 0;
    while i < body.attachments.len()
        invariant
            i <= body.attachments.len(),
            sum == attachments_size(body.attachments@.take(i as int)),
        decreases body.attachments.len() - i,
    {
        assert(body.attachments@.take(i + 1).drop_last() =~= body.attachments@.take(i as int));
        let size = body.attachments[i].size;
        if size > usize::MAX - sum {
            proof {
                lemma_attachments_size_grows(body.attachments@, i + 1);
            }
            return None;
        }
        sum = sum + size;
        i += 1;
    }
    assert(body.attachments@.take(i as int) =~= body.attachments@);
    Some(sum)
}

/// The sum over a prefix never exceeds the sum over the whole.
pub proof fn lemma_attachments_size_grows(a: Seq<Attachment>, n: int)
    requires
        0 <= n <= a.len(),
    ensures
        attachments_size(a.take(n)) <= attachments_size(a),
    decreases a.len(),
{
    if n < a.len() {
        lemma_attachments_size_grows(a.drop_last(), n);
        assert(a.drop_last().take(n) =~= a.take(n));
    } else {
        assert(a.take(n) =~= a);
    }
}

/// Why a record was not cached.
#[derive(Debug, Clone, Copy, PartialEq, Eq, Structural)]
pub enum MailCacheError {
    /// The attachment sizes of a body add up to more than can be counted.
    TooLarge,
}

/// The bounded mail cache.
#[derive(Debug)]
pub struct EmailCache {
    max_size_bytes: usize,
    current_size: usize,
    records: Vec<MailRecord>,
}

impl View for EmailCache {
    type V = Seq<MailRecord>;

    closed spec fn view(&self) -> Seq<MailRecord> {
        self.records@
    }
}

impl EmailCache {
    /// The budget in bytes.
    pub closed spec fn budget(&self) -> nat {
        self.max_size_bytes as nat
    }

    /// The value of the size counter.
    pub closed spec fn size(&self) -> nat {
        self.current_size as nat
    }

    /// The cache's invariant: the counter is the sum of the record sizes.
    pub open spec fn wf(&self) -> bool {
        self.size() == total_size(self@)
    }

    /// An empty cache with a budget of `max_size_mb` mebibytes.
    pub fn new(max_size_mb: usize) -> (cache: EmailCache)
        requires
            max_size_mb * 1048576 <= usize::MAX,
        ensures
            cache.wf(),
            cache@ == Seq::<MailRecord>::empty(),
            cache.budget() == max_size_mb * 1048576,
    {
        EmailCache { max_size_bytes: max_size_mb * 1048576, current_size: 0, records: Vec::new() }
    }

    /// The sum of the sizes of the cached records.
    pub fn get_memory_usage(&self) -> (n: usize)
        ensures
            n == self.size(),
    {
        self.current_size
    }

    /// Number of cached records.
    pub fn count(&self) -> (n: usize)
        ensures
            n == self@.len(),
    {
        self.records.len()
    }

    /// Index of the record to evict next.
    fn find_oldest(&self) -> (k: usize)
        requires
            self@.len() > 0,
        ensures
            k == oldest_index(self@),
            k < self@.len(),
    {
        let ghost rs = self@;
        let mut best: usize = 0;
        let mut i: usize = 1;
        assert(rs.take(1).len() == 1);
        while i < self.records.len()
            invariant
                1 <= i <= self.records.len(),
                best < i,
                rs == self@,
                best == oldest_index(rs.take(i as int)),
            decreases self.records.len() - i,
        {
            proof {
                assert(rs.take(i + 1).drop_last() =~= rs.take(i as int));
            }
            if self.records[i].cached_at < self.records[best].cached_at {
                best = i;
            }
            i += 1;
        }
        assert(rs.take(self.records.len() as int) =~= rs);
        best
    }

    /// Evicts oldest records until `total` is within the budget, then
    /// sets the counter.
    fn enforce(&mut self, total: u128) -> (gone: usize)
        requires
            total == total_size(old(self)@),
            all_fit(old(self)@),
        ensures
            final(self).wf(),
            final(self).budget() == old(self).budget(),
            final(self).size() <= final(self).budget(),
            final(self)@ == evict_until(old(self)@, old(self).budget()),
            gone == old(self)@.len() - final(self)@.len(),
    {
        let ghost orig = self@;
        let mut total: u128 = total;
        let mut gone: usize = 0;
        let start: usize = self.records.len();
        while self.records.len() > 0 && total > self.max_size_bytes as u128
            invariant
                self.max_size_bytes == old(self).max_size_bytes,
                total == total_size(self@),
                evict_until(self@, self.max_size_bytes as nat) == evict_until(
                    orig,
                    self.max_size_bytes as nat,
                ),
                gone == start - self@.len(),
                start == orig.len(),
                all_fit(self@),
            decreases self.records.len(),
        {
            let k = self.find_oldest();
            let ghost before = self@;
            proof {
                lemma_total_size_remove(before, k as int);
            }
            let r = self.records.remove(k);
            assert(record_size(before[k as int]) <= usize::MAX);
            let size: usize = match &r.item {
                MailItem::Header(h) => h.size,
                MailItem::Body(b) => match body_size(b) {
                    Some(n) => n,
                    None => 0,
                },
            };
            proof {
                assert(self@ =~= before.remove(k as int));
                assert forall|j: int| 0 <= j < self@.len() implies record_size(
                    #[trigger] self@[j],
                ) <= usize::MAX by {
                    if j < k {
                        assert(self@[j] == before[j]);
                    } else {
                        assert(self@[j] == before[j + 1]);
                    }
                }
            }
            total = total - size as u128;
            gone += 1;
        }
        proof {
            lemma_evict_within_budget(self@, self.max_size_bytes as nat);
            if self.records.len() == 0 {
                assert(total_size(self@) == 0);
            }
        }
        self.current_size = total as usize;
        gone
    }

    /// Stores a record at its slot and enforces the budget.
    fn store(&mut self, record: MailRecord, size: usize) -> (gone: usize)
        requires
            old(self).wf(),
            size == record_size(record),
        ensures
            final(self).wf(),
            final(self).budget() == old(self).budget(),
            final(self).size() <= final(self).budget(),
            final(self)@ == evict_until(with_record(old(self)@, record), old(self).budget()),
    {
        let ghost rows = self@;
        let ghost p = |x: MailRecord| !same_slot(x, record);
        let ghost mut k: int = 0;
        let mut total: u128 = self.current_size as u128;
        let mut i: usize = 0;
        proof {
            assert(rows.take(0).filter(p) =~= Seq::<MailRecord>::empty()) by {
                reveal(Seq::filter);
            }
            assert(self@ =~= rows.take(0).filter(p) + rows.skip(0));
        }
        proof {
            lemma_all_fit(rows);
        }
        while i < self.records.len()
            invariant
                0 <= k <= rows.len(),
                i == rows.take(k).filter(p).len(),
                self@ == rows.take(k).filter(p) + rows.skip(k),
                p == (|x: MailRecord| !same_slot(x, record)),
                total == total_size(self@),
                total <= usize::MAX,
                all_fit(self@),
                self.max_size_bytes == old(self).max_size_bytes,
            decreases rows.len() - k,
        {
            proof {
                crate::seq_lemmas::lemma_filter_take_step(rows, p, k);
                assert(self@[i as int] == rows[k]);
            }
            let same = match (&self.records[i].item, &record.item) {
                (MailItem::Header(a), MailItem::Header(b)) => a.uid == b.uid,
                (MailItem::Body(a), MailItem::Body(b)) => a.uid == b.uid,
                _ => false,
            };
            assert(same == same_slot(rows[k], record));
            if same {
                let ghost before = self@;
                proof {
                    lemma_total_size_remove(before, i as int);
                    lemma_record_fits(before, i as int);
                }
                let r = self.records.remove(i);
                let freed: usize = match &r.item {
                    MailItem::Header(h) => h.size,
                    MailItem::Body(b) => match body_size(b) {
                        Some(n) => n,
                        None => 0,
                    },
                };
                total = total - freed as u128;
                proof {
                    assert(self@ =~= before.remove(i as int));
                    assert(self@ =~= rows.take(k + 1).filter(p) + rows.skip(k + 1));
                    assert forall|j: int| 0 <= j < self@.len() implies record_size(
                        #[trigger] self@[j],
                    ) <= usize::MAX by {
                        if j < i {
                            assert(self@[j] == before[j]);
                        } else {
                            assert(self@[j] == before[j + 1]);
                        }
                    }
                }
            } else {
                proof {
                    assert(self@ =~= rows.take(k + 1).filter(p) + rows.skip(k + 1));
                }
                i += 1;
            }
            proof {
                k = k + 1;
            }
        }
        proof {
            assert(rows.take(k) =~= rows);
            assert(self@ =~= rows.filter(p));
            lemma_total_size_push(self@, record);
        }
        total = total + size as u128;
        let ghost kept = self@;
        self.records.push(record);
        proof {
            assert(self@ =~= kept.push(record));
            assert forall|j: int| 0 <= j < self@.len() implies record_size(#[trigger] self@[j])
                <= usize::MAX by {
                if j < kept.len() {
                    assert(self@[j] == kept[j]);
                }
            }
        }
        self.enforce(total)
    }

    /// Caches a header at `now`, replacing the cached header of the same
    /// message, then enforces the budget.
    pub fn store_header(&mut self, header: EmailHeader, now: i64)
        requires
            old(self).wf(),
        ensures
            final(self).wf(),
            final(self).budget() == old(self).budget(),
            final(self).size() <= final(self).budget(),
            final(self)@ == evict_until(
                with_record(
                    old(self)@,
                    MailRecord { item: MailItem::Header(header), cached_at: now },
                ),
                old(self).budget(),
            ),
    {
        let size = header.size;
        self.store(MailRecord { item: MailItem::Header(header), cached_at: now }, size);
    }

    /// Caches headers one after the other, as `store_header` does.
    pub fn store_headers(&mut self, headers: Vec<EmailHeader>, now: i64)
        requires
            old(self).wf(),
        ensures
            final(self).wf(),
            final(self).budget() == old(self).budget(),
            final(self)@ == stored_all(old(self)@, headers@, now, old(self).budget()),
    {
        let ghost all = headers@;
        let ghost orig = self@;
        let mut headers = headers;
        let ghost mut done: int = 0;
        proof {
            assert(all.take(0) =~= Seq::<EmailHeader>::empty());
        }
        while headers.len() > 0
            invariant
                self.wf(),
                self.budget() == old(self).budget(),
                0 <= done <= all.len(),
                headers@ == all.skip(done),
                self@ == stored_all(orig, all.take(done), now, self.budget()),
            decreases headers.len(),
        {
            let h = headers.remove(0);
            proof {
                assert(h == all[done]);
                assert(all.take(done + 1).drop_last() =~= all.take(done));
                assert(headers@ =~= all.skip(done + 1));
            }
            self.store_header(h, now);
            proof {
                done = done + 1;
            }
        }
        proof {
            assert(all.take(done) =~= all);
        }
    }

    /// Caches a body at `now`, replacing the cached body of the same
    /// message, then enforces the budget.
    ///
    /// Fails with `TooLarge`, leaving the cache as it was, exactly when the
    /// sizes of the attachments add up to more than can be counted.
    pub fn store_body(&mut self, body: EmailBody, now: i64) -> (r: Result<(), MailCacheError>)
        requires
            old(self).wf(),
        ensures
            final(self).wf(),
            final(self).budget() == old(self).budget(),
            match r {
                Ok(()) => attachments_size(body.attachments@) <= usize::MAX && final(self)@
                    == evict_until(
                    with_record(
                        old(self)@,
                        MailRecord { item: MailItem::Body(body), cached_at: now },
                    ),
                    old(self).budget(),
                ) && final(self).size() <= final(self).budget(),
                Err(e) => attachments_size(body.attachments@) > usize::MAX && *final(self) == *old(
                    self,
                ),
            },
    {
        match body_size(&body) {
            Some(size) => {
                self.store(MailRecord { item: MailItem::Body(body), cached_at: now }, size);
                Ok(())
            },
            None => Err(MailCacheError::TooLarge),
        }
    }

    /// The cached body of message `uid`.
    pub fn get_body(&self, uid: u32) -> (r: Option<&EmailBody>)
        ensures
            match r {
                Some(b) => body_index(self@, uid) < self@.len() && self@[body_index(
                    self@,
                    uid,
                )].item == MailItem::Body(*b),
                None => body_index(self@, uid) == self@.len(),
            },
    {
        let mut i: usize = 0;
        while i < self.records.len()
            invariant
                i <= self.records.len(),
                forall|j: int| 0 <= j < i ==> !is_body_of(#[trigger] self@[j], uid),
            decreases self.records.len() - i,
        {
            if let MailItem::Body(b) = &self.records[i].item {
                if b.uid == uid {
                    proof {
                        lemma_body_index_is(self@, uid, i as int);
                    }
                    return Some(b);
                }
            }
            i += 1;
        }
        proof {
            lemma_body_index_is(self@, uid, i as int);
        }
        None
    }

    /// The cached headers whose subject, sender or recipient contains
    /// `query`, latest date first.
    pub fn search_headers(&self, query: &str) -> (found: Vec<&EmailHeader>)
        ensures
            deref_all(found@) == newest_first(matching_headers(self@, query@)),
    {
        let ghost rs = self@;
        let q_chars = chars_of(query);
        let q = to_lowercase(q_chars.as_slice());
        let mut found: Vec<&EmailHeader> = Vec::new();
        let mut i: usize = 0;
        proof {
            assert(rs.take(0) =~= Seq::<MailRecord>::empty());
            assert(deref_all(found@) =~= newest_first(matching_headers(rs.take(0), query@)));
        }
        while i < self.records.len()
            invariant
                i <= self.records.len(),
                rs == self@,
                q@ == lowercase(query@),
                deref_all(found@) == newest_first(matching_headers(rs.take(i as int), query@)),
            decreases self.records.len() - i,
        {
            let ghost m0 = matching_headers(rs.take(i as int), query@);
            let ghost m1 = matching_headers(rs.take(i + 1), query@);
            proof {
                assert(rs.take(i + 1).drop_last() =~= rs.take(i as int));
                assert(rs.take(i + 1).last() == self.records@[i as int]);
                assert(m1 == match self.records@[i as int].item {
                    MailItem::Header(h) => if header_matches(h, query@) {
                        m0.push(h)
                    } else {
                        m0
                    },
                    MailItem::Body(_) => m0,
                });
            }
            if let MailItem::Header(h) = &self.records[i].item {
                if header_has(h, q.as_slice()) {
                    let ghost sorted = deref_all(found@);
                    let mut p: usize = 0;
                    while p < found.len() && found[p].date >= h.date
                        invariant
                            p <= found.len(),
                            sorted == deref_all(found@),
                            forall|j: int| 0 <= j < p ==> (#[trigger] sorted[j]).date >= h.date,
                        decreases found.len() - p,
                    {
                        assert(sorted[p as int] == *found@[p as int]);
                        p += 1;
                    }
                    proof {
                        if p < found.len() {
                            assert(sorted[p as int] == *found@[p as int]);
                        }
                        lemma_insert_position_is(sorted, *h, p as int);
                    }
                    found.insert(p, h);
                    proof {
                        assert(deref_all(found@) =~= inserted(sorted, *h));
                        assert(m1 == m0.push(*h));
                        assert(m1.drop_last() =~= m0);
                        assert(newest_first(m1) == inserted(newest_first(m0), *h));
                    }
                }
            }
            i += 1;
        }
        assert(rs.take(i as int) =~= rs);
        found
    }

    /// Evicts oldest records until the sum of the sizes is within the
    /// budget. Returns how many records were evicted.
    pub fn cleanup(&mut self) -> (gone: usize)
        requires
            old(self).wf(),
        ensures
            final(self).wf(),
            final(self).budget() == old(self).budget(),
            final(self).size() <= final(self).budget(),
            final(self)@ == evict_until(old(self)@, old(self).budget()),
            gone == old(self)@.len() - final(self)@.len(),
    {
        let total = self.current_size as u128;
        proof {
            lemma_all_fit(self@);
        }
        self.enforce(total)
    }

    /// Cleans up if the budget is exceeded. After a `store` it never is.
    pub fn enforce_size_limits(&mut self) -> (gone: usize)
        requires
            old(self).wf(),
        ensures
            final(self).wf(),
            final(self).budget() == old(self).budget(),
            final(self).size() <= final(self).budget(),
            final(self)@ == evict_until(old(self)@, old(self).budget()),
            gone == old(self)@.len() - final(self)@.len(),
    {
        if self.current_size > self.max_size_bytes {
            self.cleanup()
        } else {
            proof {
                lemma_evict_within_budget(self@, self.max_size_bytes as nat);
            }
            0
        }
    }
}

/// The records after headers were stored one after the other at `now`.
pub open spec fn stored_all(
    rs: Seq<MailRecord>,
    headers: Seq<EmailHeader>,
    now: i64,
    budget: nat,
) -> Seq<MailRecord>
    decreases headers.len(),
{
    if headers.len() == 0 {
        rs
    } else {
        evict_until(
            with_record(
                stored_all(rs, headers.drop_last(), now, budget),
                MailRecord { item: MailItem::Header(headers.last()), cached_at: now },
            ),
            budget,
        )
    }
}

/// Every record's size can be counted.
pub open spec fn all_fit(rs: Seq<MailRecord>) -> bool {
    forall|i: int| 0 <= i < rs.len() ==> record_size(#[trigger] rs[i]) <= usize::MAX
}

/// Where the sum of the sizes can be counted, so can every size.
pub proof fn lemma_all_fit(rs: Seq<MailRecord>)
    requires
        total_size(rs) <= usize::MAX,
    ensures
        all_fit(rs),
{
    assert forall|i: int| 0 <= i < rs.len() implies record_size(#[trigger] rs[i])
        <= usize::MAX by {
        lemma_record_fits(rs, i);
    }
}

/// A record's size is at most the sum of all sizes.
pub proof fn lemma_record_fits(rs: Seq<MailRecord>, i: int)
    requires
        0 <= i < rs.len(),
    ensures
        record_size(rs[i]) <= total_size(rs),
    decreases rs.len(),
{
    if i < rs.len() - 1 {
        lemma_record_fits(rs.drop_last(), i);
    }
}

/// Whether a header matches a query that is already in lower case.
fn header_has(h: &EmailHeader, q: &[char]) -> (r: bool)
    ensures
        r == (has_infix(lowercase(h.subject@), q@) || has_infix(lowercase(h.from@), q@)
            || has_infix(lowercase(h.to@), q@)),
{
    let subject = chars_of(h.subject.as_str());
    if contains(to_lowercase(subject.as_slice()).as_slice(), q) {
        return true;
    }
    let from = chars_of(h.from.as_str());
    if contains(to_lowercase(from.as_slice()).as_slice(), q) {
        return true;
    }
    let to = chars_of(h.to.as_str());
    contains(to_lowercase(to.as_slice()).as_slice(), q)
}

} // verus!
