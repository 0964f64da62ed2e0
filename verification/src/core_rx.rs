use vstd::prelude::*;

verus! {

/// How much a take or advance consumed: a count of messages, or for a
/// stream a count of items and a count of payload bytes.
#[derive(Debug, Clone, Copy, PartialEq, Eq, Structural)]
pub enum RxDone {
    /// Messages consumed from a plain channel.
    Normal(usize),
    /// Items and payload bytes consumed from a stream.
    Stream(usize, usize),
}

/// The two halves of a ring buffer's contents, read as one sequence.
pub trait DoubleSlice<'a, T: 'a> {
    /// The contents, first half then second half.
    spec fn spec_joined(&self) -> Seq<T>;

    /// Copies the contents into a vector.
    fn to_vec(&self) -> (r: Vec<T>)
        where T: Clone
        requires
            self.spec_joined().len() <= usize::MAX,
        ensures
            r@.len() == self.spec_joined().len(),
            forall|i: int| 0 <= i < r@.len() ==> cloned::<T>(self.spec_joined()[i], #[trigger] r@[i]),
    ;

    /// The number of elements in both halves.
    fn total_len(&self) -> (r: usize)
        requires
            self.spec_joined().len() <= usize::MAX,
        ensures
            r == self.spec_joined().len(),
    ;
}

/// Appends clones of `src` to `dst`.
fn extend_cloned<T: Clone>(dst: &mut Vec<T>, src: &[T])
    ensures
        final(dst)@.len() == old(dst)@.len() + src@.len(),
        forall|i: int| 0 <= i < old(dst)@.len() ==> #[trigger] final(dst)@[i] == old(dst)@[i],
        forall|i: int| 0 <= i < src@.len() ==> cloned::<T>(src@[i], #[trigger] final(dst)@[old(dst)@.len() + i]),
{
    dst.extend_from_slice(src);
    proof {
        assert forall|i: int| 0 <= i < src@.len() implies cloned::<T>(src@[i], #[trigger] dst@[old(dst)@.len() + i]) by {
            let k = old(dst)@.len() + i;
            assert(0 <= k < dst@.len());
        }
    }
}

impl<'a, T: 'a> DoubleSlice<'a, T> for (&'a [T], &'a [T]) {
    open spec fn spec_joined(&self) -> Seq<T> {
        self.0@ + self.1@
    }

    fn to_vec(&self) -> (r: Vec<T>)
        where T: Clone
    {
        let mut v: Vec<T> = Vec::new();
        extend_cloned(&mut v, self.0);
        let ghost v1 = v@;
        extend_cloned(&mut v, self.1);
        proof {
            let j = self.spec_joined();
            assert forall|i: int| 0 <= i < v@.len() implies cloned::<T>(j[i], #[trigger] v@[i]) by {
                if i < self.0@.len() {
                    assert(j[i] == self.0@[i]);
                    assert(v@[i] == v1[i]);
                    assert(v1[0 + i] == v1[i]);
                } else {
                    assert(j[i] == self.1@[i - self.0@.len()]);
                    assert(v@[self.0@.len() + (i - self.0@.len())] == v@[i]);
                }
            }
        }
        v
    }

    fn total_len(&self) -> (r: usize) {
        self.0.len() + self.1.len()
    }
}

/// Copies as much of `src` as fits into `target` starting at `start`.
fn copy_prefix<T: Copy>(target: &mut [T], start: usize, src: &[T], count: usize)
    requires
        start + count <= old(target)@.len(),
        count <= src@.len(),
    ensures
        final(target)@.len() == old(target)@.len(),
        forall|i: int| 0 <= i < count ==> #[trigger] final(target)@[start + i] == src@[i],
        forall|i: int| 0 <= i < old(target)@.len() && !(start <= i < start + count)
            ==> #[trigger] final(target)@[i] == old(target)@[i],
{
    let len = target.len();
    let mut j: usize = 0;
    while j < count
        invariant
            len == target@.len(),
            j <= count,
            start + count <= old(target)@.len(),
            count <= src@.len(),
            target@.len() == old(target)@.len(),
            forall|i: int| 0 <= i < j ==> #[trigger] target@[start + i] == src@[i],
            forall|i: int| 0 <= i < old(target)@.len() && !(start <= i < start + j)
                ==> #[trigger] target@[i] == old(target)@[i],
        decreases count - j,
    {
        target[start + j] = src[j];
        j += 1;
    }
}

/// The smaller of two counts.
pub open spec fn min_nat(a: int, b: int) -> int {
    if a <= b { a } else { b }
}

/// Copies from two halves into a target slice, as many as fit.
pub trait DoubleSliceCopy<'a, T: 'a> {
    /// The contents, first half then second half.
    spec fn spec_source(&self) -> Seq<T>;

    /// Fills `target` from the front with as many elements as fit, first
    /// half first; the rest of `target` is left as it was.
    fn copy_into_slice(&self, target: &mut [T]) -> (r: RxDone)
        where T: Copy
        ensures
            r == RxDone::Normal(min_nat(self.spec_source().len() as int, old(target)@.len() as int) as usize),
            final(target)@.len() == old(target)@.len(),
            forall|i: int| 0 <= i < min_nat(self.spec_source().len() as int, old(target)@.len() as int)
                ==> #[trigger] final(target)@[i] == self.spec_source()[i],
            forall|i: int| min_nat(self.spec_source().len() as int, old(target)@.len() as int) <= i < old(target)@.len()
                ==> #[trigger] final(target)@[i] == old(target)@[i],
    ;
}

impl<'a, T: 'a> DoubleSliceCopy<'a, T> for (&'a [T], &'a [T]) {
    open spec fn spec_source(&self) -> Seq<T> {
        self.0@ + self.1@
    }

    fn copy_into_slice(&self, target: &mut [T]) -> (r: RxDone)
        where T: Copy
    {
        let (a, b) = *self;
        let ghost src = a@ + b@;
        let mut copied: usize = 0;
        let n = if a.len() < target.len() { a.len() } else { target.len() };
        if n > 0 {
            copy_prefix(target, 0, a, n);
            copied = n;
            proof {
                assert forall|i: int| 0 <= i < copied implies #[trigger] target@[i] == src[i] by {
                    assert(target@[0 + i] == a@[i]);
                }
            }
        }
        let ghost mid = target@;
        if copied < target.len() {
            let m = if b.len() < target.len() - copied { b.len() } else { target.len() - copied };
            if m > 0 {
                copy_prefix(target, copied, b, m);
                proof {
                    assert forall|i: int| 0 <= i < copied + m implies #[trigger] target@[i] == src[i] by {
                        if i < copied {
                            assert(target@[i] == mid[i]);
                        } else {
                            assert(target@[copied + (i - copied)] == b@[i - copied]);
                        }
                    }
                }
                copied += m;
            }
        }
        RxDone::Normal(copied)
    }
}

/// Item and payload halves of a stream's ring buffers.
pub trait QuadSlice<'a, T: 'a, U: 'a> {
    /// The items, first half then second half.
    spec fn spec_items(&self) -> Seq<T>;

    /// The payload bytes, first half then second half.
    spec fn spec_payload(&self) -> Seq<U>;

    /// Copies the items into a vector.
    fn items_vec(&self) -> (r: Vec<T>)
        where T: Clone
        requires
            self.spec_items().len() <= usize::MAX,
        ensures
            r@.len() == self.spec_items().len(),
            forall|i: int| 0 <= i < r@.len() ==> cloned::<T>(self.spec_items()[i], #[trigger] r@[i]),
    ;

    /// Copies the payload into a vector.
    fn payload_vec(&self) -> (r: Vec<U>)
        where U: Clone
        requires
            self.spec_payload().len() <= usize::MAX,
        ensures
            r@.len() == self.spec_payload().len(),
            forall|i: int| 0 <= i < r@.len() ==> cloned::<U>(self.spec_payload()[i], #[trigger] r@[i]),
    ;

    /// The number of items.
    fn items_len(&self) -> (r: usize)
        requires
            self.spec_items().len() <= usize::MAX,
        ensures
            r == self.spec_items().len(),
    ;

    /// The number of payload elements.
    fn payload_len(&self) -> (r: usize)
        requires
            self.spec_payload().len() <= usize::MAX,
        ensures
            r == self.spec_payload().len(),
    ;
}

impl<'a, T: 'a, U: 'a> QuadSlice<'a, T, U> for (&'a [T], &'a [T], &'a [U], &'a [U]) {
    open spec fn spec_items(&self) -> Seq<T> {
        self.0@ + self.1@
    }

    open spec fn spec_payload(&self) -> Seq<U> {
        self.2@ + self.3@
    }

    fn items_vec(&self) -> (r: Vec<T>)
        where T: Clone
    {
        (self.0, self.1).to_vec()
    }

    fn payload_vec(&self) -> (r: Vec<U>)
        where U: Clone
    {
        (self.2, self.3).to_vec()
    }

    fn items_len(&self) -> (r: usize) {
        self.0.len() + self.1.len()
    }

    fn payload_len(&self) -> (r: usize) {
        self.2.len() + self.3.len()
    }
}

/// A stream's control item: it announces the length of its payload.
pub trait StreamControlItem: Copy {
    /// The payload length the item announces.
    spec fn spec_length(&self) -> i32;

    /// The payload length the item announces.
    fn length(&self) -> (r: i32)
        ensures
            r == self.spec_length(),
    ;
}

/// The payload bytes announced by the first `k` items.
pub open spec fn payload_total<T: StreamControlItem>(items: Seq<T>, k: int) -> int
    decreases k,
{
    if k <= 0 || k > items.len() {
        0
    } else {
        payload_total(items, k - 1) + items[k - 1].spec_length()
    }
}

/// `k` is how many items a copy takes: the longest prefix that fits both
/// the item room and the payload room, stopping at the first item that
/// does not fit.
pub open spec fn items_that_fit<T: StreamControlItem>(
    items: Seq<T>,
    max_items: int,
    max_bytes: int,
    k: int,
) -> bool {
    &&& 0 <= k <= items.len()
    &&& k <= max_items
    &&& payload_total(items, k) <= max_bytes
    &&& (k == items.len() || k == max_items || payload_total(items, k + 1) > max_bytes)
}

/// Every item announces a non-negative payload length.
pub open spec fn lengths_non_negative<T: StreamControlItem>(items: Seq<T>) -> bool {
    forall|i: int| 0 <= i < items.len() ==> #[trigger] items[i].spec_length() >= 0
}

proof fn lemma_payload_total_step<T: StreamControlItem>(items: Seq<T>, k: int)
    requires
        0 <= k < items.len(),
    ensures
        payload_total(items, k + 1) == payload_total(items, k) + items[k].spec_length(),
{
}

proof fn lemma_payload_total_non_negative<T: StreamControlItem>(items: Seq<T>, k: int)
    requires
        lengths_non_negative(items),
    ensures
        payload_total(items, k) >= 0,
    decreases k,
{
    if k > 0 && k <= items.len() {
        lemma_payload_total_non_negative(items, k - 1);
    }
}

/// Copies stream items and their payload bytes out of ring-buffer halves.
pub trait StreamQuadSliceCopy<'a, T: StreamControlItem> {
    /// The items, first half then second half.
    spec fn spec_items(&self) -> Seq<T>;

    /// The payload bytes, first half then second half.
    spec fn spec_payload(&self) -> Seq<u8>;

    /// Copies the longest prefix of items that fits both targets, then as
    /// many of the payload bytes those items announce as the payload halves
    /// hold. Returns `(items_copied, bytes_copied)`.
    fn copy_items_and_payloads(&self, item_target: &mut [T], payload_target: &mut [u8]) -> (r: (usize, usize))
        requires
            lengths_non_negative(self.spec_items()),
        ensures
            items_that_fit(self.spec_items(), old(item_target)@.len() as int, old(payload_target)@.len() as int, r.0 as int),
            r.1 == min_nat(self.spec_payload().len() as int, payload_total(self.spec_items(), r.0 as int)),
            final(item_target)@.len() == old(item_target)@.len(),
            final(payload_target)@.len() == old(payload_target)@.len(),
            forall|i: int| 0 <= i < r.0 ==> #[trigger] final(item_target)@[i] == self.spec_items()[i],
            forall|i: int| r.0 <= i < old(item_target)@.len() ==> #[trigger] final(item_target)@[i] == old(item_target)@[i],
            forall|i: int| 0 <= i < r.1 ==> #[trigger] final(payload_target)@[i] == self.spec_payload()[i],
            forall|i: int| r.1 <= i < old(payload_target)@.len() ==> #[trigger] final(payload_target)@[i] == old(payload_target)@[i],
    ;
}

/// The item at position `i` of the two halves read as one sequence.
fn item_at<T: Copy>(a: &[T], b: &[T], i: usize) -> (r: T)
    requires
        i < a@.len() + b@.len(),
    ensures
        r == (a@ + b@)[i as int],
{
    if i < a.len() {
        a[i]
    } else {
        b[i - a.len()]
    }
}

impl<'a, T: StreamControlItem> StreamQuadSliceCopy<'a, T> for (&'a [T], &'a [T], &'a [u8], &'a [u8]) {
    open spec fn spec_items(&self) -> Seq<T> {
        self.0@ + self.1@
    }

    open spec fn spec_payload(&self) -> Seq<u8> {
        self.2@ + self.3@
    }

    fn copy_items_and_payloads(&self, item_target: &mut [T], payload_target: &mut [u8]) -> (r: (usize, usize)) {
        let (a, b, c, d) = *self;
        let ghost items = a@ + b@;
        let max_items = item_target.len();
        let max_payload = payload_target.len();
        let a_len = a.len();
        let b_len = b.len();

        // Find how many items, and how many payload bytes, fit.
        let mut items_copied: usize = 0;
        let mut bytes_needed: usize = 0;
        let mut done = false;
        while !done
            invariant
                items == a@ + b@,
                a_len == a@.len(),
                b_len == b@.len(),
                max_items == old(item_target)@.len(),
                max_payload == old(payload_target)@.len(),
                lengths_non_negative(items),
                items_copied <= items.len(),
                items_copied <= max_items,
                bytes_needed == payload_total(items, items_copied as int),
                bytes_needed <= max_payload,
                done ==> (items_copied == items.len() || items_copied == max_items
                    || payload_total(items, items_copied + 1) > max_payload),
            decreases items.len() - items_copied, (if done { 0int } else { 1int }),
        {
            if items_copied >= a_len && items_copied - a_len >= b_len {
                done = true;
            } else {
                let item = item_at(a, b, items_copied);
                let len_i32 = item.length();
                proof {
                    assert(items[items_copied as int] == item);
                    lemma_payload_total_step(items, items_copied as int);
                }
                let item_len = len_i32 as usize;
                if items_copied < max_items && item_len <= max_payload - bytes_needed {
                    items_copied += 1;
                    bytes_needed += item_len;
                } else {
                    done = true;
                }
            }
        }

        // Copy the items.
        let mut copied: usize = 0;
        while copied < items_copied
            invariant
                items == a@ + b@,
                copied <= items_copied,
                items_copied <= items.len(),
                items_copied <= max_items,
                max_items == old(item_target)@.len(),
                item_target@.len() == old(item_target)@.len(),
                forall|i: int| 0 <= i < copied ==> #[trigger] item_target@[i] == items[i],
                forall|i: int| copied <= i < old(item_target)@.len() ==> #[trigger] item_target@[i] == old(item_target)@[i],
            decreases items_copied - copied,
        {
            let item = item_at(a, b, copied);
            item_target[copied] = item;
            copied += 1;
        }

        // Copy the payload bytes.
        let ghost payload = c@ + d@;
        let mut payload_copied: usize = 0;
        let n = if c.len() < bytes_needed { c.len() } else { bytes_needed };
        if n > 0 {
            copy_prefix(payload_target, 0, c, n);
            payload_copied = n;
            proof {
                assert forall|i: int| 0 <= i < payload_copied implies #[trigger] payload_target@[i] == payload[i] by {
                    assert(payload_target@[0 + i] == c@[i]);
                }
            }
        }
        let ghost mid = payload_target@;
        if payload_copied < bytes_needed {
            let m = if d.len() < bytes_needed - payload_copied { d.len() } else { bytes_needed - payload_copied };
            if m > 0 {
                copy_prefix(payload_target, payload_copied, d, m);
                proof {
                    assert forall|i: int| 0 <= i < payload_copied + m implies #[trigger] payload_target@[i] == payload[i] by {
                        if i < payload_copied {
                            assert(payload_target@[i] == mid[i]);
                        } else {
                            assert(payload_target@[payload_copied + (i - payload_copied)] == d@[i - payload_copied]);
                        }
                    }
                }
                payload_copied += m;
            }
        }
        (items_copied, payload_copied)
    }
}

/// How far a plain channel's read index moves when `request` messages are
/// to be skipped and `avail` are there: as far as asked, but no further
/// than what is there.
pub fn advance_index_amount(request: usize, avail: usize) -> (r: RxDone)
    ensures
        r == RxDone::Normal(if request > avail { avail } else { request }),
{
    let idx = if request > avail {
        avail
    } else {
        request
    };
    RxDone::Normal(idx)
}

/// How far a stream's read indices move when `count` (items, payload bytes)
/// are to be skipped and `control_avail` items and `payload_avail` bytes
/// are there: all of it when both fit, else nothing, since no safe cut
/// point between the two counts can be computed.
pub fn stream_advance_amount(count: (usize, usize), control_avail: usize, payload_avail: usize) -> (r: RxDone)
    ensures
        r == (if count.0 <= control_avail && count.1 <= payload_avail {
            RxDone::Stream(count.0, count.1)
        } else {
            RxDone::Stream(0, 0)
        }),
{
    if count.0 <= control_avail && count.1 <= payload_avail {
        RxDone::Stream(count.0, count.1)
    } else {
        RxDone::Stream(0, 0)
    }
}

/// The messages waiting in a ring of `capacity` slots whose write and read
/// indices run modulo twice the capacity: `(write - read) mod 2 * capacity`.
pub fn ring_avail_units(capacity: usize, write_idx: usize, read_idx: usize) -> (r: usize)
    requires
        capacity >= 1,
        2 * capacity + write_idx <= usize::MAX,
        write_idx < 2 * capacity,
        read_idx < 2 * capacity,
        (2 * capacity + write_idx - read_idx) % (2 * capacity as int) <= capacity,
    ensures
        r == (2 * capacity + write_idx - read_idx) % (2 * capacity as int),
        r <= capacity,
{
    let modulus = 2 * capacity;
    (modulus + write_idx - read_idx) % modulus
}

/// Whether a stream's next item, whose payload is `length` bytes long, can
/// be taken whole when `payload_avail` bytes are there.
pub fn stream_item_ready(length: i32, payload_avail: usize) -> (r: bool)
    requires
        payload_avail <= i32::MAX,
    ensures
        r == (length <= payload_avail),
{
    length <= payload_avail as i32
}

/// How a stream item's payload of `length` bytes splits over the two
/// halves of the payload ring, whose first half holds `first_len` bytes:
/// as much as fits in the first half, the rest from the second.
pub fn payload_split(first_len: usize, length: usize) -> (r: (usize, usize))
    ensures
        r.0 == (if first_len < length { first_len } else { length }),
        r.0 + r.1 == length,
{
    let count_a = if first_len < length { first_len } else { length };
    (count_a, length - count_a)
}

/// The number of messages a wait may ask for on a channel of `capacity`:
/// the count asked for, reduced to the capacity when it is larger.
pub fn clamp_to_capacity(count: usize, capacity: usize) -> (r: usize)
    ensures
        r == (if count <= capacity { count } else { capacity }),
{
    if count <= capacity {
        count
    } else {
        capacity
    }
}

/// The payload bytes announced by the first `k` of `items`, summed in order.
fn sum_lengths<T: StreamControlItem>(items: &[T], k: usize) -> (r: usize)
    requires
        k <= items@.len(),
        lengths_non_negative(items@),
        payload_total(items@, k as int) <= i32::MAX,
    ensures
        r == payload_total(items@, k as int),
{
    let mut sum: i32 = 0;
    let mut i: usize = 0;
    while i < k
        invariant
            i <= k,
            k <= items@.len(),
            lengths_non_negative(items@),
            payload_total(items@, k as int) <= i32::MAX,
            sum == payload_total(items@, i as int),
        decreases k - i,
    {
        proof {
            lemma_payload_total_step(items@, i as int);
            lemma_payload_total_monotone(items@, (i + 1) as int, k as int);
            assert(items@[i as int].spec_length() >= 0);
        }
        sum = sum + items[i].length();
        i += 1;
    }
    proof {
        lemma_payload_total_non_negative(items@, k as int);
    }
    sum as usize
}

proof fn lemma_payload_total_monotone<T: StreamControlItem>(items: Seq<T>, j: int, k: int)
    requires
        lengths_non_negative(items),
        0 <= j <= k <= items.len(),
    ensures
        payload_total(items, j) <= payload_total(items, k),
    decreases k - j,
{
    if j < k {
        lemma_payload_total_monotone(items, j, k - 1);
        lemma_payload_total_step(items, k - 1);
    }
}

/// How a batch of buffered stream messages is flushed to an outgoing
/// stream: how many messages, from which half of the item ring, and how
/// many payload bytes, from which half of the payload ring.
#[derive(Clone, Copy, Debug, PartialEq, Eq, Structural)]
pub struct DefragFlush {
    pub msg_count: usize,
    pub items_from_first: usize,
    pub items_from_second: usize,
    pub total_bytes: usize,
    pub bytes_from_first: usize,
    pub bytes_from_second: usize,
}

/// Plans the flush of buffered stream messages held in the halves
/// `items_a` and `items_b`, to an outgoing stream with room for `vacant`
/// messages, from a payload ring whose first half holds `payload_first_len`
/// bytes: as many messages as there is room for, first from the first half,
/// and the payload bytes they announce, first from the first half.
pub fn defrag_flush_plan<T: StreamControlItem>(items_a: &[T], items_b: &[T], vacant: usize, payload_first_len: usize) -> (r: DefragFlush)
    requires
        items_a@.len() + items_b@.len() <= usize::MAX,
        lengths_non_negative(items_a@),
        lengths_non_negative(items_b@),
        ({
            let on_ring = items_a@.len() + items_b@.len();
            let m = if vacant < on_ring { vacant as int } else { on_ring as int };
            let ka = if m < items_a@.len() { m } else { items_a@.len() as int };
            &&& payload_total(items_a@, ka) <= i32::MAX
            &&& payload_total(items_b@, m - ka) <= i32::MAX
        }),
    ensures
        ({
            let on_ring = items_a@.len() + items_b@.len();
            &&& r.msg_count == (if vacant < on_ring { vacant as int } else { on_ring as int })
            &&& r.items_from_first == (if r.msg_count < items_a@.len() { r.msg_count as int } else { items_a@.len() as int })
            &&& r.items_from_second == r.msg_count - r.items_from_first
            &&& r.total_bytes == payload_total(items_a@, r.items_from_first as int)
                + payload_total(items_b@, r.items_from_second as int)
            &&& r.bytes_from_first == (if r.total_bytes < payload_first_len { r.total_bytes as int } else { payload_first_len as int })
            &&& r.bytes_from_second == r.total_bytes - r.bytes_from_first
        }),
{
    let on_ring = items_a.len() + items_b.len();
    let msg_count = if vacant < on_ring { vacant } else { on_ring };
    let items_from_first = if msg_count < items_a.len() { msg_count } else { items_a.len() };
    let items_from_second = msg_count - items_from_first;
    let bytes_a = sum_lengths(items_a, items_from_first);
    let bytes_b = sum_lengths(items_b, items_from_second);
    proof {
        assert(bytes_a + bytes_b <= usize::MAX) by (nonlinear_arith)
            requires bytes_a <= 0x7fff_ffff, bytes_b <= 0x7fff_ffff;
    }
    let total_bytes = bytes_a + bytes_b;
    let bytes_from_first = if total_bytes < payload_first_len { total_bytes } else { payload_first_len };
    DefragFlush {
        msg_count,
        items_from_first,
        items_from_second,
        total_bytes,
        bytes_from_first,
        bytes_from_second: total_bytes - bytes_from_first,
    }
}

} // verus!
