//! SPI: a batched exchange spliced onto one in-place transfer, and the
//! buffer preparation of the single-shot calls.
use vstd::prelude::*;

verus! {

/// One step of a batched SPI exchange.
pub enum Operation {
    /// Bytes sent; whatever the bus clocks in meanwhile is dropped.
    Write(Vec<u8>),
    /// Bytes sent, then replaced by the bytes clocked in at the same time.
    Transfer(Vec<u8>),
}

/// The value of an [`Operation`]: its kind and its bytes.
pub enum OperationView {
    Write(Seq<u8>),
    Transfer(Seq<u8>),
}

impl OperationView {
    /// The bytes that the operation puts on the bus.
    pub open spec fn bytes(self) -> Seq<u8> {
        match self {
            OperationView::Write(b) => b,
            OperationView::Transfer(b) => b,
        }
    }
}

impl View for Operation {
    type V = OperationView;

    open spec fn view(&self) -> OperationView {
        match self {
            Operation::Write(b) => OperationView::Write(b@),
            Operation::Transfer(b) => OperationView::Transfer(b@),
        }
    }
}

/// The values of a list of operations.
pub open spec fn views(ops: Seq<Operation>) -> Seq<OperationView> {
    ops.map_values(|op: Operation| op@)
}

/// The staging buffer of a batch: the bytes of every operation, end to end,
/// in list order.
pub open spec fn staged(ops: Seq<OperationView>) -> Seq<u8>
    decreases ops.len(),
{
    if ops.len() == 0 {
        Seq::empty()
    } else {
        staged(ops.drop_last()) + ops.last().bytes()
    }
}

/// Where the bytes of operation `i` start in the staging buffer.
pub open spec fn offset(ops: Seq<OperationView>, i: int) -> int {
    staged(ops.take(i)).len() as int
}

/// The batch after the exchange came back as `exchanged`: each transfer holds
/// the bytes received over its own stretch of the buffer, each write is left
/// as it was.
pub open spec fn scattered(ops: Seq<OperationView>, exchanged: Seq<u8>) -> Seq<OperationView> {
    Seq::new(
        ops.len(),
        |i: int|
            match ops[i] {
                OperationView::Write(b) => OperationView::Write(b),
                OperationView::Transfer(b) => OperationView::Transfer(
                    exchanged.subrange(offset(ops, i), offset(ops, i) + b.len()),
                ),
            },
    )
}

/// The stretch of operation `i` follows that of operation `i - 1`.
pub proof fn lemma_offset_step(ops: Seq<OperationView>, i: int)
    requires
        0 <= i < ops.len(),
    ensures
        offset(ops, i + 1) == offset(ops, i) + ops[i].bytes().len(),
        staged(ops.take(i + 1)) == staged(ops.take(i)) + ops[i].bytes(),
{
    assert(ops.take(i + 1).drop_last() =~= ops.take(i));
    assert(ops.take(i + 1).last() == ops[i]);
}

/// Offsets grow with the index, up to the length of the staging buffer.
pub proof fn lemma_offset_monotone(ops: Seq<OperationView>, i: int, j: int)
    requires
        0 <= i <= j <= ops.len(),
    ensures
        offset(ops, i) <= offset(ops, j),
        offset(ops, ops.len() as int) == staged(ops).len(),
    decreases j - i,
{
    assert(ops.take(ops.len() as int) =~= ops);
    if i < j {
        lemma_offset_step(ops, j - 1);
        lemma_offset_monotone(ops, i, j - 1);
    }
}

/// The staging buffer of the first `i` operations is a prefix of that of the
/// first `j`.
pub proof fn lemma_staged_prefix(ops: Seq<OperationView>, i: int, j: int)
    requires
        0 <= i <= j <= ops.len(),
    ensures
        staged(ops.take(j)).take(offset(ops, i)) == staged(ops.take(i)),
    decreases j - i,
{
    if i == j {
        assert(staged(ops.take(j)).take(offset(ops, i)) =~= staged(ops.take(i)));
    } else {
        lemma_staged_prefix(ops, i, j - 1);
        lemma_offset_step(ops, j - 1);
        lemma_offset_monotone(ops, i, j - 1);
        assert(staged(ops.take(j)).take(offset(ops, i)) =~= staged(ops.take(j - 1)).take(
            offset(ops, i),
        ));
    }
}

/// The number of bytes that a batch puts on the bus: the lengths of its
/// operations, added up.
pub open spec fn total_len(ops: Seq<OperationView>) -> nat
    decreases ops.len(),
{
    if ops.len() == 0 {
        0
    } else {
        total_len(ops.drop_last()) + ops.last().bytes().len()
    }
}

/// Each operation's bytes stand unchanged over its own stretch of the
/// staging buffer.
pub proof fn lemma_staged_holds(ops: Seq<OperationView>, i: int)
    requires
        0 <= i < ops.len(),
    ensures
        offset(ops, i) + ops[i].bytes().len() <= staged(ops).len(),
        staged(ops).subrange(offset(ops, i), offset(ops, i) + ops[i].bytes().len())
            == ops[i].bytes(),
{
    lemma_staged_prefix(ops, i + 1, ops.len() as int);
    lemma_offset_step(ops, i);
    lemma_offset_monotone(ops, i + 1, ops.len() as int);
    assert(ops.take(ops.len() as int) =~= ops);
    assert(staged(ops).subrange(offset(ops, i), offset(ops, i) + ops[i].bytes().len())
        =~= staged(ops.take(i + 1)).subrange(offset(ops, i), offset(ops, i + 1)));
    assert(staged(ops.take(i + 1)).subrange(offset(ops, i), offset(ops, i + 1))
        =~= ops[i].bytes());
}

/// The staging buffer is as long as all the operations together.
pub proof fn lemma_staged_len(ops: Seq<OperationView>)
    ensures
        staged(ops).len() == total_len(ops),
    decreases ops.len(),
{
    if ops.len() > 0 {
        lemma_staged_len(ops.drop_last());
    }
}

/// Splicing a batch into one buffer, exchanging it, and handing the result
/// back is exact: every operation's bytes stand unchanged at its offset in
/// the staging buffer; the staging buffer is as long as all the operations
/// together; afterwards every transfer holds exactly the exchanged bytes at
/// its offset, every write is as it was, and the operations keep their kind
/// and their order.
pub proof fn lemma_splice_exchange(ops: Seq<OperationView>, exchanged: Seq<u8>)
    requires
        exchanged.len() == staged(ops).len(),
    ensures
        forall|i: int|
            #![trigger ops[i]]
            0 <= i < ops.len() ==> offset(ops, i) + ops[i].bytes().len() <= staged(ops).len()
                && staged(ops).subrange(offset(ops, i), offset(ops, i) + ops[i].bytes().len())
                == ops[i].bytes(),
        staged(ops).len() == total_len(ops),
        scattered(ops, exchanged).len() == ops.len(),
        forall|i: int|
            0 <= i < ops.len() ==> match (ops[i], #[trigger] scattered(ops, exchanged)[i]) {
                (OperationView::Write(b), OperationView::Write(c)) => c == b,
                (OperationView::Transfer(b), OperationView::Transfer(c)) => c == exchanged.subrange(
                    offset(ops, i),
                    offset(ops, i) + b.len(),
                ),
                _ => false,
            },
{
    assert forall|i: int|
        #![trigger ops[i]]
        0 <= i < ops.len() implies offset(ops, i) + ops[i].bytes().len() <= staged(ops).len()
            && staged(ops).subrange(offset(ops, i), offset(ops, i) + ops[i].bytes().len())
            == ops[i].bytes() by {
        lemma_staged_holds(ops, i);
    }
    lemma_staged_len(ops);
}

/// Inserting a write of no bytes into a batch leaves its staging buffer as
/// it was.
pub proof fn lemma_staged_empty_write(ops: Seq<OperationView>, k: int)
    requires
        0 <= k <= ops.len(),
    ensures
        staged(ops.insert(k, OperationView::Write(Seq::empty()))) == staged(ops),
    decreases ops.len(),
{
    let empty = OperationView::Write(Seq::empty());
    if k == ops.len() {
        assert(ops.insert(k, empty).drop_last() =~= ops);
        assert(staged(ops) + Seq::<u8>::empty() =~= staged(ops));
    } else {
        assert(ops.insert(k, empty).drop_last() =~= ops.drop_last().insert(k, empty));
        lemma_staged_empty_write(ops.drop_last(), k);
    }
}

/// A write of no bytes takes no room: inserted anywhere in a batch, it adds
/// nothing to the staging buffer, starts where the operation after it
/// starts, and moves no other operation's offset.
pub proof fn lemma_empty_write_takes_no_room(ops: Seq<OperationView>, k: int)
    requires
        0 <= k <= ops.len(),
    ensures
        staged(ops.insert(k, OperationView::Write(Seq::empty()))) == staged(ops),
        offset(ops.insert(k, OperationView::Write(Seq::empty())), k) == offset(ops, k),
        forall|j: int|
            0 <= j < k ==> #[trigger] offset(ops.insert(k, OperationView::Write(Seq::empty())), j)
                == offset(ops, j),
        forall|j: int|
            k <= j <= ops.len() ==> #[trigger] offset(
                ops.insert(k, OperationView::Write(Seq::empty())),
                j + 1,
            ) == offset(ops, j),
{
    let empty = OperationView::Write(Seq::empty());
    let more = ops.insert(k, empty);
    lemma_staged_empty_write(ops, k);
    assert(more.take(k) =~= ops.take(k));
    assert forall|j: int| 0 <= j < k implies #[trigger] offset(more, j) == offset(ops, j) by {
        assert(more.take(j) =~= ops.take(j));
    }
    assert forall|j: int| k <= j <= ops.len() implies #[trigger] offset(more, j + 1) == offset(
        ops,
        j,
    ) by {
        assert(more.take(j + 1) =~= ops.take(j).insert(k, empty));
        lemma_staged_empty_write(ops.take(j), k);
    }
}

/// Builds the staging buffer of a batch.
pub fn stage(ops: &Vec<Operation>) -> (data: Vec<u8>)
    ensures
        data@ == staged(views(ops@)),
{
    let ghost vs = views(ops@);
    let mut data: Vec<u8> = Vec::new();
    let mut i: usize = 0;
    while i < ops.len()
        invariant
            i <= ops@.len(),
            vs == views(ops@),
            data@ == staged(vs.take(i as int)),
        decreases ops@.len() - i,
    {
        let buf: &Vec<u8> = match &ops[i] {
            Operation::Write(b) => b,
            Operation::Transfer(b) => b,
        };
        assert(buf@ == vs[i as int].bytes());
        data.extend_from_slice(buf.as_slice());
        assert(data@ =~= staged(vs.take(i as int)) + buf@);
        proof {
            lemma_offset_step(vs, i as int);
        }
        i += 1;
    }
    assert(vs.take(i as int) =~= vs);
    data
}

/// Hands each transfer of a batch its stretch of the exchanged buffer.
pub fn scatter(ops: &mut Vec<Operation>, exchanged: &[u8])
    requires
        exchanged@.len() == staged(views(old(ops)@)).len(),
    ensures
        views(final(ops)@) == scattered(views(old(ops)@), exchanged@),
{
    let ghost vs = views(ops@);
    let total: usize = exchanged.len();
    let mut pos: usize = 0;
    let mut i: usize = 0;
    proof {
        lemma_offset_monotone(vs, 0, vs.len() as int);
    }
    while i < ops.len()
        invariant
            i <= ops@.len() == vs.len(),
            exchanged@.len() == offset(vs, vs.len() as int) == total,
            pos == offset(vs, i as int),
            forall|j: int| 0 <= j < i ==> #[trigger] ops@[j]@ == scattered(vs, exchanged@)[j],
            forall|j: int| i <= j < vs.len() ==> #[trigger] ops@[j]@ == vs[j],
        decreases vs.len() - i,
    {
        proof {
            lemma_offset_step(vs, i as int);
            lemma_offset_monotone(vs, i + 1, vs.len() as int);
        }
        let (n, transfer): (usize, bool) = match &ops[i] {
            Operation::Write(b) => (b.len(), false),
            Operation::Transfer(b) => (b.len(), true),
        };
        assert(ops@[i as int]@ == vs[i as int]);
        assert(n == vs[i as int].bytes().len());
        if transfer {
            let got = vstd::slice::slice_to_vec(vstd::slice::slice_subrange(exchanged, pos, pos + n));
            ops.set(i, Operation::Transfer(got));
        }
        pos = pos + n;
        i += 1;
    }
    assert(views(ops@) =~= scattered(vs, exchanged@));
}

/// Ends a batch once the exchange has been attempted: on success the
/// transfers receive their bytes, on failure the batch is left untouched.
/// Either way the outcome of the exchange is handed back.
pub fn complete<E>(ops: &mut Vec<Operation>, exchanged: &[u8], outcome: Result<(), E>) -> (r: Result<(), E>)
    requires
        exchanged@.len() == staged(views(old(ops)@)).len(),
    ensures
        r == outcome,
        outcome is Ok ==> views(final(ops)@) == scattered(views(old(ops)@), exchanged@),
        outcome is Err ==> final(ops)@ == old(ops)@,
{
    if outcome.is_ok() {
        scatter(ops, exchanged);
    }
    outcome
}

/// Fills the buffer of a read with the zero bytes that the read clocks out.
pub fn clear(words: &mut [u8])
    ensures
        final(words)@ == Seq::new(old(words)@.len(), |i: int| 0u8),
{
    let n: usize = words.len();
    let mut i: usize = 0;
    while i < n
        invariant
            n == words@.len() == old(words)@.len(),
            i <= n,
            forall|j: int| 0 <= j < i ==> words@[j] == 0u8,
        decreases n - i,
    {
        words[i] = 0u8;
        i += 1;
    }
    assert(words@ =~= Seq::new(old(words)@.len(), |i: int| 0u8));
}

/// Loads the bytes to send into the buffer of a transfer, which is then
/// exchanged in place: the first bytes of `write`, as many as `read` holds.
pub fn load(read: &mut [u8], write: &[u8])
    requires
        write@.len() >= old(read)@.len(),
    ensures
        final(read)@ == write@.take(old(read)@.len() as int),
{
    let n: usize = read.len();
    let mut i: usize = 0;
    while i < n
        invariant
            n == read@.len() == old(read)@.len(),
            n <= write@.len(),
            i <= n,
            forall|j: int| 0 <= j < i ==> read@[j] == write@[j],
        decreases n - i,
    {
        read[i] = write[i];
        i += 1;
    }
    assert(read@ =~= write@.take(n as int));
}

} // verus!
