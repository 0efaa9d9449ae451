use vstd::prelude::*;

verus! {

/// Number of samples a history series keeps.
pub const HISTORY_LEN: usize = 60;

/// The last `n` elements of `s` (all of `s` when it is shorter).
pub open spec fn keep_last(s: Seq<u64>, n: nat) -> Seq<u64> {
    if s.len() <= n {
        s
    } else {
        s.subrange(s.len() - n, s.len() as int)
    }
}

/// The history that results from pushing `vs`, in order, onto `h`.
pub open spec fn after_pushes(h: Seq<u64>, vs: Seq<u64>) -> Seq<u64>
    decreases vs.len(),
{
    if vs.len() == 0 {
        h
    } else {
        keep_last(after_pushes(h, vs.drop_last()).push(vs.last()), HISTORY_LEN as nat)
    }
}

/// Position in the backing array of the `i`-th oldest sample when the oldest is at `head`.
spec fn slot(head: int, i: int) -> int {
    if head + i < HISTORY_LEN {
        head + i
    } else {
        head + i - HISTORY_LEN
    }
}

/// A fixed-capacity series of samples, oldest first; pushing at capacity evicts the oldest.
///
/// Stored as a circular buffer: `buf` always holds `HISTORY_LEN` slots, the oldest
/// sample sits at `head`, and `len` slots from there (wrapping) are in use.
pub struct HistoryRing {
    buf: Vec<u64>,
    head: usize,
    len: usize,
}

impl View for HistoryRing {
    type V = Seq<u64>;

    closed spec fn view(&self) -> Seq<u64> {
        Seq::new(self.len as nat, |i: int| self.buf@[slot(self.head as int, i)])
    }
}

impl HistoryRing {
    pub closed spec fn wf(&self) -> bool {
        &&& self.buf@.len() == HISTORY_LEN
        &&& self.head < HISTORY_LEN
        &&& self.len <= HISTORY_LEN
    }

    /// An empty series.
    pub fn new() -> (r: HistoryRing)
        ensures
            r.wf(),
            r@ == Seq::<u64>::empty(),
    {
        let r = HistoryRing { buf: vec![0u64; HISTORY_LEN], head: 0, len: 0 };
        assert(r@ =~= Seq::<u64>::empty());
        r
    }

    /// Number of samples held.
    pub fn len(&self) -> (r: usize)
        requires
            self.wf(),
        ensures
            r == self@.len(),
            r <= HISTORY_LEN,
    {
        self.len
    }

    pub fn is_empty(&self) -> (r: bool)
        requires
            self.wf(),
        ensures
            r == (self@.len() == 0),
    {
        self.len == 0
    }

    /// Appends `v` as the newest sample, first evicting the oldest when the series is full.
    pub fn push(&mut self, v: u64)
        requires
            old(self).wf(),
        ensures
            final(self).wf(),
            final(self)@ == keep_last(old(self)@.push(v), HISTORY_LEN as nat),
            final(self)@.len() <= HISTORY_LEN,
    {
        let ghost prev = self@;
        if self.len < HISTORY_LEN {
            let idx: usize = if self.head + self.len < HISTORY_LEN {
                self.head + self.len
            } else {
                self.head + self.len - HISTORY_LEN
            };
            self.buf[idx] = v;
            self.len = self.len + 1;
            assert(self@ =~= prev.push(v));
        } else {
            let h: usize = self.head;
            self.buf[h] = v;
            self.head = if h + 1 < HISTORY_LEN {
                h + 1
            } else {
                0
            };
            assert(self@ =~= prev.push(v).subrange(1, HISTORY_LEN as int + 1));
        }
    }

    /// The samples, oldest first.
    pub fn values(&self) -> (r: Vec<u64>)
        requires
            self.wf(),
        ensures
            r@ == self@,
    {
        let mut r: Vec<u64> = Vec::with_capacity(self.len);
        let mut i: usize = 0;
        while i < self.len
            invariant
                self.wf(),
                i <= self.len,
                r@ == self@.subrange(0, i as int),
            decreases self.len - i,
        {
            let idx: usize = if self.head + i < HISTORY_LEN {
                self.head + i
            } else {
                self.head + i - HISTORY_LEN
            };
            r.push(self.buf[idx]);
            i = i + 1;
            assert(r@ =~= self@.subrange(0, i as int));
        }
        assert(r@ =~= self@);
        r
    }
}

pub(crate) proof fn lemma_keep_last_push(s: Seq<u64>, v: u64, n: nat)
    ensures
        keep_last(keep_last(s, n).push(v), n) == keep_last(s.push(v), n),
{
    assert(keep_last(keep_last(s, n).push(v), n) =~= keep_last(s.push(v), n));
}

/// A series holds at most `HISTORY_LEN` samples, and after any run of pushes onto an
/// empty series it holds exactly the last `HISTORY_LEN` pushed values, in push order.
pub proof fn lemma_history_window(vs: Seq<u64>)
    ensures
        after_pushes(Seq::empty(), vs).len() <= HISTORY_LEN,
        after_pushes(Seq::empty(), vs) == keep_last(vs, HISTORY_LEN as nat),
    decreases vs.len(),
{
    if vs.len() > 0 {
        lemma_history_window(vs.drop_last());
        lemma_keep_last_push(vs.drop_last(), vs.last(), HISTORY_LEN as nat);
        assert(vs.drop_last().push(vs.last()) =~= vs);
    } else {
        assert(keep_last(vs, HISTORY_LEN as nat) =~= Seq::<u64>::empty());
    }
}

} // verus!
