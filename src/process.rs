use vstd::prelude::*;

verus! {

broadcast use vstd::seq_lib::group_to_multiset_ensures;

/// One row of the process table as of one refresh.
///
/// `cpu_usage` and `memory_percent` are in hundredths of a percent.
pub struct ProcessInfo {
    pub pid: u32,
    pub name: String,
    pub cpu_usage: u64,
    pub memory: u64,
    pub memory_percent: u64,
}

impl ProcessInfo {
    /// A field-for-field copy.
    pub fn duplicate(&self) -> (r: ProcessInfo)
        ensures
            r == *self,
    {
        ProcessInfo {
            pid: self.pid,
            name: self.name.clone(),
            cpu_usage: self.cpu_usage,
            memory: self.memory,
            memory_percent: self.memory_percent,
        }
    }
}

/// The key by which the process view is ordered.
#[derive(Debug, Clone, Copy, PartialEq, Eq, Structural)]
pub enum SortOrder {
    Cpu,
    Memory,
    Pid,
    Name,
}

/// What `str::to_lowercase` yields for a string.
pub uninterp spec fn lower_of(s: Seq<char>) -> Seq<char>;

/// Relies on `str::to_lowercase`: its result depends on the characters alone.
#[verifier::external_body]
fn lowercase(s: &String) -> (r: String)
    ensures
        r@ == lower_of(s@),
{
    s.to_lowercase()
}

/// Lexicographic order on characters by code point; for strings this is the
/// order `String`'s comparison gives, since UTF-8 keeps code point order.
pub open spec fn chars_le(a: Seq<char>, b: Seq<char>) -> bool
    decreases a.len(),
{
    if a.len() == 0 {
        true
    } else if b.len() == 0 {
        false
    } else if a[0] != b[0] {
        a[0] < b[0]
    } else {
        chars_le(a.drop_first(), b.drop_first())
    }
}

proof fn lemma_chars_le_total(a: Seq<char>, b: Seq<char>)
    ensures
        chars_le(a, b) || chars_le(b, a),
    decreases a.len(),
{
    if a.len() > 0 && b.len() > 0 && a[0] == b[0] {
        lemma_chars_le_total(a.drop_first(), b.drop_first());
    }
}

proof fn lemma_chars_le_trans(a: Seq<char>, b: Seq<char>, c: Seq<char>)
    requires
        chars_le(a, b),
        chars_le(b, c),
    ensures
        chars_le(a, c),
    decreases a.len(),
{
    if a.len() > 0 && b.len() > 0 && c.len() > 0 && a[0] == b[0] && b[0] == c[0] {
        lemma_chars_le_trans(a.drop_first(), b.drop_first(), c.drop_first());
    }
}

/// The characters of `s`, in order.
fn chars_of(s: &String) -> (r: Vec<char>)
    ensures
        r@ == s@,
{
    let mut r: Vec<char> = Vec::new();
    for c in it: s.as_str().chars()
        invariant
            it.seq() == s@,
            r@ == it.seq().subrange(0, it.index() as int),
    {
        r.push(c);
    }
    r
}

fn chars_le_exec(a: &Vec<char>, b: &Vec<char>) -> (r: bool)
    ensures
        r == chars_le(a@, b@),
{
    let mut i: usize = 0;
    assert(a@.skip(0) =~= a@ && b@.skip(0) =~= b@);
    while i < a.len() && i < b.len()
        invariant
            i <= a.len(),
            i <= b.len(),
            chars_le(a@, b@) == chars_le(a@.skip(i as int), b@.skip(i as int)),
        decreases a.len() - i,
    {
        if a[i] != b[i] {
            return a[i] < b[i];
        }
        assert(a@.skip(i as int).drop_first() =~= a@.skip(i as int + 1));
        assert(b@.skip(i as int).drop_first() =~= b@.skip(i as int + 1));
        i = i + 1;
    }
    i == a.len()
}

/// `a` may stand before `b` in a view ordered by `order`: CPU and memory descending,
/// pid ascending, name ascending ignoring case.
pub open spec fn in_order(order: SortOrder, a: ProcessInfo, b: ProcessInfo) -> bool {
    match order {
        SortOrder::Cpu => a.cpu_usage >= b.cpu_usage,
        SortOrder::Memory => a.memory >= b.memory,
        SortOrder::Pid => a.pid <= b.pid,
        SortOrder::Name => chars_le(lower_of(a.name@), lower_of(b.name@)),
    }
}

/// Every earlier element may stand before every later one.
pub open spec fn sorted_by(order: SortOrder, s: Seq<ProcessInfo>) -> bool {
    forall|i: int, j: int| 0 <= i < j < s.len() ==> in_order(order, #[trigger] s[i], #[trigger] s[j])
}

proof fn lemma_in_order_total(order: SortOrder, a: ProcessInfo, b: ProcessInfo)
    ensures
        in_order(order, a, b) || in_order(order, b, a),
{
    if order == SortOrder::Name {
        lemma_chars_le_total(lower_of(a.name@), lower_of(b.name@));
    }
}

proof fn lemma_in_order_trans(order: SortOrder, a: ProcessInfo, b: ProcessInfo, c: ProcessInfo)
    requires
        in_order(order, a, b),
        in_order(order, b, c),
    ensures
        in_order(order, a, c),
{
    if order == SortOrder::Name {
        lemma_chars_le_trans(lower_of(a.name@), lower_of(b.name@), lower_of(c.name@));
    }
}

/// The key a row is compared by in name order: its lowercased name.
fn name_key(p: &ProcessInfo) -> (r: Vec<char>)
    ensures
        r@ == lower_of(p.name@),
{
    chars_of(&lowercase(&p.name))
}

/// `k` holds the name key of `p` wherever the order compares names.
pub open spec fn key_of(order: SortOrder, p: ProcessInfo, k: Seq<char>) -> bool {
    order == SortOrder::Name ==> k == lower_of(p.name@)
}

/// Decides `in_order(order, *a, *b)` given the name keys `ka` and `kb` of the two rows.
fn goes_before_keyed(
    order: SortOrder,
    a: &ProcessInfo,
    ka: &Vec<char>,
    b: &ProcessInfo,
    kb: &Vec<char>,
) -> (r: bool)
    requires
        key_of(order, *a, ka@),
        key_of(order, *b, kb@),
    ensures
        r == in_order(order, *a, *b),
{
    match order {
        SortOrder::Cpu => a.cpu_usage >= b.cpu_usage,
        SortOrder::Memory => a.memory >= b.memory,
        SortOrder::Pid => a.pid <= b.pid,
        SortOrder::Name => chars_le_exec(ka, kb),
    }
}

/// Decides `in_order(order, *a, *b)`.
pub fn goes_before(order: SortOrder, a: &ProcessInfo, b: &ProcessInfo) -> (r: bool)
    ensures
        r == in_order(order, *a, *b),
{
    let ka = name_key(a);
    let kb = name_key(b);
    goes_before_keyed(order, a, &ka, b, &kb)
}

/// No two rows of `s` share a pid.
pub open spec fn distinct_pids(s: Seq<ProcessInfo>) -> bool {
    forall|i: int, j: int| 0 <= i < j < s.len() ==> (#[trigger] s[i]).pid != (#[trigger] s[j]).pid
}

/// A view sorted by pid whose pids are distinct, as within one process table, is
/// strictly ascending from each row to the next.
pub proof fn lemma_pid_view_strictly_ascending(s: Seq<ProcessInfo>)
    requires
        sorted_by(SortOrder::Pid, s),
        distinct_pids(s),
    ensures
        forall|i: int| 0 <= i < s.len() - 1 ==> (#[trigger] s[i]).pid < s[i + 1].pid,
{
    assert forall|i: int| 0 <= i < s.len() - 1 implies (#[trigger] s[i]).pid < s[i + 1].pid by {
        assert(in_order(SortOrder::Pid, s[i], s[i + 1]));
        assert(s[i].pid != s[i + 1].pid);
    }
}

/// Inserts `x` into the sorted `r` after every element that may stand before it.
/// `keys` runs beside `r`, holding the name key of each row.
fn insert_sorted(
    r: &mut Vec<ProcessInfo>,
    keys: &mut Vec<Vec<char>>,
    x: ProcessInfo,
    kx: Vec<char>,
    order: SortOrder,
)
    requires
        sorted_by(order, old(r)@),
        old(keys)@.len() == old(r)@.len(),
        forall|k: int| 0 <= k < old(r)@.len() ==> key_of(order, #[trigger] old(r)@[k], old(keys)@[k]@),
        key_of(order, x, kx@),
    ensures
        sorted_by(order, final(r)@),
        final(r)@.to_multiset() == old(r)@.to_multiset().insert(x),
        final(keys)@.len() == final(r)@.len(),
        forall|k: int| 0 <= k < final(r)@.len() ==> key_of(order, #[trigger] final(r)@[k], final(keys)@[k]@),
{
    let mut j: usize = 0;
    while j < r.len() && goes_before_keyed(order, &r[j], &keys[j], &x, &kx)
        invariant
            j <= r.len(),
            keys@.len() == r@.len(),
            forall|k: int| 0 <= k < r@.len() ==> key_of(order, #[trigger] r@[k], keys@[k]@),
            key_of(order, x, kx@),
            forall|k: int| 0 <= k < j ==> in_order(order, #[trigger] r@[k], x),
        decreases r.len() - j,
    {
        j = j + 1;
    }
    let ghost prev = r@;
    let ghost prev_keys = keys@;
    proof {
        if j < prev.len() {
            lemma_in_order_total(order, prev[j as int], x);
            assert forall|k: int| j <= k < prev.len() implies in_order(order, x, #[trigger] prev[k]) by {
                if k > j {
                    lemma_in_order_trans(order, x, prev[j as int], prev[k]);
                }
            }
        }
    }
    r.insert(j, x);
    keys.insert(j, kx);
    proof {
        let t = r@;
        assert forall|k: int| 0 <= k < t.len() implies key_of(order, #[trigger] t[k], keys@[k]@) by {
            if k < j {
                assert(t[k] == prev[k] && keys@[k] == prev_keys[k]);
            } else if k > j {
                assert(t[k] == prev[k - 1] && keys@[k] == prev_keys[k - 1]);
            }
        }
        assert forall|a: int, b: int| 0 <= a < b < t.len() implies in_order(
            order,
            #[trigger] t[a],
            #[trigger] t[b],
        ) by {
            if b < j {
                assert(t[a] == prev[a] && t[b] == prev[b]);
            } else if b == j {
                assert(t[a] == prev[a]);
            } else if a < j {
                assert(t[a] == prev[a] && t[b] == prev[b - 1]);
                assert(in_order(order, prev[a], x));
                assert(in_order(order, x, prev[b - 1]));
                lemma_in_order_trans(order, prev[a], x, prev[b - 1]);
            } else if a == j {
                assert(t[b] == prev[b - 1]);
            } else {
                assert(t[a] == prev[a - 1] && t[b] == prev[b - 1]);
            }
        }
        assert(t.remove(j as int) =~= prev);
        assert(t.to_multiset() =~= prev.to_multiset().insert(x));
    }
}

/// The processes of `procs`, each once, ordered by `order`.
pub fn sort_processes(procs: &Vec<ProcessInfo>, order: SortOrder) -> (r: Vec<ProcessInfo>)
    ensures
        r@.to_multiset() == procs@.to_multiset(),
        sorted_by(order, r@),
{
    let mut r: Vec<ProcessInfo> = Vec::new();
    let mut keys: Vec<Vec<char>> = Vec::new();
    let mut i: usize = 0;
    while i < procs.len()
        invariant
            i <= procs.len(),
            sorted_by(order, r@),
            r@.to_multiset() == procs@.subrange(0, i as int).to_multiset(),
            keys@.len() == r@.len(),
            forall|k: int| 0 <= k < r@.len() ==> key_of(order, #[trigger] r@[k], keys@[k]@),
        decreases procs.len() - i,
    {
        let x = procs[i].duplicate();
        let kx = if order == SortOrder::Name {
            name_key(&x)
        } else {
            Vec::new()
        };
        insert_sorted(&mut r, &mut keys, x, kx, order);
        assert(procs@.subrange(0, i as int + 1) =~= procs@.subrange(0, i as int).push(procs@[i as int]));
        i = i + 1;
    }
    assert(procs@.subrange(0, i as int) =~= procs@);
    r
}

} // verus!
