//! The connection table: a slot-based collection of live connections indexed
//! by a small integer token. `allocate` hands out the lowest-numbered free
//! token, `remove` frees a slot for reuse, and a freshly reused token starts
//! from the entry given to `allocate` alone, so it can retain nothing from a
//! previous occupant.

use vstd::prelude::*;

verus! {

/// What the engine tracks of one live connection: the socket's file
/// descriptor and how many receive and send operations are in flight for it.
#[derive(Clone, Copy, Debug, PartialEq, Eq, Structural)]
pub struct ConnEntry {
    /// The raw file descriptor of the accepted socket.
    pub fd: i32,
    /// Receive operations currently submitted and not yet completed.
    pub recv_pending: u32,
    /// Send operations currently submitted and not yet completed.
    pub send_pending: u32,
}

/// The entry of a connection just accepted on socket `fd`: its first receive
/// is submitted in the same dispatch, and nothing else is outstanding.
pub open spec fn fresh_entry(fd: i32) -> ConnEntry {
    ConnEntry { fd, recv_pending: 1, send_pending: 0 }
}

/// Whether token `t` names a live connection in table `s`.
pub open spec fn live(s: Seq<Option<ConnEntry>>, t: int) -> bool {
    0 <= t < s.len() && s[t] is Some
}

/// The lowest-numbered free token of `s`, or `s.len()` if every slot is
/// occupied.
pub open spec fn lowest_free(s: Seq<Option<ConnEntry>>) -> nat
    decreases s.len(),
{
    if s.len() == 0 {
        0
    } else if s[0] is None {
        0
    } else {
        1 + lowest_free(s.subrange(1, s.len() as int))
    }
}

/// The table after allocating `e` at the lowest-numbered free token.
pub open spec fn table_alloc(s: Seq<Option<ConnEntry>>, e: ConnEntry) -> Seq<Option<ConnEntry>> {
    if lowest_free(s) < s.len() {
        s.update(lowest_free(s) as int, Some(e))
    } else {
        s.push(Some(e))
    }
}

/// How many slots of `s` hold a live connection.
pub open spec fn count_live(s: Seq<Option<ConnEntry>>) -> nat
    decreases s.len(),
{
    if s.len() == 0 {
        0
    } else {
        count_live(s.drop_last()) + if s.last() is Some {
            1nat
        } else {
            0nat
        }
    }
}

/// The lowest free token is the first index holding no connection: if every
/// slot below `i` is occupied and slot `i` is free (or `i` is the length and
/// the table is full), then `i` is the lowest free token.
pub proof fn lemma_lowest_free_at(s: Seq<Option<ConnEntry>>, i: int)
    requires
        0 <= i <= s.len(),
        forall|j: int| 0 <= j < i ==> s[j] is Some,
        i < s.len() ==> s[i] is None,
    ensures
        lowest_free(s) == i,
    decreases s.len(),
{
    if s.len() > 0 && i > 0 {
        let tail = s.subrange(1, s.len() as int);
        assert(forall|j: int| 0 <= j < i - 1 ==> tail[j] is Some);
        lemma_lowest_free_at(tail, i - 1);
    }
}

/// The lowest free token never lies beyond the table's length.
pub proof fn lemma_lowest_free_le_len(s: Seq<Option<ConnEntry>>)
    ensures
        lowest_free(s) <= s.len(),
    decreases s.len(),
{
    if s.len() > 0 && !(s[0] is None) {
        lemma_lowest_free_le_len(s.subrange(1, s.len() as int));
    }
}

/// Law: a token freed by `remove` and then handed out again by `allocate`
/// holds exactly the freshly allocated entry; nothing of its previous
/// occupant survives the reuse.
pub proof fn lemma_reused_token_fresh(
    s: Seq<Option<ConnEntry>>,
    t: int,
    e: ConnEntry,
)
    requires
        live(s, t),
        forall|j: int| 0 <= j < t ==> s[j] is Some,
    ensures
        lowest_free(s.update(t, None)) == t,
        table_alloc(s.update(t, None), e)[t] == Some(e),
{
    let freed = s.update(t, None);
    lemma_lowest_free_at(freed, t);
}

/// Live connections, indexed by token; a `None` slot is a free token.
pub struct ConnTable {
    slots: Vec<Option<ConnEntry>>,
}

impl View for ConnTable {
    type V = Seq<Option<ConnEntry>>;

    closed spec fn view(&self) -> Seq<Option<ConnEntry>> {
        self.slots@
    }
}

impl ConnTable {
    /// An empty table: no live connections, no tokens handed out.
    pub fn new() -> (table: ConnTable)
        ensures
            table@.len() == 0,
    {
        ConnTable { slots: Vec::new() }
    }

    /// How many tokens the table has ever handed out (live or free).
    pub fn len(&self) -> (n: usize)
        ensures
            n == self@.len(),
    {
        self.slots.len()
    }

    /// Marks the lowest-numbered free token occupied by `e` and returns it.
    pub fn allocate(&mut self, e: ConnEntry) -> (t: usize)
        requires
            old(self)@.len() < usize::MAX,
        ensures
            t == lowest_free(old(self)@),
            final(self)@ == table_alloc(old(self)@, e),
            live(final(self)@, t as int),
            final(self)@[t as int] == Some(e),
    {
        let ghost s = self.slots@;
        let n = self.slots.len();
        let mut i: usize = 0;
        while i < n
            invariant
                n == s.len(),
                s == old(self)@,
                self.slots@ == s,
                i <= n,
                forall|j: int| 0 <= j < i ==> s[j] is Some,
            decreases n - i,
        {
            if self.slots[i].is_none() {
                self.slots.set(i, Some(e));
                proof {
                    lemma_lowest_free_at(s, i as int);
                }
                return i;
            }
            i = i + 1;
        }
        self.slots.push(Some(e));
        proof {
            lemma_lowest_free_at(s, n as int);
        }
        n
    }

    /// The entry of token `t`, or `None` where `t` is not a live token.
    pub fn get(&self, t: usize) -> (r: Option<ConnEntry>)
        ensures
            r == if live(self@, t as int) {
                self@[t as int]
            } else {
                None::<ConnEntry>
            },
    {
        if t < self.slots.len() {
            self.slots[t]
        } else {
            None
        }
    }

    /// Replaces the entry of the live token `t`.
    pub fn set_entry(&mut self, t: usize, e: ConnEntry)
        requires
            live(old(self)@, t as int),
        ensures
            final(self)@ == old(self)@.update(t as int, Some(e)),
    {
        self.slots.set(t, Some(e));
    }

    /// Frees the live token `t` for reuse and hands back its entry, so the
    /// caller can release the underlying socket.
    pub fn remove(&mut self, t: usize) -> (e: ConnEntry)
        requires
            live(old(self)@, t as int),
        ensures
            final(self)@ == old(self)@.update(t as int, None),
            old(self)@[t as int] == Some(e),
    {
        let e = self.slots[t];
        self.slots.set(t, None);
        e.unwrap()
    }

    /// How many connections are currently live.
    pub fn live_count(&self) -> (n: usize)
        ensures
            n == count_live(self@),
    {
        let mut n: usize = 0;
        let mut i: usize = 0;
        while i < self.slots.len()
            invariant
                i <= self.slots@.len(),
                n == count_live(self.slots@.take(i as int)),
                n <= i,
            decreases self.slots@.len() - i,
        {
            proof {
                assert(self.slots@.take(i + 1).drop_last() =~= self.slots@.take(i as int));
                assert(self.slots@.take(i + 1).last() == self.slots@[i as int]);
            }
            if self.slots[i].is_some() {
                n = n + 1;
            }
            i = i + 1;
        }
        proof {
            assert(self.slots@.take(self.slots@.len() as int) =~= self.slots@);
        }
        n
    }
}

} // verus!
