//! An append-only broadcast log read through independent cursors.
use std::collections::VecDeque;
use vstd::prelude::*;

verus! {

/// A position in one [`EventLog`], owned by a single consumer.
///
/// The position counts events from the creation of the log; it only moves
/// forward, and only through [`EventLog::drain`].
pub struct ReaderCursor {
    pos: u64,
}

impl ReaderCursor {
    /// The absolute index of the next event this cursor will hand out.
    pub closed spec fn pos(&self) -> nat {
        self.pos as nat
    }

    /// The absolute index of the next event this cursor will hand out.
    pub fn position(&self) -> (r: u64)
        ensures
            r == self.pos(),
    {
        self.pos
    }
}

/// An append-only log of events, read through any number of [`ReaderCursor`]s.
///
/// With a retention bound `n`, only the newest `n` events are kept; a cursor
/// that lagged behind the oldest kept event resumes from it.
pub struct EventLog<E> {
    buf: VecDeque<E>,
    first: u64,
    limit: Option<usize>,
    history: Ghost<Seq<E>>,
}

impl<E> EventLog<E> {
    /// Every event ever appended, oldest first.
    pub closed spec fn history(&self) -> Seq<E> {
        self.history@
    }

    /// The absolute index of the oldest event still retained.
    pub closed spec fn first(&self) -> nat {
        self.first as nat
    }

    /// The retention bound, if any.
    pub closed spec fn limit(&self) -> Option<usize> {
        self.limit
    }

    /// Number of events ever appended.
    pub open spec fn total(&self) -> nat {
        self.history().len()
    }

    /// The events still retained, oldest first.
    pub open spec fn retained(&self) -> Seq<E> {
        self.history().subrange(self.first() as int, self.total() as int)
    }

    /// Where a cursor at `pos` starts reading: lagging cursors are clamped to
    /// the oldest retained event.
    pub open spec fn clamp(&self, pos: nat) -> nat {
        if pos < self.first() {
            self.first()
        } else {
            pos
        }
    }

    /// The events a cursor at `pos` receives from the next drain.
    pub open spec fn pending(&self, pos: nat) -> Seq<E> {
        self.history().subrange(self.clamp(pos) as int, self.total() as int)
    }

    /// The oldest retained index once `n` more events are appended.
    pub open spec fn first_after(&self, n: nat) -> nat {
        match self.limit() {
            Some(l) => if self.retained().len() + n <= l {
                self.first()
            } else {
                (self.total() + n - l) as nat
            },
            None => self.first(),
        }
    }

    /// Internal consistency of the log.
    pub closed spec fn wf(&self) -> bool {
        &&& self.first <= self.history@.len()
        &&& self.history@.len() <= u64::MAX
        &&& self.buf@ == self.history@.subrange(self.first as int, self.history@.len() as int)
        &&& match self.limit {
            Some(n) => 0 < n && self.buf@.len() <= n,
            None => true,
        }
    }

    /// What well-formedness says of the retained window.
    pub proof fn lemma_window(&self)
        requires
            self.wf(),
        ensures
            self.first() <= self.total(),
            self.retained().len() == self.total() - self.first(),
            self.limit() is Some ==> self.retained().len() <= self.limit()->Some_0,
    {
    }

    /// A log that keeps every event.
    pub fn new() -> (r: Self)
        ensures
            r.wf(),
            r.history() == Seq::<E>::empty(),
            r.first() == 0,
            r.limit() == None::<usize>,
    {
        let r = EventLog { buf: VecDeque::new(), first: 0, limit: None, history: Ghost(Seq::empty()) };
        assert(r.buf@ =~= r.history@.subrange(0, 0));
        r
    }

    /// A log that keeps only the newest `limit` events.
    pub fn with_retention(limit: usize) -> (r: Self)
        requires
            limit > 0,
        ensures
            r.wf(),
            r.history() == Seq::<E>::empty(),
            r.first() == 0,
            r.limit() == Some(limit),
    {
        let r = EventLog {
            buf: VecDeque::new(),
            first: 0,
            limit: Some(limit),
            history: Ghost(Seq::empty()),
        };
        assert(r.buf@ =~= r.history@.subrange(0, 0));
        r
    }

    /// Number of events ever appended.
    pub fn len_total(&self) -> (r: u64)
        requires
            self.wf(),
        ensures
            r == self.total(),
    {
        self.first + self.buf.len() as u64
    }

    /// Appends `event`; with a retention bound that is already reached, the
    /// oldest retained event is dropped.
    pub fn append(&mut self, event: E)
        requires
            old(self).wf(),
            old(self).total() < u64::MAX,
        ensures
            final(self).wf(),
            final(self).history() == old(self).history().push(event),
            final(self).limit() == old(self).limit(),
            final(self).first() == old(self).first_after(1),
    {
        let ghost h = self.history@;
        match self.limit {
            Some(n) => {
                if self.buf.len() == n {
                    self.buf.pop_front();
                    self.first = self.first + 1;
                }
            },
            None => {},
        }
        self.buf.push_back(event);
        self.history = Ghost(h.push(event));
        assert(self.buf@ =~= self.history@.subrange(self.first as int, self.history@.len() as int));
    }

    /// A cursor at the current tail: it receives only events appended later.
    pub fn new_cursor(&self) -> (c: ReaderCursor)
        requires
            self.wf(),
        ensures
            c.pos() == self.total(),
    {
        ReaderCursor { pos: self.len_total() }
    }

    /// How many events the cursor missed because they left the retention
    /// window before it read them.
    pub fn missed(&self, cursor: &ReaderCursor) -> (r: u64)
        requires
            self.wf(),
        ensures
            r == self.clamp(cursor.pos()) - cursor.pos(),
    {
        if cursor.pos < self.first {
            self.first - cursor.pos
        } else {
            0
        }
    }

    /// The events appended since the cursor's last read, oldest first; the
    /// cursor moves to the tail.
    pub fn drain<'a>(&'a self, cursor: &mut ReaderCursor) -> (r: Vec<&'a E>)
        requires
            self.wf(),
            old(cursor).pos() <= self.total(),
        ensures
            r@.map_values(|e: &E| *e) == self.pending(old(cursor).pos()),
            final(cursor).pos() == self.total(),
    {
        let total = self.len_total();
        let start: u64 = if cursor.pos < self.first {
            self.first
        } else {
            cursor.pos
        };
        let mut r: Vec<&'a E> = Vec::new();
        let n: usize = self.buf.len();
        assert(start - self.first <= n);
        let mut i: usize = (start - self.first) as usize;
        while i < n
            invariant
                self.wf(),
                n == self.buf@.len(),
                start == self.clamp(old(cursor).pos()),
                self.first() <= start <= total,
                total == self.total(),
                start - self.first() <= i <= n,
                r@.map_values(|e: &E| *e) == self.history().subrange(start as int, self.first() + i),
            decreases n - i,
        {
            let ghost prev = r@;
            assert(self.buf@[i as int] == self.history()[self.first() + i]);
            r.push(&self.buf[i]);
            assert(r@.map_values(|e: &E| *e) =~= prev.map_values(|e: &E| *e).push(
                self.history()[self.first() + i],
            ));
            i = i + 1;
            assert(r@.map_values(|e: &E| *e) =~= self.history().subrange(start as int, self.first() + i));
        }
        cursor.pos = total;
        assert(r@.map_values(|e: &E| *e) =~= self.pending(old(cursor).pos()));
        r
    }
}

} // verus!
