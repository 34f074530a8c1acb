//! The history store: a bounded, ordered log of command lines with
//! substring and prefix search in both directions.

use crate::text::{chars_of, copy_str, push_str, string_of, views};
use std::collections::VecDeque;
use vstd::prelude::*;
use vstd::std_specs::iter::IteratorSpec;
use vstd::utf8::encode_utf8;

verus! {

broadcast use vstd::std_specs::vecdeque::group_vec_dequeue_axioms;

/// The number of records a new store keeps.
pub const HISTORY_MAX: usize = 1000;

/// Which way a search walks from its starting index.
#[derive(Clone, Copy, Debug, PartialEq, Eq, Structural)]
pub enum SearchDirection {
    /// Toward the newest record.
    Forward,
    /// Toward the oldest record.
    Reverse,
}

/// A record found by a lookup or a search.
#[derive(Debug)]
pub struct SearchResult {
    /// The record's text.
    pub entry: String,
    /// The record's zero-based index, oldest first.
    pub idx: usize,
    /// The byte offset in `entry` reported for the match.
    pub pos: usize,
}

/// The last `n` items of `s`, or all of `s` where it holds no more than `n`.
pub open spec fn last_n<T>(s: Seq<T>, n: nat) -> Seq<T> {
    if s.len() <= n {
        s
    } else {
        s.subrange(s.len() - n, s.len() as int)
    }
}

/// The UTF-8 bytes of a text.
pub open spec fn bytes(s: Seq<char>) -> Seq<u8> {
    encode_utf8(s)
}

/// Whether `p` occurs in `t` at byte offset `i`.
pub open spec fn occurs_at(t: Seq<u8>, p: Seq<u8>, i: int) -> bool {
    0 <= i && i + p.len() <= t.len() && t.subrange(i, i + p.len()) == p
}

/// Whether `i` is the offset of the first occurrence of `p` in `t`.
pub open spec fn first_occurrence(t: Seq<u8>, p: Seq<u8>, i: int) -> bool {
    occurs_at(t, p, i) && forall|j: int| 0 <= j < i ==> !occurs_at(t, p, j)
}

/// Whether record `rec` answers a search for `term`: it begins with `term`
/// where the search is anchored, it contains it anywhere otherwise.
pub open spec fn matches(rec: Seq<char>, term: Seq<char>, anchored: bool) -> bool {
    if anchored {
        occurs_at(bytes(rec), bytes(term), 0)
    } else {
        exists|i: int| occurs_at(bytes(rec), bytes(term), i)
    }
}

/// Whether `i` lies in the range that a search from `start` in direction
/// `dir` walks over.
pub open spec fn in_scan(len: nat, start: int, dir: SearchDirection, i: int) -> bool {
    match dir {
        SearchDirection::Forward => start <= i < len,
        SearchDirection::Reverse => 0 <= i <= start && i < len,
    }
}

/// Whether a search from `start` in direction `dir` meets record `j`
/// before record `i`.
pub open spec fn scanned_before(start: int, dir: SearchDirection, j: int, i: int) -> bool {
    match dir {
        SearchDirection::Forward => start <= j < i,
        SearchDirection::Reverse => i < j <= start,
    }
}

/// Whether some record in the range of the search answers it.
pub open spec fn any_match(
    e: Seq<Seq<char>>,
    term: Seq<char>,
    start: int,
    dir: SearchDirection,
    anchored: bool,
) -> bool {
    exists|i: int| in_scan(e.len(), start, dir, i) && matches(e[i], term, anchored)
}

/// Whether record `i` is the first one that the search meets and that answers it.
pub open spec fn first_match(
    e: Seq<Seq<char>>,
    term: Seq<char>,
    start: int,
    dir: SearchDirection,
    anchored: bool,
    i: int,
) -> bool {
    &&& in_scan(e.len(), start, dir, i)
    &&& matches(e[i], term, anchored)
    &&& forall|j: int| scanned_before(start, dir, j, i) ==> !matches(e[j], term, anchored)
}

/// The offset of the first occurrence of `p` in `t`, if any.
fn find_bytes(t: &[u8], p: &[u8]) -> (r: Option<usize>)
    ensures
        r matches Some(i) ==> first_occurrence(t@, p@, i as int),
        r is None ==> forall|i: int| !occurs_at(t@, p@, i),
{
    if p.len() > t.len() {
        return None;
    }
    let last = t.len() - p.len();
    let mut i: usize = 0;
    loop
        invariant
            last == t@.len() - p@.len(),
            i <= last,
            forall|j: int| 0 <= j < i ==> !occurs_at(t@, p@, j),
        decreases last - i,
    {
        if prefix_at(t, p, i) {
            return Some(i);
        }
        if i == last {
            assert forall|j: int| !occurs_at(t@, p@, j) by {
                if 0 <= j <= last {
                    assert(j < i || j == i);
                }
            }
            return None;
        }
        i = i + 1;
    }
}

/// Whether `p` occurs in `t` at offset `i`.
fn prefix_at(t: &[u8], p: &[u8], i: usize) -> (r: bool)
    requires
        i + p@.len() <= t@.len(),
    ensures
        r == occurs_at(t@, p@, i as int),
{
    let n = t.len();
    let mut k: usize = 0;
    while k < p.len()
        invariant
            n == t@.len(),
            i + p@.len() <= t@.len(),
            k <= p@.len(),
            forall|m: int| 0 <= m < k ==> t@[i + m] == p@[m],
        decreases p.len() - k,
    {
        if t[i + k] != p[k] {
            assert(t@.subrange(i as int, i + p@.len())[k as int] != p@[k as int]);
            return false;
        }
        k = k + 1;
    }
    assert(t@.subrange(i as int, i + p@.len()) == p@);
    true
}

/// Whether the bytes `t` of a record answer a search for the bytes `p`, and
/// the offset reported for it: the length of `p` where the search is anchored
/// at the start, that of the first occurrence otherwise.
fn record_match(t: &[u8], p: &[u8], anchored: bool) -> (r: Option<usize>)
    ensures
        anchored ==> (r is Some <==> occurs_at(t@, p@, 0)),
        !anchored ==> (r is Some <==> exists|i: int| occurs_at(t@, p@, i)),
        r matches Some(i) ==> if anchored {
            i == p@.len()
        } else {
            first_occurrence(t@, p@, i as int)
        },
{
    if anchored {
        if p.len() <= t.len() && prefix_at(t, p, 0) {
            Some(p.len())
        } else {
            None
        }
    } else {
        find_bytes(t, p)
    }
}

/// The text of a history file: each record followed by a newline, oldest first.
pub open spec fn file_text(e: Seq<Seq<char>>) -> Seq<char>
    decreases e.len(),
{
    if e.len() == 0 {
        Seq::empty()
    } else {
        file_text(e.drop_last()) + e.last() + seq!['\n']
    }
}

/// The pieces of `t` between newlines, the last one possibly empty.
pub open spec fn pieces(t: Seq<char>) -> Seq<Seq<char>>
    decreases t.len(),
{
    if t.len() == 0 {
        seq![Seq::empty()]
    } else {
        let p = pieces(t.drop_last());
        if t.last() == '\n' {
            p.push(Seq::empty())
        } else {
            p.drop_last().push(p.last().push(t.last()))
        }
    }
}

/// A line without the carriage return that may end it.
pub open spec fn strip_cr(l: Seq<char>) -> Seq<char> {
    if l.len() > 0 && l.last() == '\r' {
        l.drop_last()
    } else {
        l
    }
}

/// The lines of `t`, as a line reader yields them: split at each newline,
/// each terminated line without a final carriage return, and no empty line
/// after a final newline.
pub open spec fn lines(t: Seq<char>) -> Seq<Seq<char>> {
    let p = pieces(t);
    let done = p.drop_last().map_values(|l: Seq<char>| strip_cr(l));
    if p.last().len() == 0 {
        done
    } else {
        done.push(p.last())
    }
}

/// The records of a store after `add` of each of `ls` in turn, starting from
/// records `e` with bound `cap`.
pub open spec fn add_all(e: Seq<Seq<char>>, cap: nat, ls: Seq<Seq<char>>) -> Seq<Seq<char>>
    decreases ls.len(),
{
    if ls.len() == 0 {
        e
    } else {
        let e1 = add_all(e, cap, ls.drop_last());
        if ls.last().len() > 0 {
            last_n(e1.push(ls.last()), cap)
        } else {
            e1
        }
    }
}

/// A bounded log of command lines, oldest first.
pub struct ShellHistory {
    buffer: VecDeque<String>,
    capacity: usize,
}

impl View for ShellHistory {
    type V = Seq<Seq<char>>;

    closed spec fn view(&self) -> Seq<Seq<char>> {
        views(self.buffer@)
    }
}

impl ShellHistory {
    /// The bound on the number of records.
    pub closed spec fn max_len(&self) -> nat {
        self.capacity as nat
    }

    /// An empty store that keeps up to `HISTORY_MAX` records.
    pub fn new() -> (r: Self)
        ensures
            r@ == Seq::<Seq<char>>::empty(),
            r.max_len() == HISTORY_MAX,
    {
        let r = ShellHistory { buffer: VecDeque::new(), capacity: HISTORY_MAX };
        assert(r@ =~= Seq::<Seq<char>>::empty());
        r
    }

    /// The bound on the number of records.
    pub fn capacity(&self) -> (r: usize)
        ensures
            r == self.max_len(),
    {
        self.capacity
    }

    /// Drops the oldest records until no more than `capacity` are left.
    fn evict(&mut self)
        ensures
            final(self)@ == last_n(old(self)@, old(self).max_len()),
            final(self).max_len() == old(self).max_len(),
    {
        let ghost orig = self@;
        while self.buffer.len() > self.capacity
            invariant
                self.max_len() == old(self).max_len(),
                orig == old(self)@,
                self@.len() <= orig.len(),
                self@ == orig.subrange(orig.len() - self@.len(), orig.len() as int),
                orig.len() <= self.max_len() ==> self@.len() == orig.len(),
                orig.len() > self.max_len() ==> self@.len() >= self.max_len(),
            decreases self.buffer@.len(),
        {
            let ghost before = self.buffer@;
            self.buffer.pop_front();
            assert(self@ == views(before).subrange(1, before.len() as int));
        }
        assert(orig.subrange(0, orig.len() as int) == orig);
    }

    /// Appends `cmd` as the newest record, dropping the oldest records so
    /// that no more than the capacity are kept.
    pub fn push(&mut self, cmd: String)
        ensures
            final(self)@ == last_n(old(self)@.push(cmd@), old(self).max_len()),
            final(self).max_len() == old(self).max_len(),
    {
        let ghost s = cmd@;
        self.buffer.push_back(cmd);
        assert(self@ == old(self)@.push(s));
        self.evict();
    }

    /// Like `push`, but an empty line is refused: nothing changes and the
    /// result is `false`.
    pub fn add(&mut self, line: &str) -> (r: bool)
        ensures
            r == (line@.len() > 0),
            r ==> final(self)@ == last_n(old(self)@.push(line@), old(self).max_len()),
            !r ==> final(self)@ == old(self)@,
            final(self).max_len() == old(self).max_len(),
    {
        if line.is_empty() {
            return false;
        }
        let s = copy_str(line);
        self.push(s);
        true
    }

    /// Like `add`, taking the line by value.
    pub fn add_owned(&mut self, line: String) -> (r: bool)
        ensures
            r == (line@.len() > 0),
            r ==> final(self)@ == last_n(old(self)@.push(line@), old(self).max_len()),
            !r ==> final(self)@ == old(self)@,
            final(self).max_len() == old(self).max_len(),
    {
        if line.as_str().is_empty() {
            return false;
        }
        self.push(line);
        true
    }

    /// The number of records.
    pub fn len(&self) -> (r: usize)
        ensures
            r == self@.len(),
    {
        self.buffer.len()
    }

    /// Whether the store holds no record.
    pub fn is_empty(&self) -> (r: bool)
        ensures
            r == (self@.len() == 0),
    {
        self.buffer.len() == 0
    }

    /// Sets the bound to `max_len`, dropping the oldest records beyond it.
    pub fn set_max_len(&mut self, max_len: usize)
        ensures
            final(self)@ == last_n(old(self)@, max_len as nat),
            final(self).max_len() == max_len,
    {
        self.capacity = max_len;
        self.evict();
    }

    /// Removes every record; the bound stays.
    pub fn clear(&mut self)
        ensures
            final(self)@ == Seq::<Seq<char>>::empty(),
            final(self).max_len() == old(self).max_len(),
    {
        self.buffer.clear();
        assert(self@ =~= Seq::<Seq<char>>::empty());
    }

    /// The records, oldest first; a fresh traversal on each call.
    pub fn iter(&self) -> (r: std::collections::vec_deque::Iter<'_, String>)
        ensures
            r.remaining().map_values(|s: &String| s@) == self@,
    {
        let r = self.buffer.iter();
        assert(r.remaining().map_values(|s: &String| s@) =~= self@);
        r
    }

    /// The record at `index`, oldest first, reported with offset 0.
    pub fn get(&self, index: usize) -> (r: Option<SearchResult>)
        ensures
            index < self@.len() <==> r is Some,
            r matches Some(x) ==> x.entry@ == self@[index as int] && x.idx == index && x.pos == 0,
    {
        if index < self.buffer.len() {
            let entry = copy_str(self.buffer[index].as_str());
            Some(SearchResult { entry, idx: index, pos: 0 })
        } else {
            None
        }
    }
}

impl ShellHistory {
    /// The first record that a search from `start` toward `dir` meets and
    /// that answers `term`.
    fn scan(&self, term: &str, start: usize, dir: SearchDirection, anchored: bool) -> (r: Option<
        SearchResult,
    >)
        ensures
            r is Some <==> (term@.len() > 0 && start < self@.len() && any_match(
                self@,
                term@,
                start as int,
                dir,
                anchored,
            )),
            r matches Some(x) ==> {
                &&& first_match(self@, term@, start as int, dir, anchored, x.idx as int)
                &&& x.entry@ == self@[x.idx as int]
                &&& if anchored {
                    x.pos == bytes(term@).len()
                } else {
                    first_occurrence(bytes(x.entry@), bytes(term@), x.pos as int)
                }
            },
    {
        let n = self.buffer.len();
        if term.is_empty() || start >= n {
            return None;
        }
        let tb = term.as_bytes();
        match dir {
            SearchDirection::Forward => {
                let mut i: usize = start;
                while i < n
                    invariant
                        n == self@.len(),
                        start <= i <= n,
                        dir == SearchDirection::Forward,
                        tb@ == bytes(term@),
                        term@.len() > 0,
                        forall|j: int| start <= j < i ==> !matches(self@[j], term@, anchored),
                    decreases n - i,
                {
                    let rec = self.buffer[i].as_str();
                    let rb = rec.as_bytes();
                    assert(rec@ == self@[i as int]);
                    assert(rb@ == bytes(self@[i as int]));
                    if let Some(pos) = record_match(rb, tb, anchored) {
                        assert(matches(self@[i as int], term@, anchored));
                        assert(in_scan(self@.len(), start as int, dir, i as int));
                        return Some(SearchResult { entry: copy_str(rec), idx: i, pos });
                    }
                    i = i + 1;
                }
                assert(!any_match(self@, term@, start as int, dir, anchored));
                None
            },
            SearchDirection::Reverse => {
                let mut i: usize = start;
                loop
                    invariant
                        n == self@.len(),
                        i <= start < n,
                        dir == SearchDirection::Reverse,
                        tb@ == bytes(term@),
                        term@.len() > 0,
                        forall|j: int| i < j <= start ==> !matches(self@[j], term@, anchored),
                    decreases i,
                {
                    let rec = self.buffer[i].as_str();
                    let rb = rec.as_bytes();
                    assert(rec@ == self@[i as int]);
                    assert(rb@ == bytes(self@[i as int]));
                    if let Some(pos) = record_match(rb, tb, anchored) {
                        assert(matches(self@[i as int], term@, anchored));
                        assert(in_scan(self@.len(), start as int, dir, i as int));
                        return Some(SearchResult { entry: copy_str(rec), idx: i, pos });
                    }
                    if i == 0 {
                        assert(!any_match(self@, term@, start as int, dir, anchored));
                        return None;
                    }
                    i = i - 1;
                }
            },
        }
    }

    /// Searches for a record that contains `term`, walking from `start`
    /// toward `dir`; the offset reported is that of the first occurrence.
    pub fn search(&self, term: &str, start: usize, dir: SearchDirection) -> (r: Option<
        SearchResult,
    >)
        ensures
            r is Some <==> (term@.len() > 0 && start < self@.len() && any_match(
                self@,
                term@,
                start as int,
                dir,
                false,
            )),
            r matches Some(x) ==> {
                &&& first_match(self@, term@, start as int, dir, false, x.idx as int)
                &&& x.entry@ == self@[x.idx as int]
                &&& first_occurrence(bytes(x.entry@), bytes(term@), x.pos as int)
            },
    {
        self.scan(term, start, dir, false)
    }

    /// Searches for a record that begins with `term`, walking from `start`
    /// toward `dir`; the offset reported is the byte length of `term`.
    pub fn starts_with(&self, term: &str, start: usize, dir: SearchDirection) -> (r: Option<
        SearchResult,
    >)
        ensures
            r is Some <==> (term@.len() > 0 && start < self@.len() && any_match(
                self@,
                term@,
                start as int,
                dir,
                true,
            )),
            r matches Some(x) ==> {
                &&& first_match(self@, term@, start as int, dir, true, x.idx as int)
                &&& x.entry@ == self@[x.idx as int]
                &&& x.pos == bytes(term@).len()
            },
    {
        self.scan(term, start, dir, true)
    }
}

impl ShellHistory {
    /// The contents of a history file holding the records: one per line,
    /// oldest first.
    pub fn to_text(&self) -> (r: String)
        ensures
            r@ == file_text(self@),
    {
        let mut out = String::new();
        let mut i: usize = 0;
        while i < self.buffer.len()
            invariant
                i <= self@.len(),
                out@ == file_text(self@.subrange(0, i as int)),
            decreases self@.len() - i,
        {
            proof {
                let p = self@.subrange(0, i + 1);
                assert(p.drop_last() == self@.subrange(0, i as int));
                assert(p.last() == self@[i as int]);
            }
            push_str(&mut out, self.buffer[i].as_str());
            push_str(&mut out, "\n");
            proof {
                reveal_strlit("\n");
            }
            i = i + 1;
        }
        assert(self@.subrange(0, self@.len() as int) == self@);
        out
    }

    /// Reads the lines of a history file's contents and calls `add` on each,
    /// so that the bound and the refusal of empty lines apply to them.
    pub fn load_text(&mut self, text: &str)
        ensures
            final(self)@ == add_all(old(self)@, old(self).max_len(), lines(text@)),
            final(self).max_len() == old(self).max_len(),
    {
        let cs = chars_of(text);
        let ghost cap = self.max_len();
        let ghost mut done: Seq<Seq<char>> = Seq::empty();
        let mut cur: Vec<char> = Vec::new();
        let mut i: usize = 0;
        while i < cs.len()
            invariant
                i <= cs@.len(),
                cs@ == text@,
                self.max_len() == cap,
                cap == old(self).max_len(),
                pieces(cs@.subrange(0, i as int)) == done.push(cur@),
                self@ == add_all(old(self)@, cap, done.map_values(|l: Seq<char>| strip_cr(l))),
            decreases cs@.len() - i,
        {
            let c = cs[i];
            proof {
                let t = cs@.subrange(0, i + 1);
                assert(t.drop_last() == cs@.subrange(0, i as int));
                assert(t.last() == c);
            }
            if c == '\n' {
                let ghost before = done;
                if cur.len() > 0 && cur[cur.len() - 1] == '\r' {
                    cur.pop();
                }
                let line = string_of(&cur);
                proof {
                    done = done.push(pieces(cs@.subrange(0, i as int)).last());
                    assert(line@ == strip_cr(done.last()));
                    let m = done.map_values(|l: Seq<char>| strip_cr(l));
                    assert(m.drop_last() == before.map_values(|l: Seq<char>| strip_cr(l)));
                    assert(m.last() == line@);
                }
                self.add_owned(line);
                cur = Vec::new();
            } else {
                cur.push(c);
            }
            i = i + 1;
        }
        assert(cs@.subrange(0, cs@.len() as int) == cs@);
        proof {
            let p = pieces(text@);
            assert(p.drop_last() == done);
            assert(p.last() == cur@);
        }
        if cur.len() > 0 {
            let line = string_of(&cur);
            proof {
                let m = done.map_values(|l: Seq<char>| strip_cr(l));
                assert(m.push(line@).drop_last() == m);
                assert(m.push(line@).last() == line@);
                assert(lines(text@) == m.push(line@));
            }
            self.add_owned(line);
        }
    }
}

impl Default for ShellHistory {
    fn default() -> (r: Self)
        ensures
            r@ == Seq::<Seq<char>>::empty(),
            r.max_len() == HISTORY_MAX,
    {
        ShellHistory::new()
    }
}

/// The records of a store after `push` of each of `ts` in turn, starting from
/// records `e` with bound `cap`.
pub open spec fn push_all(e: Seq<Seq<char>>, cap: nat, ts: Seq<Seq<char>>) -> Seq<Seq<char>>
    decreases ts.len(),
{
    if ts.len() == 0 {
        e
    } else {
        last_n(push_all(e, cap, ts.drop_last()).push(ts.last()), cap)
    }
}

/// After any number of pushes into an empty store, it holds exactly the most
/// recent `min(pushes, capacity)` records, in the order they were pushed.
pub proof fn lemma_push_keeps_latest(cap: nat, ts: Seq<Seq<char>>)
    ensures
        push_all(Seq::empty(), cap, ts) == last_n(ts, cap),
        push_all(Seq::empty(), cap, ts).len() == if ts.len() < cap {
            ts.len()
        } else {
            cap
        },
    decreases ts.len(),
{
    if ts.len() > 0 {
        let init = ts.drop_last();
        lemma_push_keeps_latest(cap, init);
        let k = last_n(init, cap);
        assert(init.push(ts.last()) == ts);
        if init.len() >= cap {
            if cap > 0 {
                assert(last_n(k.push(ts.last()), cap) =~= last_n(ts, cap));
            } else {
                assert(last_n(k.push(ts.last()), cap) =~= last_n(ts, cap));
            }
        }
    }
}

/// Pushing one record more than the capacity into an empty store leaves it
/// full, holding all but the oldest record; where the oldest one is not
/// repeated later, it is gone.
pub proof fn lemma_eviction(cap: nat, ts: Seq<Seq<char>>)
    requires
        ts.len() == cap + 1,
    ensures
        push_all(Seq::empty(), cap, ts).len() == cap,
        push_all(Seq::empty(), cap, ts) == ts.drop_first(),
        (forall|i: int| 1 <= i < ts.len() ==> #[trigger] ts[i] != ts[0]) ==> !push_all(
            Seq::empty(),
            cap,
            ts,
        ).contains(ts[0]),
{
    lemma_push_keeps_latest(cap, ts);
    assert(last_n(ts, cap) =~= ts.drop_first());
    if forall|i: int| 1 <= i < ts.len() ==> #[trigger] ts[i] != ts[0] {
        if ts.drop_first().contains(ts[0]) {
            let j = choose|j: int| 0 <= j < ts.drop_first().len() && ts.drop_first()[j] == ts[0];
            assert(ts[j + 1] == ts[0]);
        }
    }
}

/// Adding records that are all non-empty is pushing them.
proof fn lemma_add_all_nonempty(e: Seq<Seq<char>>, cap: nat, ls: Seq<Seq<char>>)
    requires
        forall|i: int| 0 <= i < ls.len() ==> ls[i].len() > 0,
    ensures
        add_all(e, cap, ls) == push_all(e, cap, ls),
    decreases ls.len(),
{
    if ls.len() > 0 {
        lemma_add_all_nonempty(e, cap, ls.drop_last());
    }
}

/// Text without a newline extends the last piece.
proof fn lemma_pieces_extend(t: Seq<char>, r: Seq<char>)
    requires
        !r.contains('\n'),
    ensures
        pieces(t + r) == pieces(t).drop_last().push(pieces(t).last() + r),
    decreases r.len(),
{
    if r.len() == 0 {
        assert(t + r == t);
        assert(pieces(t).last() + r == pieces(t).last());
        assert(pieces(t).drop_last().push(pieces(t).last()) == pieces(t));
    } else {
        let r0 = r.drop_last();
        assert(!r0.contains('\n')) by {
            if r0.contains('\n') {
                let j = choose|j: int| 0 <= j < r0.len() && r0[j] == '\n';
                assert(r[j] == '\n');
            }
        }
        lemma_pieces_extend(t, r0);
        assert((t + r).drop_last() == t + r0);
        assert((t + r).last() == r.last());
        assert(r.last() != '\n') by {
            assert(r[r.len() - 1] == r.last());
        }
        assert((pieces(t).last() + r0).push(r.last()) == pieces(t).last() + r);
    }
}

/// The pieces of a history file's text are its records, then an empty piece.
proof fn lemma_pieces_file_text(e: Seq<Seq<char>>)
    requires
        forall|i: int| 0 <= i < e.len() ==> !e[i].contains('\n'),
    ensures
        pieces(file_text(e)) == e.push(Seq::empty()),
    decreases e.len(),
{
    if e.len() == 0 {
        assert(pieces(Seq::<char>::empty()) == seq![Seq::<char>::empty()]);
    } else {
        let init = e.drop_last();
        lemma_pieces_file_text(init);
        let t = file_text(init);
        lemma_pieces_extend(t, e.last());
        assert(pieces(t).drop_last() == init);
        assert(pieces(t).last() + e.last() == e.last());
        let u = t + e.last();
        let v = u + seq!['\n'];
        assert(v.drop_last() == u);
        assert(v.last() == '\n');
        assert(init.push(e.last()) == e);
    }
}

/// Saving the records and loading the file into an empty store with bound
/// `cap` gives back the records, less the oldest ones beyond `cap`, where
/// each record is non-empty, holds no newline and does not end in a carriage
/// return.
pub proof fn lemma_round_trip(e: Seq<Seq<char>>, cap: nat)
    requires
        forall|i: int|
            0 <= i < e.len() ==> e[i].len() > 0 && !e[i].contains('\n') && e[i].last() != '\r',
    ensures
        add_all(Seq::empty(), cap, lines(file_text(e))) == last_n(e, cap),
{
    lemma_pieces_file_text(e);
    let p = pieces(file_text(e));
    assert(p.drop_last() == e);
    assert(p.last().len() == 0);
    assert(lines(file_text(e)) =~= e);
    lemma_add_all_nonempty(Seq::empty(), cap, e);
    lemma_push_keeps_latest(cap, e);
}

} // verus!
