//! The per-site reader/writer lockset.
//!
//! For each patch-site address the lockset tracks which tracee threads hold
//! the site for read and whether a thread holds it for write.  A read is
//! acquired on syscall entry, while the kernel runs the call whose
//! instruction lies at the site, and released at syscall exit; a write is
//! acquired only around the byte rewrite itself.  The governing invariant:
//! a site held for read by anyone is never held for write, so a byte range
//! with an in-flight syscall instruction is never rewritten
//! ([`RemoteRWLock::lemma_reader_excludes_writer`]).

use vstd::prelude::*;

verus! {

struct SiteLock {
    site: u64,
    readers: Vec<i32>,
    writer: Option<i32>,
}

/// Reader/writer lock table keyed by patch-site address, shared by the
/// threads of one address space.
pub struct RemoteRWLock {
    entries: Vec<SiteLock>,
}

spec fn distinct(rs: Seq<i32>) -> bool {
    forall|m: int, n: int| 0 <= m < n < rs.len() ==> rs[m] != rs[n]
}

impl RemoteRWLock {
    /// Thread `tid` holds the read side of `site`.
    pub closed spec fn reads(&self, tid: i32, site: u64) -> bool {
        exists|i: int|
            0 <= i < self.entries@.len() && (#[trigger] self.entries@[i]).site == site
                && self.entries@[i].readers@.contains(tid)
    }

    /// Thread `tid` holds the write side of `site`.
    pub closed spec fn writes(&self, tid: i32, site: u64) -> bool {
        exists|i: int|
            0 <= i < self.entries@.len() && (#[trigger] self.entries@[i]).site == site
                && self.entries@[i].writer == Option::Some(tid)
    }

    /// Some thread holds the read side of `site`.
    pub closed spec fn read_held(&self, site: u64) -> bool {
        exists|i: int|
            0 <= i < self.entries@.len() && (#[trigger] self.entries@[i]).site == site
                && self.entries@[i].readers@.len() > 0
    }

    /// Some thread holds the write side of `site`.
    pub closed spec fn write_held(&self, site: u64) -> bool {
        exists|i: int|
            0 <= i < self.entries@.len() && (#[trigger] self.entries@[i]).site == site
                && self.entries@[i].writer is Some
    }

    /// Well-formedness: one entry per site, a write-held site has no
    /// readers, and no thread is recorded twice as a reader.
    pub closed spec fn wf(&self) -> bool {
        &&& forall|i: int, j: int|
            0 <= i < j < self.entries@.len() ==> (#[trigger] self.entries@[i]).site != (
            #[trigger] self.entries@[j]).site
        &&& forall|i: int|
            0 <= i < self.entries@.len() && (#[trigger] self.entries@[i]).writer is Some
                ==> self.entries@[i].readers@.len() == 0
        &&& forall|i: int|
            0 <= i < self.entries@.len() ==> distinct((#[trigger] self.entries@[i]).readers@)
    }

    /// While any thread is inside the range of a site — holding its read
    /// side — no thread holds the site for write.
    pub proof fn lemma_reader_excludes_writer(&self, tid: i32, site: u64)
        requires
            self.wf(),
            self.reads(tid, site),
        ensures
            forall|w: i32| !self.writes(w, site),
    {
        let i = choose|i: int|
            0 <= i < self.entries@.len() && (#[trigger] self.entries@[i]).site == site
                && self.entries@[i].readers@.contains(tid);
        assert(self.entries@[i].readers@.len() > 0);
        assert forall|w: i32| !self.writes(w, site) by {
            if self.writes(w, site) {
                let j = choose|j: int|
                    0 <= j < self.entries@.len() && (#[trigger] self.entries@[j]).site == site
                        && self.entries@[j].writer == Option::Some(w);
                if i < j {
                    assert(self.entries@[i].site != self.entries@[j].site);
                } else if j < i {
                    assert(self.entries@[j].site != self.entries@[i].site);
                }
            }
        }
    }

    /// The read side of a site is held exactly when some thread holds it.
    pub proof fn lemma_read_held_iff(&self, site: u64)
        ensures
            self.read_held(site) == exists|t: i32| self.reads(t, site),
    {
        if self.read_held(site) {
            let i = choose|i: int|
                0 <= i < self.entries@.len() && (#[trigger] self.entries@[i]).site == site
                    && self.entries@[i].readers@.len() > 0;
            let t = self.entries@[i].readers@[0];
            assert(self.entries@[i].readers@.contains(t));
            assert(self.reads(t, site));
        }
        if exists|t: i32| self.reads(t, site) {
            let t = choose|t: i32| self.reads(t, site);
            let i = choose|i: int|
                0 <= i < self.entries@.len() && (#[trigger] self.entries@[i]).site == site
                    && self.entries@[i].readers@.contains(t);
            assert(self.entries@[i].readers@.len() > 0);
            assert(self.read_held(site));
        }
    }

    /// The write side of a site is held exactly when some thread holds it.
    pub proof fn lemma_write_held_iff(&self, site: u64)
        ensures
            self.write_held(site) == exists|t: i32| self.writes(t, site),
    {
        if self.write_held(site) {
            let i = choose|i: int|
                0 <= i < self.entries@.len() && (#[trigger] self.entries@[i]).site == site
                    && self.entries@[i].writer is Some;
            let t = self.entries@[i].writer->0;
            assert(self.writes(t, site));
        }
        if exists|t: i32| self.writes(t, site) {
            let t = choose|t: i32| self.writes(t, site);
            let i = choose|i: int|
                0 <= i < self.entries@.len() && (#[trigger] self.entries@[i]).site == site
                    && self.entries@[i].writer == Option::Some(t);
            assert(self.write_held(site));
        }
    }

    /// An empty lockset: nothing is held.
    pub fn new() -> (r: RemoteRWLock)
        ensures
            r.wf(),
            forall|t: i32, s: u64| !r.reads(t, s),
            forall|t: i32, s: u64| !r.writes(t, s),
            forall|s: u64| !r.read_held(s) && !r.write_held(s),
    {
        RemoteRWLock { entries: Vec::new() }
    }

    fn find_entry(&self, site: u64) -> (r: Option<usize>)
        ensures
            match r {
                Option::Some(i) => i < self.entries@.len() && self.entries@[i as int].site == site,
                Option::None => forall|i: int|
                    0 <= i < self.entries@.len() ==> (#[trigger] self.entries@[i]).site != site,
            },
    {
        let mut i: usize = 0;
        while i < self.entries.len()
            invariant
                i <= self.entries@.len(),
                forall|j: int| 0 <= j < i ==> (#[trigger] self.entries@[j]).site != site,
            decreases self.entries@.len() - i,
        {
            if self.entries[i].site == site {
                return Option::Some(i);
            }
            i = i + 1;
        }
        Option::None
    }

    /// All holdings after replacing entry `i` by one at the same site.
    proof fn lemma_update_frame(pre: Seq<SiteLock>, cur: Seq<SiteLock>, i: int, lk: &RemoteRWLock, pl: &RemoteRWLock)
        requires
            0 <= i < pre.len(),
            cur == pre.update(i, cur[i]),
            cur.len() == pre.len(),
            cur[i].site == pre[i].site,
            pl.entries@ == pre,
            lk.entries@ == cur,
            forall|i2: int, j2: int| 0 <= i2 < j2 < pre.len() ==> (#[trigger] pre[i2]).site != (#[trigger] pre[j2]).site,
        ensures
            forall|t: i32, s: u64|
                s != pre[i].site ==> #[trigger] lk.reads(t, s) == pl.reads(t, s),
            forall|t: i32, s: u64|
                s != pre[i].site ==> #[trigger] lk.writes(t, s) == pl.writes(t, s),
            forall|s: u64| s != pre[i].site ==> #[trigger] lk.read_held(s) == pl.read_held(s),
            forall|s: u64| s != pre[i].site ==> #[trigger] lk.write_held(s) == pl.write_held(s),
            forall|t: i32|
                #[trigger] lk.reads(t, pre[i].site) == cur[i].readers@.contains(t),
            forall|t: i32|
                #[trigger] lk.writes(t, pre[i].site) == (cur[i].writer == Option::Some(t)),
            lk.read_held(pre[i].site) == (cur[i].readers@.len() > 0),
            lk.write_held(pre[i].site) == (cur[i].writer is Some),
    {
        let st = pre[i].site;
        assert forall|t: i32, s: u64| s != st implies #[trigger] lk.reads(t, s) == pl.reads(t, s) by {
            if lk.reads(t, s) {
                let j = choose|j: int|
                    0 <= j < cur.len() && (#[trigger] cur[j]).site == s && cur[j].readers@.contains(
                        t,
                    );
                assert(j != i);
                assert(pre[j].site == s && pre[j].readers@.contains(t));
            }
            if pl.reads(t, s) {
                let j = choose|j: int|
                    0 <= j < pre.len() && (#[trigger] pre[j]).site == s && pre[j].readers@.contains(
                        t,
                    );
                assert(j != i);
                assert(cur[j].site == s && cur[j].readers@.contains(t));
            }
        }
        assert forall|t: i32, s: u64| s != st implies #[trigger] lk.writes(t, s) == pl.writes(
            t,
            s,
        ) by {
            if lk.writes(t, s) {
                let j = choose|j: int|
                    0 <= j < cur.len() && (#[trigger] cur[j]).site == s && cur[j].writer
                        == Option::Some(t);
                assert(j != i);
                assert(pre[j].site == s && pre[j].writer == Option::Some(t));
            }
            if pl.writes(t, s) {
                let j = choose|j: int|
                    0 <= j < pre.len() && (#[trigger] pre[j]).site == s && pre[j].writer
                        == Option::Some(t);
                assert(j != i);
                assert(cur[j].site == s && cur[j].writer == Option::Some(t));
            }
        }
        assert forall|s: u64| s != st implies #[trigger] lk.read_held(s) == pl.read_held(s) by {
            if lk.read_held(s) {
                let j = choose|j: int|
                    0 <= j < cur.len() && (#[trigger] cur[j]).site == s && cur[j].readers@.len()
                        > 0;
                assert(j != i);
                assert(pre[j].site == s && pre[j].readers@.len() > 0);
            }
            if pl.read_held(s) {
                let j = choose|j: int|
                    0 <= j < pre.len() && (#[trigger] pre[j]).site == s && pre[j].readers@.len()
                        > 0;
                assert(j != i);
                assert(cur[j].site == s && cur[j].readers@.len() > 0);
            }
        }
        assert forall|s: u64| s != st implies #[trigger] lk.write_held(s) == pl.write_held(s) by {
            if lk.write_held(s) {
                let j = choose|j: int|
                    0 <= j < cur.len() && (#[trigger] cur[j]).site == s && cur[j].writer is Some;
                assert(j != i);
                assert(pre[j].site == s && pre[j].writer is Some);
            }
            if pl.write_held(s) {
                let j = choose|j: int|
                    0 <= j < pre.len() && (#[trigger] pre[j]).site == s && pre[j].writer is Some;
                assert(j != i);
                assert(cur[j].site == s && cur[j].writer is Some);
            }
        }
        assert forall|t: i32| #[trigger] lk.reads(t, st) == cur[i].readers@.contains(t) by {
            if lk.reads(t, st) {
                let j = choose|j: int|
                    0 <= j < cur.len() && (#[trigger] cur[j]).site == st
                        && cur[j].readers@.contains(t);
                if j != i {
                    if j < i {
                        assert(pre[j].site != pre[i].site);
                    } else {
                        assert(pre[i].site != pre[j].site);
                    }
                }
            }
            if cur[i].readers@.contains(t) {
                assert(0 <= i < cur.len() && cur[i].site == st && cur[i].readers@.contains(t));
            }
        }
        assert forall|t: i32| #[trigger] lk.writes(t, st) == (cur[i].writer == Option::Some(
            t,
        )) by {
            if lk.writes(t, st) {
                let j = choose|j: int|
                    0 <= j < cur.len() && (#[trigger] cur[j]).site == st && cur[j].writer
                        == Option::Some(t);
                if j != i {
                    if j < i {
                        assert(pre[j].site != pre[i].site);
                    } else {
                        assert(pre[i].site != pre[j].site);
                    }
                }
            }
            if cur[i].writer == Option::Some(t) {
                assert(0 <= i < cur.len() && cur[i].site == st && cur[i].writer == Option::Some(t));
            }
        }
        assert(lk.read_held(st) == (cur[i].readers@.len() > 0)) by {
            if lk.read_held(st) {
                let j = choose|j: int|
                    0 <= j < cur.len() && (#[trigger] cur[j]).site == st && cur[j].readers@.len()
                        > 0;
                if j != i {
                    if j < i {
                        assert(pre[j].site != pre[i].site);
                    } else {
                        assert(pre[i].site != pre[j].site);
                    }
                }
            }
            if cur[i].readers@.len() > 0 {
                assert(0 <= i < cur.len() && cur[i].site == st && cur[i].readers@.len() > 0);
            }
        }
        assert(lk.write_held(st) == (cur[i].writer is Some)) by {
            if lk.write_held(st) {
                let j = choose|j: int|
                    0 <= j < cur.len() && (#[trigger] cur[j]).site == st && cur[j].writer is Some;
                if j != i {
                    if j < i {
                        assert(pre[j].site != pre[i].site);
                    } else {
                        assert(pre[i].site != pre[j].site);
                    }
                }
            }
            if cur[i].writer is Some {
                assert(0 <= i < cur.len() && cur[i].site == st && cur[i].writer is Some);
            }
        }
    }

    /// All holdings after pushing an entry at a site no entry had.
    proof fn lemma_push_frame(pre: Seq<SiteLock>, cur: Seq<SiteLock>, lk: &RemoteRWLock, pl: &RemoteRWLock)
        requires
            cur.len() == pre.len() + 1,
            cur == pre.push(cur[pre.len() as int]),
            pl.entries@ == pre,
            lk.entries@ == cur,
            forall|i: int| 0 <= i < pre.len() ==> (#[trigger] pre[i]).site != cur[pre.len() as int].site,
        ensures
            forall|t: i32, s: u64|
                s != cur[pre.len() as int].site ==> #[trigger] lk.reads(t, s) == pl.reads(t, s),
            forall|t: i32, s: u64|
                s != cur[pre.len() as int].site ==> #[trigger] lk.writes(t, s) == pl.writes(t, s),
            forall|s: u64|
                s != cur[pre.len() as int].site ==> #[trigger] lk.read_held(s) == pl.read_held(s),
            forall|s: u64|
                s != cur[pre.len() as int].site ==> #[trigger] lk.write_held(s) == pl.write_held(
                    s,
                ),
            forall|t: i32|
                #[trigger] lk.reads(t, cur[pre.len() as int].site) == cur[
                    pre.len() as int
                ].readers@.contains(t),
            forall|t: i32|
                #[trigger] lk.writes(t, cur[pre.len() as int].site) == (cur[
                    pre.len() as int
                ].writer == Option::Some(t)),
            lk.read_held(cur[pre.len() as int].site) == (cur[pre.len() as int].readers@.len() > 0),
            lk.write_held(cur[pre.len() as int].site) == (cur[pre.len() as int].writer is Some),
            forall|t: i32, s: u64| !pl.reads(t, s) || lk.reads(t, s) || s == cur[pre.len() as int].site,
    {
        let n = pre.len() as int;
        let st = cur[n].site;
        assert forall|t: i32, s: u64| s != st implies #[trigger] lk.reads(t, s) == pl.reads(t, s) by {
            if lk.reads(t, s) {
                let j = choose|j: int|
                    0 <= j < cur.len() && (#[trigger] cur[j]).site == s && cur[j].readers@.contains(
                        t,
                    );
                assert(j != n);
                assert(pre[j].site == s && pre[j].readers@.contains(t));
            }
            if pl.reads(t, s) {
                let j = choose|j: int|
                    0 <= j < pre.len() && (#[trigger] pre[j]).site == s && pre[j].readers@.contains(
                        t,
                    );
                assert(cur[j].site == s && cur[j].readers@.contains(t));
            }
        }
        assert forall|t: i32, s: u64| s != st implies #[trigger] lk.writes(t, s) == pl.writes(
            t,
            s,
        ) by {
            if lk.writes(t, s) {
                let j = choose|j: int|
                    0 <= j < cur.len() && (#[trigger] cur[j]).site == s && cur[j].writer
                        == Option::Some(t);
                assert(j != n);
                assert(pre[j].site == s && pre[j].writer == Option::Some(t));
            }
            if pl.writes(t, s) {
                let j = choose|j: int|
                    0 <= j < pre.len() && (#[trigger] pre[j]).site == s && pre[j].writer
                        == Option::Some(t);
                assert(cur[j].site == s && cur[j].writer == Option::Some(t));
            }
        }
        assert forall|s: u64| s != st implies #[trigger] lk.read_held(s) == pl.read_held(s) by {
            if lk.read_held(s) {
                let j = choose|j: int|
                    0 <= j < cur.len() && (#[trigger] cur[j]).site == s && cur[j].readers@.len()
                        > 0;
                assert(j != n);
                assert(pre[j].site == s && pre[j].readers@.len() > 0);
            }
            if pl.read_held(s) {
                let j = choose|j: int|
                    0 <= j < pre.len() && (#[trigger] pre[j]).site == s && pre[j].readers@.len()
                        > 0;
                assert(cur[j].site == s && cur[j].readers@.len() > 0);
            }
        }
        assert forall|s: u64| s != st implies #[trigger] lk.write_held(s) == pl.write_held(s) by {
            if lk.write_held(s) {
                let j = choose|j: int|
                    0 <= j < cur.len() && (#[trigger] cur[j]).site == s && cur[j].writer is Some;
                assert(j != n);
                assert(pre[j].site == s && pre[j].writer is Some);
            }
            if pl.write_held(s) {
                let j = choose|j: int|
                    0 <= j < pre.len() && (#[trigger] pre[j]).site == s && pre[j].writer is Some;
                assert(cur[j].site == s && cur[j].writer is Some);
            }
        }
        assert forall|t: i32| #[trigger] lk.reads(t, st) == cur[n].readers@.contains(t) by {
            if lk.reads(t, st) {
                let j = choose|j: int|
                    0 <= j < cur.len() && (#[trigger] cur[j]).site == st
                        && cur[j].readers@.contains(t);
                if j != n {
                    assert(pre[j].site != st);
                }
            }
            if cur[n].readers@.contains(t) {
                assert(0 <= n < cur.len() && cur[n].site == st && cur[n].readers@.contains(t));
            }
        }
        assert forall|t: i32| #[trigger] lk.writes(t, st) == (cur[n].writer == Option::Some(
            t,
        )) by {
            if lk.writes(t, st) {
                let j = choose|j: int|
                    0 <= j < cur.len() && (#[trigger] cur[j]).site == st && cur[j].writer
                        == Option::Some(t);
                if j != n {
                    assert(pre[j].site != st);
                }
            }
            if cur[n].writer == Option::Some(t) {
                assert(0 <= n < cur.len() && cur[n].site == st && cur[n].writer == Option::Some(t));
            }
        }
        assert(lk.read_held(st) == (cur[n].readers@.len() > 0)) by {
            if lk.read_held(st) {
                let j = choose|j: int|
                    0 <= j < cur.len() && (#[trigger] cur[j]).site == st && cur[j].readers@.len()
                        > 0;
                if j != n {
                    assert(pre[j].site != st);
                }
            }
            if cur[n].readers@.len() > 0 {
                assert(0 <= n < cur.len() && cur[n].site == st && cur[n].readers@.len() > 0);
            }
        }
        assert(lk.write_held(st) == (cur[n].writer is Some)) by {
            if lk.write_held(st) {
                let j = choose|j: int|
                    0 <= j < cur.len() && (#[trigger] cur[j]).site == st && cur[j].writer is Some;
                if j != n {
                    assert(pre[j].site != st);
                }
            }
            if cur[n].writer is Some {
                assert(0 <= n < cur.len() && cur[n].site == st && cur[n].writer is Some);
            }
        }
        assert forall|t: i32, s: u64|
            !pl.reads(t, s) || lk.reads(t, s) || s == cur[pre.len() as int].site by {
            if pl.reads(t, s) && s != st {
                assert(lk.reads(t, s));
            }
        }
    }

    /// Acquire the read side of `site` for `tid`.  Succeeds exactly when no
    /// thread holds the write side; on success `tid` holds the read side,
    /// and nothing else changes.
    pub fn try_read_lock(&mut self, tid: i32, site: u64) -> (b: bool)
        requires
            old(self).wf(),
        ensures
            final(self).wf(),
            b == !old(self).write_held(site),
            b ==> final(self).reads(tid, site),
            !b ==> *final(self) == *old(self),
            forall|t: i32, s: u64|
                !(t == tid && s == site) ==> #[trigger] final(self).reads(t, s) == old(self).reads(
                    t,
                    s,
                ),
            forall|t: i32, s: u64| #[trigger] final(self).writes(t, s) == old(self).writes(t, s),
            forall|s: u64| #[trigger] final(self).write_held(s) == old(self).write_held(s),
    {
        let found = self.find_entry(site);
        match found {
            Option::Some(i) => {
                proof {
                    if old(self).write_held(site) {
                        let j = choose|j: int|
                            0 <= j < old(self).entries@.len() && (
                            #[trigger] old(self).entries@[j]).site == site && old(
                                self,
                            ).entries@[j].writer is Some;
                        if j != i {
                            if j < i {
                                assert(old(self).entries@[j].site != old(self).entries@[i as int].site);
                            } else {
                                assert(old(self).entries@[i as int].site != old(self).entries@[j].site);
                            }
                        }
                    }
                }
                if self.entries[i].writer.is_some() {
                    proof {
                        assert(old(self).write_held(site));
                    }
                    return false;
                }
                let ghost pre = self.entries@;
                let mut e = self.entries.remove(i);
                let mut present = false;
                let mut k: usize = 0;
                while k < e.readers.len()
                    invariant
                        k <= e.readers@.len(),
                        present == e.readers@.take(k as int).contains(tid),
                    decreases e.readers@.len() - k,
                {
                    if e.readers[k] == tid {
                        present = true;
                    }
                    proof {
                        assert(e.readers@.take(k as int + 1).drop_last() =~= e.readers@.take(
                            k as int,
                        ));
                        assert(e.readers@.take(k as int + 1).last() == e.readers@[k as int]);
                    }
                    k = k + 1;
                }
                proof {
                    assert(e.readers@.take(e.readers@.len() as int) =~= e.readers@);
                }
                if !present {
                    e.readers.push(tid);
                }
                proof {
                    if present {
                        assert(e.readers@.contains(tid));
                    } else {
                        assert(e.readers@.last() == tid);
                        assert(e.readers@.contains(tid));
                    }
                }
                let ghost esnap = e;
                self.entries.insert(i, e);
                proof {
                    let cur = self.entries@;
                    assert(cur[i as int] == esnap);
                    assert(cur =~= pre.update(i as int, esnap));
                    assert(cur[i as int].readers@.contains(tid));
                    assert(distinct(cur[i as int].readers@)) by {
                        let rs = pre[i as int].readers@;
                        if !rs.contains(tid) {
                            assert(cur[i as int].readers@ == rs.push(tid));
                            assert forall|m: int, n: int|
                                0 <= m < n < rs.push(tid).len() implies rs.push(tid)[m] != rs.push(
                                tid,
                            )[n] by {
                                if n < rs.len() {
                                    assert(rs[m] != rs[n]);
                                } else {
                                    assert(rs.push(tid)[n] == tid);
                                    assert(rs.push(tid)[m] == rs[m]);
                                    assert(rs.contains(rs[m]));
                                }
                            }
                        }
                    }
                    Self::lemma_update_frame(pre, cur, i as int, self, old(self));
                    assert forall|t: i32, s: u64|
                        !(t == tid && s == site) implies #[trigger] final(self).reads(t, s) == old(
                        self,
                    ).reads(t, s) by {
                        if s == site {
                            assert(final(self).reads(t, s) == cur[i as int].readers@.contains(t));
                            assert(old(self).reads(t, s) == pre[i as int].readers@.contains(t)) by {
                                assert(pre =~= pre.update(i as int, pre[i as int]));
                                Self::lemma_update_frame(pre, pre, i as int, old(self), old(self));
                            }
                            if t != tid {
                                if pre[i as int].readers@.contains(tid) {
                                    assert(cur[i as int].readers@ == pre[i as int].readers@);
                                } else {
                                    let rs = pre[i as int].readers@;
                                    assert(cur[i as int].readers@ == rs.push(tid));
                                    assert(rs.push(tid).contains(t) == rs.contains(t)) by {
                                        if rs.contains(t) {
                                            let m = choose|m: int|
                                                0 <= m < rs.len() && rs[m] == t;
                                            assert(rs.push(tid)[m] == t);
                                        }
                                        if rs.push(tid).contains(t) {
                                            let m = choose|m: int|
                                                0 <= m < rs.push(tid).len() && rs.push(tid)[m]
                                                    == t;
                                            assert(m < rs.len());
                                        }
                                    }
                                }
                            }
                        }
                    }
                }
                true
            },
            Option::None => {
                let ghost pre = self.entries@;
                let mut readers: Vec<i32> = Vec::new();
                readers.push(tid);
                self.entries.push(SiteLock { site, readers, writer: Option::None });
                proof {
                    let cur = self.entries@;
                    assert(cur =~= pre.push(cur[pre.len() as int]));
                    assert(cur[pre.len() as int].readers@ =~= seq![tid]);
                    assert(cur[pre.len() as int].readers@[0] == tid);
                    assert(cur[pre.len() as int].readers@.contains(tid));
                    Self::lemma_push_frame(pre, cur, self, old(self));
                    assert forall|t: i32, s: u64|
                        !(t == tid && s == site) implies #[trigger] final(self).reads(t, s) == old(
                        self,
                    ).reads(t, s) by {
                        if s == site {
                            assert(!old(self).reads(t, s));
                            assert(final(self).reads(t, s) == cur[
                                pre.len() as int
                            ].readers@.contains(t));
                            if t != tid {
                                assert(!cur[pre.len() as int].readers@.contains(t)) by {
                                    if cur[pre.len() as int].readers@.contains(t) {
                                        let m = choose|m: int|
                                            0 <= m < 1 && seq![tid][m] == t;
                                        assert(false);
                                    }
                                }
                            }
                        }
                    }
                }
                true
            },
        }
    }

    /// Release the read side of `site` for `tid`.  Returns whether `tid`
    /// held it; afterwards it does not, and nothing else changes.
    pub fn try_read_unlock(&mut self, tid: i32, site: u64) -> (b: bool)
        requires
            old(self).wf(),
        ensures
            final(self).wf(),
            b == old(self).reads(tid, site),
            !final(self).reads(tid, site),
            forall|t: i32, s: u64|
                !(t == tid && s == site) ==> #[trigger] final(self).reads(t, s) == old(self).reads(
                    t,
                    s,
                ),
            forall|t: i32, s: u64| #[trigger] final(self).writes(t, s) == old(self).writes(t, s),
            forall|s: u64| #[trigger] final(self).write_held(s) == old(self).write_held(s),
    {
        let found = self.find_entry(site);
        match found {
            Option::Some(i) => {
                let ghost pre = self.entries@;
                let mut e = self.entries.remove(i);
                let ghost rs = e.readers@;
                let ghost esite = e.site;
                let ghost ewriter = e.writer;
                let mut b = false;
                let mut k: usize = 0;
                while k < e.readers.len()
                    invariant_except_break
                        k <= e.readers@.len(),
                        e.readers@ == rs,
                        e.site == esite,
                        e.writer == ewriter,
                        b == false,
                        forall|m: int| 0 <= m < k ==> rs[m] != tid,
                    ensures
                        b == rs.contains(tid),
                        e.site == esite,
                        e.writer == ewriter,
                        b ==> distinct(rs) ==> !e.readers@.contains(tid),
                        !b ==> e.readers@ == rs,
                        e.readers@.len() <= rs.len(),
                        distinct(rs) ==> distinct(e.readers@),
                        forall|t: i32|
                            t != tid ==> #[trigger] e.readers@.contains(t) == rs.contains(t),
                    decreases e.readers@.len() - k,
                {
                    if e.readers[k] == tid {
                        e.readers.remove(k);
                        b = true;
                        proof {
                            assert(rs[k as int] == tid);
                            assert(rs.contains(tid));
                            assert(e.readers@ == rs.remove(k as int));
                            if distinct(rs) {
                                assert forall|m: int|
                                    0 <= m < e.readers@.len() implies e.readers@[m] != tid by {
                                    if m < k {
                                        assert(e.readers@[m] == rs[m]);
                                    } else {
                                        assert(e.readers@[m] == rs[m + 1]);
                                    }
                                }
                                if e.readers@.contains(tid) {
                                    let m = choose|m: int|
                                        0 <= m < e.readers@.len() && e.readers@[m] == tid;
                                    assert(false);
                                }
                                assert forall|m: int, n: int|
                                    0 <= m < n < e.readers@.len() implies e.readers@[m]
                                    != e.readers@[n] by {
                                    let am = if m < k {
                                        m
                                    } else {
                                        m + 1
                                    };
                                    let an = if n < k {
                                        n
                                    } else {
                                        n + 1
                                    };
                                    assert(e.readers@[m] == rs[am]);
                                    assert(e.readers@[n] == rs[an]);
                                }
                            }
                            assert forall|t: i32|
                                t != tid implies #[trigger] e.readers@.contains(t) == rs.contains(
                                t,
                            ) by {
                                if e.readers@.contains(t) {
                                    let m = choose|m: int|
                                        0 <= m < e.readers@.len() && e.readers@[m] == t;
                                    if m < k {
                                        assert(rs[m] == t);
                                    } else {
                                        assert(rs[m + 1] == t);
                                    }
                                }
                                if rs.contains(t) {
                                    let m = choose|m: int| 0 <= m < rs.len() && rs[m] == t;
                                    if m < k {
                                        assert(e.readers@[m] == t);
                                    } else {
                                        assert(m != k);
                                        assert(e.readers@[m - 1] == t);
                                    }
                                }
                            }
                        }
                        break ;
                    }
                    k = k + 1;
                }
                proof {
                    if !b {
                        if rs.contains(tid) {
                            let m = choose|m: int| 0 <= m < rs.len() && rs[m] == tid;
                            assert(false);
                        }
                    }
                }
                let ghost esnap = e;
                self.entries.insert(i, e);
                proof {
                    let cur = self.entries@;
                    assert(cur[i as int] == esnap);
                    assert(cur =~= pre.update(i as int, esnap));
                    assert(!cur[i as int].readers@.contains(tid));
                    Self::lemma_update_frame(pre, cur, i as int, self, old(self));
                    assert(pre =~= pre.update(i as int, pre[i as int]));
                    Self::lemma_update_frame(pre, pre, i as int, old(self), old(self));
                }
                b
            },
            Option::None => {
                proof {
                    if old(self).reads(tid, site) {
                        let j = choose|j: int|
                            0 <= j < old(self).entries@.len() && (
                            #[trigger] old(self).entries@[j]).site == site && old(
                                self,
                            ).entries@[j].readers@.contains(tid);
                        assert(false);
                    }
                }
                false
            },
        }
    }

    /// Acquire the write side of `site` for `tid`.  Succeeds exactly when
    /// no thread holds the site for read or for write — the acquirer must
    /// first have released its own read.  On success `tid` holds the write
    /// side, and nothing else changes.
    pub fn try_write_lock(&mut self, tid: i32, site: u64) -> (b: bool)
        requires
            old(self).wf(),
        ensures
            final(self).wf(),
            b == (!old(self).read_held(site) && !old(self).write_held(site)),
            b ==> final(self).writes(tid, site),
            !b ==> *final(self) == *old(self),
            forall|t: i32, s: u64| #[trigger] final(self).reads(t, s) == old(self).reads(t, s),
            forall|t: i32, s: u64|
                !(t == tid && s == site) ==> #[trigger] final(self).writes(t, s) == old(
                    self,
                ).writes(t, s),
    {
        let found = self.find_entry(site);
        match found {
            Option::Some(i) => {
                proof {
                    if old(self).write_held(site) {
                        let j = choose|j: int|
                            0 <= j < old(self).entries@.len() && (
                            #[trigger] old(self).entries@[j]).site == site && old(
                                self,
                            ).entries@[j].writer is Some;
                        if j != i {
                            if j < i {
                                assert(old(self).entries@[j].site != old(self).entries@[i as int].site);
                            } else {
                                assert(old(self).entries@[i as int].site != old(self).entries@[j].site);
                            }
                        }
                    }
                    if old(self).read_held(site) {
                        let j = choose|j: int|
                            0 <= j < old(self).entries@.len() && (
                            #[trigger] old(self).entries@[j]).site == site && old(
                                self,
                            ).entries@[j].readers@.len() > 0;
                        if j != i {
                            if j < i {
                                assert(old(self).entries@[j].site != old(self).entries@[i as int].site);
                            } else {
                                assert(old(self).entries@[i as int].site != old(self).entries@[j].site);
                            }
                        }
                    }
                }
                if self.entries[i].writer.is_some() || self.entries[i].readers.len() > 0 {
                    proof {
                        if old(self).entries@[i as int].writer is Some {
                            assert(old(self).write_held(site));
                        } else {
                            assert(old(self).read_held(site));
                        }
                    }
                    return false;
                }
                let ghost pre = self.entries@;
                let mut e = self.entries.remove(i);
                e.writer = Option::Some(tid);
                let ghost esnap = e;
                self.entries.insert(i, e);
                proof {
                    let cur = self.entries@;
                    assert(cur[i as int] == esnap);
                    assert(cur =~= pre.update(i as int, esnap));
                    Self::lemma_update_frame(pre, cur, i as int, self, old(self));
                    assert(pre =~= pre.update(i as int, pre[i as int]));
                    Self::lemma_update_frame(pre, pre, i as int, old(self), old(self));
                }
                true
            },
            Option::None => {
                proof {
                    if old(self).read_held(site) {
                        let j = choose|j: int|
                            0 <= j < old(self).entries@.len() && (
                            #[trigger] old(self).entries@[j]).site == site && old(
                                self,
                            ).entries@[j].readers@.len() > 0;
                        assert(false);
                    }
                    if old(self).write_held(site) {
                        let j = choose|j: int|
                            0 <= j < old(self).entries@.len() && (
                            #[trigger] old(self).entries@[j]).site == site && old(
                                self,
                            ).entries@[j].writer is Some;
                        assert(false);
                    }
                }
                let ghost pre = self.entries@;
                self.entries.push(
                    SiteLock { site, readers: Vec::new(), writer: Option::Some(tid) },
                );
                proof {
                    let cur = self.entries@;
                    assert(cur =~= pre.push(cur[pre.len() as int]));
                    Self::lemma_push_frame(pre, cur, self, old(self));
                }
                true
            },
        }
    }

    /// Release the write side of `site` held by `tid`.  Returns whether
    /// `tid` held it; afterwards it does not, and nothing else changes.
    pub fn try_write_unlock(&mut self, tid: i32, site: u64) -> (b: bool)
        requires
            old(self).wf(),
        ensures
            final(self).wf(),
            b == old(self).writes(tid, site),
            !final(self).writes(tid, site),
            forall|t: i32, s: u64| #[trigger] final(self).reads(t, s) == old(self).reads(t, s),
            forall|t: i32, s: u64|
                !(t == tid && s == site) ==> #[trigger] final(self).writes(t, s) == old(
                    self,
                ).writes(t, s),
    {
        let found = self.find_entry(site);
        match found {
            Option::Some(i) => {
                proof {
                    if old(self).writes(tid, site) {
                        let j = choose|j: int|
                            0 <= j < old(self).entries@.len() && (
                            #[trigger] old(self).entries@[j]).site == site && old(
                                self,
                            ).entries@[j].writer == Option::Some(tid);
                        if j != i {
                            if j < i {
                                assert(old(self).entries@[j].site != old(self).entries@[i as int].site);
                            } else {
                                assert(old(self).entries@[i as int].site != old(self).entries@[j].site);
                            }
                        }
                    }
                }
                let held = match self.entries[i].writer {
                    Option::Some(t) => t == tid,
                    Option::None => false,
                };
                if held {
                    let ghost pre = self.entries@;
                    let mut e = self.entries.remove(i);
                    e.writer = Option::None;
                    let ghost esnap = e;
                    self.entries.insert(i, e);
                    proof {
                        let cur = self.entries@;
                        assert(cur[i as int] == esnap);
                        assert(cur =~= pre.update(i as int, esnap));
                        Self::lemma_update_frame(pre, cur, i as int, self, old(self));
                        assert(pre =~= pre.update(i as int, pre[i as int]));
                        Self::lemma_update_frame(pre, pre, i as int, old(self), old(self));
                    }
                    true
                } else {
                    proof {
                        assert(!old(self).writes(tid, site));
                        if self.writes(tid, site) {
                            let j = choose|j: int|
                                0 <= j < self.entries@.len() && (
                                #[trigger] self.entries@[j]).site == site && self.entries@[j].writer
                                    == Option::Some(tid);
                            if j != i {
                                if j < i {
                                    assert(self.entries@[j].site != self.entries@[i as int].site);
                                } else {
                                    assert(self.entries@[i as int].site != self.entries@[j].site);
                                }
                            }
                        }
                    }
                    false
                }
            },
            Option::None => {
                proof {
                    if old(self).writes(tid, site) {
                        let j = choose|j: int|
                            0 <= j < old(self).entries@.len() && (
                            #[trigger] old(self).entries@[j]).site == site && old(
                                self,
                            ).entries@[j].writer == Option::Some(tid);
                        assert(false);
                    }
                }
                false
            },
        }
    }
}

} // verus!
