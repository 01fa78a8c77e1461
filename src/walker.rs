//! The bounded depth-first walk of a share, as a state machine: the walk
//! decides, its driver performs the I/O and reports back.

use vstd::prelude::*;
use crate::record::{
    DirItem, EntryFacts, ResourceEntry, item_record, item_record_ok, share_record, share_record_ok,
};

verus! {

/// One directory of the walk that is still open: the listing level it stands
/// at, the records it may still produce, the records it has produced, its
/// listing, and the index in it of the entry being handled.
pub struct Frame {
    depth: usize,
    limit: usize,
    count: usize,
    items: Vec<DirItem>,
    next: usize,
}

/// What a [`Frame`] holds, as mathematical values.
pub struct FrameView {
    pub depth: nat,
    pub limit: nat,
    pub count: nat,
    pub items: Seq<DirItem>,
    pub next: nat,
}

impl View for Frame {
    type V = FrameView;

    closed spec fn view(&self) -> FrameView {
        FrameView {
            depth: self.depth as nat,
            limit: self.limit as nat,
            count: self.count as nat,
            items: self.items@,
            next: self.next as nat,
        }
    }
}

/// Whether an open directory has an entry left to inspect and quota left
/// for it.
pub open spec fn ready(f: FrameView) -> bool {
    f.next < f.items.len() && f.count < f.limit
}

/// A directory after one of its subdirectories, which produced the records
/// of `child`, was closed: it has them too, and moves past that entry.
pub open spec fn merged(parent: FrameView, child: FrameView) -> FrameView {
    FrameView { count: parent.count + child.count, next: parent.next + 1, ..parent }
}

/// The open directories once the one on top is closed into the one below.
pub open spec fn close_once(s: Seq<FrameView>) -> Seq<FrameView> {
    s.drop_last().drop_last().push(merged(s[s.len() - 2], s.last()))
}

/// The open directories once every finished one on top is closed: none when
/// the share root itself is finished.
pub open spec fn settle(s: Seq<FrameView>) -> Seq<FrameView>
    decreases s.len(),
{
    if s.len() == 0 || ready(s.last()) {
        s
    } else if s.len() == 1 {
        Seq::empty()
    } else {
        settle(close_once(s))
    }
}

/// The quota as a number: the largest `usize` when unset.
pub open spec fn quota_of(max_entries: Option<usize>) -> nat {
    match max_entries {
        Some(m) => m as nat,
        None => usize::MAX as nat,
    }
}

/// The frame of the share root, once its own record is counted.
pub open spec fn root_frame(max_entries: Option<usize>, root_count: nat) -> FrameView {
    FrameView {
        depth: 0,
        limit: quota_of(max_entries),
        count: root_count,
        items: Seq::empty(),
        next: 0,
    }
}

/// An open directory once the entry it stands at has been inspected, with
/// one more record when its metadata was read.
pub open spec fn counted(f: FrameView, found: bool) -> FrameView {
    FrameView { count: f.count + (if found { 1nat } else { 0nat }), ..f }
}

/// Whether the walk descends into the entry it has just inspected: a
/// directory, in a directory above the depth limit, with quota left.
pub open spec fn descends(s: Seq<FrameView>, found: bool, max_depth: nat) -> bool {
    let top = counted(s.last(), found);
    &&& top.items[top.next as int].is_dir
    &&& top.depth < max_depth
    &&& top.count < top.limit
}

/// The open directories after the entry on top has been inspected: the
/// directory it names is opened, or the walk moves past it.
pub open spec fn after_inspection(s: Seq<FrameView>, found: bool, max_depth: nat) -> Seq<FrameView> {
    let top = counted(s.last(), found);
    if descends(s, found, max_depth) {
        s.drop_last().push(top).push(
            FrameView {
                depth: top.depth + 1,
                limit: (top.limit - top.count) as nat,
                count: 0,
                items: Seq::empty(),
                next: 0,
            },
        )
    } else {
        settle(s.drop_last().push(FrameView { next: top.next + 1, ..top }))
    }
}

/// The open directories once the one on top has received its listing.
pub open spec fn with_listing(s: Seq<FrameView>, items: Seq<DirItem>) -> Seq<FrameView> {
    s.drop_last().push(FrameView { items, next: 0, ..s.last() })
}

/// What the walk waits for.
#[derive(Clone, Copy, Debug, PartialEq, Eq, Structural)]
pub enum Phase {
    /// The facts of the share root.
    Root,
    /// The listing of the directory on top of the walk.
    Listing,
    /// The facts of the entry the walk stands at.
    Facts,
    /// Nothing: the share is done.
    Finished,
}

/// What the driver of the walk does next.
pub enum Action {
    /// List the directory at `path` and hand the result to [`Walker::listed`].
    List { path: String },
    /// Read the metadata and security descriptor of `path` and hand them to
    /// [`Walker::inspected`].
    Inspect { path: String },
    /// The share is done; `total` records were emitted, the root included.
    Finished { total: usize },
}

/// A depth-first walk of one share under a depth limit and an entry quota.
///
/// The share root is listed at level 0, the directories it holds at level 1,
/// and so on; no directory deeper than `max_depth` is listed. The root's own
/// record, emitted whenever its metadata can be read, counts toward the
/// quota: with a quota of `m` the walk emits at most `m` records in all, or
/// the root's alone when `m` is 0. An unset quota behaves as the largest
/// `usize`. A directory whose listing fails contributes no records, and the
/// walk goes on with its siblings.
pub struct Walker {
    root: String,
    max_depth: usize,
    max_entries: Option<usize>,
    stack: Vec<Frame>,
    phase: Phase,
    root_count: usize,
    emitted: usize,
}

/// The records produced by the first `k` open directories.
spec fn prefix(s: Seq<Frame>, k: int) -> int
    decreases k,
{
    if k <= 0 {
        0
    } else {
        prefix(s, k - 1) + s[k - 1].count
    }
}

proof fn lemma_empty_listing(s: Seq<FrameView>)
    requires
        s.len() >= 1,
    ensures
        settle(with_listing(s, Seq::empty())) == (if s.len() == 1 {
            Seq::<FrameView>::empty()
        } else {
            settle(close_once(s))
        }),
{
    let w = with_listing(s, Seq::empty());
    assert(!ready(w.last()));
    if s.len() >= 2 {
        assert(close_once(w) =~= close_once(s));
    }
}

proof fn lemma_prefix_same(s: Seq<Frame>, t: Seq<Frame>, k: int)
    requires
        0 <= k <= s.len(),
        k <= t.len(),
        forall|i: int| 0 <= i < k ==> s[i].count == t[i].count,
    ensures
        prefix(s, k) == prefix(t, k),
    decreases k,
{
    if k > 0 {
        lemma_prefix_same(s, t, k - 1);
    }
}

impl Walker {
    /// The quota as a number: the largest `usize` when unset.
    pub closed spec fn quota(self) -> usize {
        quota_of(self.max_entries) as usize
    }

    pub closed spec fn spec_phase(self) -> Phase {
        self.phase
    }

    pub closed spec fn spec_max_depth(self) -> usize {
        self.max_depth
    }

    pub closed spec fn spec_max_entries(self) -> Option<usize> {
        self.max_entries
    }

    pub closed spec fn spec_root(self) -> Seq<char> {
        self.root@
    }

    /// The open directories, from the share root up.
    pub closed spec fn spec_frames(self) -> Seq<FrameView> {
        self.stack@.map_values(|f: Frame| f@)
    }

    /// Records emitted below the share root so far.
    pub closed spec fn spec_emitted(self) -> nat {
        self.emitted as nat
    }

    /// Whether the share root's record was emitted.
    pub closed spec fn spec_root_emitted(self) -> bool {
        self.root_count == 1
    }

    /// The listing level of the directory on top of the walk; the entry the
    /// walk waits facts for lies one level below it.
    pub closed spec fn spec_level(self) -> nat {
        (self.stack@.len() - 1) as nat
    }

    /// The entry the walk waits facts for.
    pub closed spec fn spec_pending(self) -> DirItem {
        let top = self.stack@.last();
        top.items@[top.next as int]
    }

    /// The entry that follows, in its directory's listing, the directory on
    /// top of the walk, when that directory is not the share root.
    pub closed spec fn spec_next_sibling(self) -> Option<DirItem> {
        let s = self.stack@;
        if s.len() >= 2 && s[s.len() - 2].next + 1 < s[s.len() - 2].items@.len() {
            Some(s[s.len() - 2].items@[s[s.len() - 2].next + 1])
        } else {
            None
        }
    }

    /// The open directories are consistent: each stands at its own level,
    /// each has produced no more than it was allowed, and each one's allowance
    /// is what the quota leaves after the records of the directories below it.
    closed spec fn frames_ok(self) -> bool {
        let s = self.stack@;
        &&& s.len() >= 1
        &&& s.len() <= self.max_depth + 1
        &&& forall|i: int| 0 <= i < s.len() ==> #[trigger] s[i].depth == i
        &&& forall|i: int| 0 <= i < s.len() ==> prefix(s, i) + #[trigger] s[i].limit == self.quota()
        &&& forall|i: int| 0 <= i < s.len() ==> #[trigger] s[i].count <= s[i].limit
        &&& forall|i: int| 0 <= i < s.len() - 1 ==> #[trigger] s[i].next < s[i].items@.len()
        &&& s.last().next <= s.last().items@.len()
        &&& prefix(s, s.len() as int) == self.root_count + self.emitted
    }

    /// The walk's invariant.
    pub closed spec fn wf(self) -> bool {
        &&& self.root_count <= 1
        &&& (self.emitted + self.root_count <= self.quota() || self.emitted == 0)
        &&& match self.phase {
            Phase::Root => self.stack@.len() == 0 && self.emitted == 0 && self.root_count == 0,
            Phase::Finished => self.stack@.len() == 0,
            Phase::Listing => {
                &&& self.frames_ok()
                &&& self.stack@.last().items@.len() == 0
                &&& self.stack@.last().count < self.stack@.last().limit
            },
            Phase::Facts => {
                &&& self.frames_ok()
                &&& self.stack@.last().next < self.stack@.last().items@.len()
                &&& self.stack@.last().count < self.stack@.last().limit
            },
        }
    }

    /// A walk of the share at `root` that waits for the root's facts.
    pub fn new(root: String, max_depth: usize, max_entries: Option<usize>) -> (r: Walker)
        ensures
            r.wf(),
            r.spec_phase() == Phase::Root,
            r.spec_root() == root@,
            r.spec_max_depth() == max_depth,
            r.spec_max_entries() == max_entries,
            r.spec_emitted() == 0,
            !r.spec_root_emitted(),
    {
        Walker {
            root,
            max_depth,
            max_entries,
            stack: Vec::new(),
            phase: Phase::Root,
            root_count: 0,
            emitted: 0,
        }
    }

    /// What the walk waits for.
    pub fn phase(&self) -> (r: Phase)
        ensures
            r == self.spec_phase(),
    {
        self.phase
    }

    /// The listing level of the directory the walk works in, while it waits
    /// for a listing or for an entry's facts.
    pub fn level(&self) -> (r: usize)
        requires
            self.wf(),
            self.spec_phase() == Phase::Listing || self.spec_phase() == Phase::Facts,
        ensures
            r == self.spec_level(),
    {
        self.stack.len() - 1
    }

    fn quota_value(&self) -> (r: usize)
        ensures
            r == self.quota(),
    {
        match self.max_entries {
            Some(m) => m,
            None => usize::MAX,
        }
    }

    /// Closes the directory on top of the walk and hands its records to the
    /// one below, which moves past the entry that led to it; returns the total
    /// when the closed directory was the share root.
    fn close_top(&mut self) -> (r: Option<usize>)
        requires
            old(self).frames_ok(),
            old(self).root_count <= 1,
        ensures
            final(self).emitted == old(self).emitted,
            final(self).root_count == old(self).root_count,
            final(self).max_depth == old(self).max_depth,
            final(self).max_entries == old(self).max_entries,
            final(self).root == old(self).root,
            final(self).phase == old(self).phase,
            final(self).stack@.len() == old(self).stack@.len() - 1,
            old(self).emitted + old(self).root_count <= old(self).quota(),
            r is Some <==> old(self).stack@.len() == 1,
            r is Some ==> r->0 == old(self).root_count + old(self).emitted,
            r is None ==> final(self).frames_ok(),
            r is None ==> final(self).stack@.last().items == old(self).stack@[old(self).stack@.len()
                - 2].items,
            r is None ==> final(self).stack@.last().next == old(self).stack@[old(self).stack@.len()
                - 2].next + 1,
            r is None ==> final(self).stack@.last().count == old(self).stack@[old(self).stack@.len()
                - 2].count + old(self).stack@.last().count,
            r is None ==> final(self).stack@.last().limit == old(self).stack@[old(self).stack@.len()
                - 2].limit,
            r is Some ==> final(self).spec_frames().len() == 0,
            r is None ==> final(self).spec_frames() == close_once(old(self).spec_frames()),
    {
        let top = self.stack.len() - 1;
        let ghost s = self.stack@;
        let done = self.stack.pop().unwrap();
        proof {
            assert(prefix(s, s.len() as int) == prefix(s, top as int) + s[top as int].count);
            assert(prefix(s, top as int) + s[top as int].limit == self.quota());
        }
        if self.stack.len() == 0 {
            proof {
                assert(prefix(s, 0) == 0);
                assert(self.spec_frames() =~= Seq::<FrameView>::empty());
            }
            return Some(done.count);
        }
        let mut parent = self.stack.pop().unwrap();
        proof {
            let p = (top - 1) as int;
            assert(s[p] == parent);
            assert(s[p].next < s[p].items@.len());
            assert(prefix(s, top as int) == prefix(s, p) + parent.count);
        }
        parent.count = parent.count + done.count;
        let listed_len = parent.items.len();
        proof {
            assert(parent.next < listed_len);
        }
        parent.next = parent.next + 1;
        self.stack.push(parent);
        proof {
            let t = self.stack@;
            let p = (top - 1) as int;
            assert(t.len() == top);
            assert forall|i: int| 0 <= i < p implies t[i] == s[i] by {}
            lemma_prefix_same(s, t, p);
            assert(prefix(t, t.len() as int) == prefix(t, p) + t[p].count);
            assert forall|i: int| 0 <= i < t.len() implies prefix(t, i) + #[trigger] t[i].limit
                == self.quota() by {
                lemma_prefix_same(s, t, i);
                if i < p {
                    assert(t[i] == s[i]);
                }
            }
            assert forall|i: int| 0 <= i < t.len() implies #[trigger] t[i].depth == i by {
                if i < p {
                    assert(t[i] == s[i]);
                }
            }
            assert forall|i: int| 0 <= i < t.len() implies #[trigger] t[i].count <= t[i].limit by {
                if i < p {
                    assert(t[i] == s[i]);
                }
            }
            assert forall|i: int| 0 <= i < t.len() - 1 implies #[trigger] t[i].next
                < t[i].items@.len() by {
                assert(t[i] == s[i]);
            }
        }
        None
    }

    /// Whether the directory on top of the walk has an entry left to inspect
    /// and quota left for it.
    closed spec fn top_ready(self) -> bool {
        &&& self.stack@.last().next < self.stack@.last().items@.len()
        &&& self.stack@.last().count < self.stack@.last().limit
    }

    /// Closes finished directories, handing each one's records to the one
    /// below, until an entry is left to inspect or the share is done.
    fn advance(&mut self) -> (r: Action)
        requires
            old(self).frames_ok(),
            old(self).root_count <= 1,
        ensures
            final(self).wf(),
            final(self).emitted == old(self).emitted,
            final(self).root_count == old(self).root_count,
            final(self).max_depth == old(self).max_depth,
            final(self).max_entries == old(self).max_entries,
            final(self).root == old(self).root,
            final(self).phase == Phase::Facts || final(self).phase == Phase::Finished,
            final(self).phase == Phase::Facts ==> r is Inspect && r->Inspect_path@
                == final(self).spec_pending().full_path@,
            final(self).phase == Phase::Finished ==> r is Finished && r->Finished_total
                == final(self).root_count + final(self).emitted,
            old(self).top_ready() ==> final(self).stack@ == old(self).stack@ && final(self).phase
                == Phase::Facts,
            final(self).spec_frames() == settle(old(self).spec_frames()),
    {
        let ghost mut first = true;
        loop
            invariant
                self.frames_ok(),
                self.root_count <= 1,
                self.emitted == old(self).emitted,
                self.root_count == old(self).root_count,
                self.max_depth == old(self).max_depth,
                self.max_entries == old(self).max_entries,
                self.root == old(self).root,
                first ==> self.stack@ == old(self).stack@,
                !first ==> !old(self).top_ready(),
                settle(self.spec_frames()) == settle(old(self).spec_frames()),
            decreases self.stack@.len(),
        {
            let top = self.stack.len() - 1;
            if self.stack[top].next < self.stack[top].items.len() && self.stack[top].count
                < self.stack[top].limit {
                self.phase = Phase::Facts;
                let path = self.stack[top].items[self.stack[top].next].full_path.clone();
                proof {
                    let s = self.stack@;
                    assert(prefix(s, s.len() as int) == prefix(s, top as int) + s[top as int].count);
                    assert(prefix(s, top as int) + s[top as int].limit == self.quota());
                    assert(self.spec_frames().last() == s.last()@);
                    assert(ready(self.spec_frames().last()));
                }
                return Action::Inspect { path };
            }
            proof {
                if first {
                    assert(!old(self).top_ready());
                }
                assert(self.spec_frames().last() == self.stack@.last()@);
                assert(!ready(self.spec_frames().last()));
            }
            match self.close_top() {
                Some(total) => {
                    self.phase = Phase::Finished;
                    return Action::Finished { total };
                },
                None => {},
            }
            proof {
                first = false;
            }
        }
    }

    /// Takes the facts of the share root (`None` when its metadata could not
    /// be read). The root's record is emitted whenever its facts were read,
    /// whatever the depth limit.
    pub fn root_inspected(&mut self, facts: Option<EntryFacts>) -> (r: (
        Option<ResourceEntry>,
        Action,
    ))
        requires
            old(self).wf(),
            old(self).spec_phase() == Phase::Root,
        ensures
            final(self).wf(),
            final(self).spec_max_depth() == old(self).spec_max_depth(),
            final(self).spec_max_entries() == old(self).spec_max_entries(),
            final(self).spec_root() == old(self).spec_root(),
            final(self).spec_emitted() == 0,
            final(self).spec_root_emitted() == (facts is Some),
            match facts {
                Some(f) => r.0 is Some && share_record_ok(old(self).spec_root(), f, r.0->0),
                None => r.0 is None,
            },
            final(self).spec_phase() == Phase::Listing || final(self).spec_phase()
                == Phase::Finished,
            final(self).spec_phase() == Phase::Listing ==> r.1 is List && r.1->List_path@
                == old(self).spec_root(),
            final(self).spec_frames() == (if (if facts is Some {
                1nat
            } else {
                0nat
            }) >= quota_of(old(self).spec_max_entries()) {
                Seq::empty()
            } else {
                seq![root_frame(old(self).spec_max_entries(), if facts is Some {
                    1nat
                } else {
                    0nat
                })]
            }),
            final(self).spec_phase() == (if final(self).spec_frames().len() == 0 {
                Phase::Finished
            } else {
                Phase::Listing
            }),
            final(self).spec_phase() == Phase::Finished ==> r.1 is Finished && r.1->Finished_total
                == (if facts is Some {
                1usize
            } else {
                0
            }),
    {
        let record = match &facts {
            Some(f) => {
                self.root_count = 1;
                Some(share_record(self.root.as_str(), f))
            },
            None => None,
        };
        let quota = self.quota_value();
        if self.root_count >= quota {
            self.phase = Phase::Finished;
            proof {
                assert(self.spec_frames() =~= Seq::<FrameView>::empty());
            }
            return (record, Action::Finished { total: self.root_count });
        }
        let frame = Frame {
            depth: 0,
            limit: quota,
            count: self.root_count,
            items: Vec::new(),
            next: 0,
        };
        self.stack.push(frame);
        self.phase = Phase::Listing;
        proof {
            let s = self.stack@;
            assert(prefix(s, 0) == 0);
            assert(prefix(s, 1) == s[0].count);
            assert(self.spec_frames() =~= seq![s[0]@]);
        }
        (record, Action::List { path: self.root.clone() })
    }

    /// Takes the listing of the directory on top of the walk (`None` when it
    /// could not be read: the directory then yields nothing and the walk goes
    /// on with what follows it).
    pub fn listed(&mut self, items: Option<Vec<DirItem>>) -> (r: Action)
        requires
            old(self).wf(),
            old(self).spec_phase() == Phase::Listing,
        ensures
            final(self).wf(),
            final(self).spec_max_depth() == old(self).spec_max_depth(),
            final(self).spec_max_entries() == old(self).spec_max_entries(),
            final(self).spec_root() == old(self).spec_root(),
            final(self).spec_emitted() == old(self).spec_emitted(),
            final(self).spec_root_emitted() == old(self).spec_root_emitted(),
            final(self).spec_phase() == Phase::Facts || final(self).spec_phase()
                == Phase::Finished,
            final(self).spec_phase() == Phase::Facts ==> r is Inspect && r->Inspect_path@
                == final(self).spec_pending().full_path@,
            final(self).spec_phase() == Phase::Finished ==> r is Finished && r->Finished_total
                == (if final(self).spec_root_emitted() {
                1nat
            } else {
                0nat
            }) + final(self).spec_emitted(),
            final(self).spec_frames() == settle(
                with_listing(
                    old(self).spec_frames(),
                    match items {
                        Some(v) => v@,
                        None => Seq::empty(),
                    },
                ),
            ),
            final(self).spec_phase() == (if final(self).spec_frames().len() == 0 {
                Phase::Finished
            } else {
                Phase::Facts
            }),
            items is None ==> match old(self).spec_next_sibling() {
                Some(sibling) => final(self).spec_phase() == Phase::Facts
                    && final(self).spec_pending() == sibling,
                None => true,
            },
    {
        let v = match items {
            Some(v) => v,
            None => {
                proof {
                    let s = self.stack@;
                    let k = s.len() - 1;
                    if s.len() >= 2 {
                        assert(prefix(s, k) == prefix(s, k - 1) + s[k - 1].count);
                        assert(prefix(s, k - 1) + s[k - 1].limit == self.quota());
                        assert(prefix(s, k) + s[k].limit == self.quota());
                    }
                    lemma_empty_listing(self.spec_frames());
                }
                return match self.close_top() {
                    Some(total) => {
                        self.phase = Phase::Finished;
                        Action::Finished { total }
                    },
                    None => self.advance(),
                };
            },
        };
        let ghost s = self.stack@;
        let ghost listing = v@;
        let mut top = self.stack.pop().unwrap();
        top.items = v;
        top.next = 0;
        self.stack.push(top);
        proof {
            let t = self.stack@;
            let k = (t.len() - 1) as int;
            let of = s.map_values(|f: Frame| f@);
            assert(of.last() == s.last()@);
            assert(self.spec_frames() =~= with_listing(of, listing));
            assert forall|i: int| 0 <= i < t.len() implies #[trigger] t[i].count == s[i].count by {
                if i < k {
                    assert(t[i] == s[i]);
                }
            }
            lemma_prefix_same(s, t, t.len() as int);
            assert forall|i: int| 0 <= i < t.len() implies prefix(t, i) + #[trigger] t[i].limit
                == self.quota() by {
                lemma_prefix_same(s, t, i);
                if i < k {
                    assert(t[i] == s[i]);
                }
            }
            assert forall|i: int| 0 <= i < t.len() implies #[trigger] t[i].depth == i by {
                if i < k {
                    assert(t[i] == s[i]);
                }
            }
            assert forall|i: int| 0 <= i < t.len() implies #[trigger] t[i].count <= t[i].limit by {
                if i < k {
                    assert(t[i] == s[i]);
                }
            }
            assert forall|i: int| 0 <= i < t.len() - 1 implies #[trigger] t[i].next
                < t[i].items@.len() by {
                assert(t[i] == s[i]);
            }
        }
        self.advance()
    }

    /// Takes the facts of the entry the walk stands at (`None` when its
    /// metadata could not be read: no record, and the entry counts for
    /// nothing). A directory entry is then listed when it stands no deeper than
    /// the depth limit and quota is left.
    pub fn inspected(&mut self, facts: Option<EntryFacts>) -> (r: (Option<ResourceEntry>, Action))
        requires
            old(self).wf(),
            old(self).spec_phase() == Phase::Facts,
        ensures
            final(self).wf(),
            final(self).spec_max_depth() == old(self).spec_max_depth(),
            final(self).spec_max_entries() == old(self).spec_max_entries(),
            final(self).spec_root() == old(self).spec_root(),
            final(self).spec_root_emitted() == old(self).spec_root_emitted(),
            old(self).spec_level() <= old(self).spec_max_depth(),
            match facts {
                Some(f) => r.0 is Some && item_record_ok(old(self).spec_pending(), f, r.0->0)
                    && final(self).spec_emitted() == old(self).spec_emitted() + 1,
                None => r.0 is None && final(self).spec_emitted() == old(self).spec_emitted(),
            },
            final(self).spec_phase() != Phase::Root,
            final(self).spec_frames() == after_inspection(
                old(self).spec_frames(),
                facts is Some,
                old(self).spec_max_depth() as nat,
            ),
            final(self).spec_phase() == (if descends(
                old(self).spec_frames(),
                facts is Some,
                old(self).spec_max_depth() as nat,
            ) {
                Phase::Listing
            } else if final(self).spec_frames().len() == 0 {
                Phase::Finished
            } else {
                Phase::Facts
            }),
            final(self).spec_phase() == Phase::Listing ==> r.1 is List && r.1->List_path@
                == old(self).spec_pending().full_path@ && old(self).spec_pending().is_dir
                && final(self).spec_level() == old(self).spec_level() + 1,
            final(self).spec_phase() == Phase::Facts ==> r.1 is Inspect && r.1->Inspect_path@
                == final(self).spec_pending().full_path@,
            final(self).spec_phase() == Phase::Finished ==> r.1 is Finished && r.1->Finished_total
                == (if final(self).spec_root_emitted() {
                1nat
            } else {
                0nat
            }) + final(self).spec_emitted(),
    {
        let ghost s = self.stack@;
        let ghost k = s.len() - 1;
        let ghost of = self.spec_frames();
        proof {
            assert(of.last() == s.last()@);
        }
        let mut f = self.stack.pop().unwrap();
        proof {
            assert(s[k] == f);
            assert(prefix(s, s.len() as int) == prefix(s, k) + f.count);
            assert(prefix(s, k) + s[k].limit == self.quota());
            assert(s[k].depth == k);
        }
        let idx = f.next;
        let record = match &facts {
            Some(x) => Some(item_record(&f.items[idx], x)),
            None => None,
        };
        if facts.is_some() {
            f.count = f.count + 1;
            self.emitted = self.emitted + 1;
        }
        let is_dir = f.items[idx].is_dir;
        let listed_len = f.items.len();
        if is_dir && f.depth < self.max_depth && f.count < f.limit {
            let path = f.items[idx].full_path.clone();
            let child = Frame {
                depth: f.depth + 1,
                limit: f.limit - f.count,
                count: 0,
                items: Vec::new(),
                next: 0,
            };
            let ghost fv = f@;
            let ghost cv = child@;
            self.stack.push(f);
            self.stack.push(child);
            self.phase = Phase::Listing;
            proof {
                assert(fv == counted(of.last(), facts is Some));
                assert(descends(of, facts is Some, self.max_depth as nat));
                assert(self.spec_frames() =~= of.drop_last().push(fv).push(cv));
                let t = self.stack@;
                assert(t.len() == s.len() + 1);
                assert forall|i: int| 0 <= i < k implies t[i] == s[i] by {}
                lemma_prefix_same(s, t, k);
                assert(prefix(t, k + 1) == prefix(t, k) + t[k].count);
                assert(prefix(t, k + 2) == prefix(t, k + 1) + t[k + 1].count);
                assert forall|i: int| 0 <= i < t.len() implies prefix(t, i) + #[trigger] t[i].limit
                    == self.quota() by {
                    if i < k {
                        lemma_prefix_same(s, t, i);
                        assert(t[i] == s[i]);
                    }
                }
                assert forall|i: int| 0 <= i < t.len() implies #[trigger] t[i].depth == i by {
                    if i < k {
                        assert(t[i] == s[i]);
                    }
                }
                assert forall|i: int| 0 <= i < t.len() implies #[trigger] t[i].count <= t[i].limit by {
                    if i < k {
                        assert(t[i] == s[i]);
                    }
                }
                assert forall|i: int| 0 <= i < t.len() - 1 implies #[trigger] t[i].next
                    < t[i].items@.len() by {
                    if i < k {
                        assert(t[i] == s[i]);
                    }
                }
            }
            return (record, Action::List { path });
        }
        proof {
            assert(!descends(of, facts is Some, self.max_depth as nat));
        }
        f.next = f.next + 1;
        let ghost fv = f@;
        self.stack.push(f);
        proof {
            assert(fv == FrameView {
                next: counted(of.last(), facts is Some).next + 1,
                ..counted(of.last(), facts is Some)
            });
            assert(self.spec_frames() =~= of.drop_last().push(fv));
            let t = self.stack@;
            assert(t.len() == s.len());
            assert forall|i: int| 0 <= i < k implies t[i] == s[i] by {}
            lemma_prefix_same(s, t, k);
            assert(prefix(t, k + 1) == prefix(t, k) + t[k].count);
            assert forall|i: int| 0 <= i < t.len() implies prefix(t, i) + #[trigger] t[i].limit
                == self.quota() by {
                if i < k {
                    lemma_prefix_same(s, t, i);
                    assert(t[i] == s[i]);
                }
            }
            assert forall|i: int| 0 <= i < t.len() implies #[trigger] t[i].depth == i by {
                if i < k {
                    assert(t[i] == s[i]);
                }
            }
            assert forall|i: int| 0 <= i < t.len() implies #[trigger] t[i].count <= t[i].limit by {
                if i < k {
                    assert(t[i] == s[i]);
                }
            }
            assert forall|i: int| 0 <= i < t.len() - 1 implies #[trigger] t[i].next
                < t[i].items@.len() by {
                assert(t[i] == s[i]);
            }
        }
        let next = self.advance();
        (record, next)
    }
}

/// Depth bound: while the walk waits for a listing or for an entry's facts,
/// the directory it works in stands at most `max_depth` levels below the share
/// root, so no emitted entry lies more than `max_depth + 1` levels below it.
pub proof fn depth_bound(w: Walker)
    requires
        w.wf(),
        w.spec_phase() == Phase::Listing || w.spec_phase() == Phase::Facts,
    ensures
        w.spec_level() <= w.spec_max_depth(),
{
}

/// Entry-count bound: at every point of the walk, the records emitted below
/// the share root number at most the quota, when one is set.
pub proof fn entry_count_bound(w: Walker)
    requires
        w.wf(),
    ensures
        match w.spec_max_entries() {
            Some(m) => w.spec_emitted() <= m,
            None => true,
        },
{
}

/// A quota of zero: no record is ever emitted below the share root, and the
/// walk never lists or inspects anything.
pub proof fn zero_quota(w: Walker)
    requires
        w.wf(),
        w.spec_max_entries() == Some(0usize),
    ensures
        w.spec_emitted() == 0,
        w.spec_phase() == Phase::Root || w.spec_phase() == Phase::Finished,
{
    if w.spec_phase() == Phase::Listing || w.spec_phase() == Phase::Facts {
        let s = w.stack@;
        assert(prefix(s, 0) + s[0].limit == w.quota());
        assert(s[0].count <= s[0].limit);
        assert(s.last().count < s.last().limit);
        assert(prefix(s, 0) == 0);
        lemma_limits_shrink(s, w.quota(), s.len() - 1);
    }
}

proof fn lemma_limits_shrink(s: Seq<Frame>, quota: usize, i: int)
    requires
        0 <= i < s.len(),
        forall|j: int| 0 <= j < s.len() ==> prefix(s, j) + #[trigger] s[j].limit == quota,
        forall|j: int| 0 <= j < s.len() ==> #[trigger] s[j].count <= s[j].limit,
    ensures
        s[i].limit <= quota,
    decreases i,
{
    if i > 0 {
        lemma_limits_shrink(s, quota, i - 1);
        assert(prefix(s, i) == prefix(s, i - 1) + s[i - 1].count);
        assert(prefix(s, i - 1) + s[i - 1].limit == quota);
        assert(prefix(s, i) + s[i].limit == quota);
    } else {
        assert(prefix(s, 0) == 0);
        assert(prefix(s, 0) + s[0].limit == quota);
    }
}

} // verus!
