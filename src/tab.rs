//! The tab navigator: the current and parent directory views, the cache of
//! other visited views, the back stack, and the directory change over them.

use vstd::prelude::*;
use crate::url::{parent_url, Url, UrlView};

verus! {

/// A directory view as a value: where it is and which entry it selects.
pub struct FolderView {
    pub cwd: UrlView,
    pub cursor: nat,
}

/// The view of `u` as it is first built: nothing moved yet.
pub open spec fn fresh_folder(u: UrlView) -> FolderView {
    FolderView { cwd: u, cursor: 0 }
}

/// The browsing state of one visited directory.
pub struct Folder {
    cwd: Url,
    cursor: usize,
}

impl View for Folder {
    type V = FolderView;

    closed spec fn view(&self) -> FolderView {
        FolderView { cwd: self.cwd@, cursor: self.cursor as nat }
    }
}

impl Folder {
    /// A new view of `cwd`.
    pub fn new(cwd: Url) -> (r: Folder)
        ensures
            r@ == fresh_folder(cwd@),
    {
        Folder { cwd, cursor: 0 }
    }

    /// Where this view is.
    pub fn cwd(&self) -> (r: &Url)
        ensures
            r@ == self@.cwd,
    {
        &self.cwd
    }

    /// The selected entry.
    pub fn cursor(&self) -> (r: usize)
        ensures
            r == self@.cursor,
    {
        self.cursor
    }
}

/// The cache as a map from path to view; a later entry wins over an earlier one.
pub open spec fn cache_map(s: Seq<Folder>) -> Map<Seq<char>, FolderView>
    decreases s.len(),
{
    if s.len() == 0 {
        Map::empty()
    } else {
        cache_map(s.drop_last()).insert(s.last()@.cwd.path, s.last()@)
    }
}

/// No two cached views are of the same path.
pub open spec fn keys_unique(s: Seq<Folder>) -> bool {
    forall|i: int, j: int|
        0 <= i < j < s.len() ==> (#[trigger] s[i])@.cwd.path != (#[trigger] s[j])@.cwd.path
}

/// With distinct paths, the map holds exactly the views of the sequence.
pub proof fn lemma_cache_map(s: Seq<Folder>)
    requires
        keys_unique(s),
    ensures
        forall|i: int|
            0 <= i < s.len() ==> #[trigger] cache_map(s).contains_key(s[i]@.cwd.path)
                && cache_map(s)[s[i]@.cwd.path] == s[i]@,
        forall|k: Seq<char>|
            #[trigger] cache_map(s).contains_key(k) ==> exists|i: int|
                0 <= i < s.len() && (#[trigger] s[i])@.cwd.path == k,
    decreases s.len(),
{
    if s.len() > 0 {
        let t = s.drop_last();
        assert(cache_map(s) == cache_map(t).insert(s.last()@.cwd.path, s.last()@));
        assert forall|i: int, j: int| 0 <= i < j < t.len() implies (#[trigger] t[i])@.cwd.path
            != (#[trigger] t[j])@.cwd.path by {
            assert(t[i] == s[i] && t[j] == s[j]);
        }
        lemma_cache_map(t);
        assert forall|i: int| 0 <= i < s.len() implies #[trigger] cache_map(s).contains_key(
            s[i]@.cwd.path,
        ) && cache_map(s)[s[i]@.cwd.path] == s[i]@ by {
            if i < s.len() - 1 {
                assert(t[i] == s[i]);
                assert(s[i]@.cwd.path != s[s.len() - 1]@.cwd.path);
                assert(cache_map(t).contains_key(t[i]@.cwd.path));
            }
        }
        assert forall|k: Seq<char>| #[trigger] cache_map(s).contains_key(k) implies exists|i: int|
            0 <= i < s.len() && (#[trigger] s[i])@.cwd.path == k by {
            if k != s.last()@.cwd.path {
                let i = choose|i: int| 0 <= i < t.len() && (#[trigger] t[i])@.cwd.path == k;
                assert(s[i] == t[i]);
            } else {
                assert(s[s.len() - 1] == s.last());
            }
        }
    }
}

/// Takes the view of `u`'s path out of the cache.
fn take_folder(h: &mut Vec<Folder>, u: &Url) -> (r: Option<Folder>)
    requires
        keys_unique(old(h)@),
    ensures
        keys_unique(final(h)@),
        cache_map(final(h)@) == cache_map(old(h)@).remove(u@.path),
        match r {
            Some(f) => cache_map(old(h)@).contains_key(u@.path) && f@ == cache_map(
                old(h)@,
            )[u@.path] && f@.cwd.path == u@.path,
            None => !cache_map(old(h)@).contains_key(u@.path),
        },
{
    proof {
        lemma_cache_map(h@);
    }
    let mut i: usize = 0;
    while i < h.len()
        invariant
            i <= h@.len(),
            h@ == old(h)@,
            keys_unique(h@),
            forall|j: int| 0 <= j < i ==> (#[trigger] h@[j])@.cwd.path != u@.path,
        decreases h.len() - i,
    {
        if h[i].cwd.same_place(u) {
            let ghost s = h@;
            let f = h.remove(i);
            proof {
                let n = h@;
                lemma_cache_map(s);
                assert(n =~= s.remove(i as int));
                assert forall|a: int, b: int| 0 <= a < b < n.len() implies (#[trigger] n[a])@.cwd.path
                    != (#[trigger] n[b])@.cwd.path by {
                    let a2 = if a < i { a } else { a + 1 };
                    let b2 = if b < i { b } else { b + 1 };
                    assert(n[a] == s[a2] && n[b] == s[b2]);
                    assert(s[a2]@.cwd.path != s[b2]@.cwd.path);
                }
                lemma_cache_map(n);
                let m = cache_map(s).remove(u@.path);
                assert forall|k: Seq<char>| #[trigger] cache_map(n).contains_key(k) implies m.contains_key(k)
                    && cache_map(n)[k] == m[k] by {
                    let j = choose|j: int| 0 <= j < n.len() && (#[trigger] n[j])@.cwd.path == k;
                    let j2 = if j < i { j } else { j + 1 };
                    assert(n[j] == s[j2]);
                    assert(s[i as int]@.cwd.path == u@.path);
                    if j2 < i {
                        assert(s[j2]@.cwd.path != s[i as int]@.cwd.path);
                    } else {
                        assert(s[i as int]@.cwd.path != s[j2]@.cwd.path);
                    }
                    assert(cache_map(s).contains_key(s[j2]@.cwd.path));
                    assert(cache_map(n).contains_key(n[j]@.cwd.path));
                }
                assert forall|k: Seq<char>| #[trigger] m.contains_key(k) implies cache_map(n).contains_key(k) by {
                    let j = choose|j: int| 0 <= j < s.len() && (#[trigger] s[j])@.cwd.path == k;
                    if j < i {
                        assert(n[j] == s[j]);
                    } else {
                        assert(n[j - 1] == s[j]);
                    }
                }
                assert(cache_map(n) =~= m);
                assert(s[i as int]@.cwd.path == u@.path);
                assert(cache_map(s).contains_key(s[i as int]@.cwd.path));
            }
            return Some(f);
        }
        i = i + 1;
    }
    proof {
        lemma_cache_map(h@);
        if cache_map(h@).contains_key(u@.path) {
            let j = choose|j: int| 0 <= j < h@.len() && (#[trigger] h@[j])@.cwd.path == u@.path;
            assert(false);
        }
        assert(cache_map(h@) =~= cache_map(h@).remove(u@.path));
    }
    None
}

/// Stores `f` in the cache under its path, in place of any view held there.
fn put_folder(h: &mut Vec<Folder>, f: Folder)
    requires
        keys_unique(old(h)@),
    ensures
        keys_unique(final(h)@),
        cache_map(final(h)@) == cache_map(old(h)@).insert(f@.cwd.path, f@),
{
    let key = f.cwd.duplicate();
    let _ = take_folder(h, &key);
    let ghost s = h@;
    h.push(f);
    proof {
        lemma_cache_map(s);
        assert(h@.drop_last() =~= s);
        assert forall|a: int, b: int| 0 <= a < b < h@.len() implies (#[trigger] h@[a])@.cwd.path
            != (#[trigger] h@[b])@.cwd.path by {
            if b == h@.len() - 1 {
                assert(h@[a] == s[a]);
                assert(cache_map(s).contains_key(s[a]@.cwd.path));
            } else {
                assert(h@[a] == s[a] && h@[b] == s[b]);
            }
        }
        assert(cache_map(h@) =~= cache_map(s).insert(f@.cwd.path, f@));
    }
}

/// The navigator as a value.
pub struct TabView {
    pub current: FolderView,
    pub parent: Option<FolderView>,
    pub history: Map<Seq<char>, FolderView>,
    pub backstack: Seq<UrlView>,
}

/// What a directory change reports: whether the navigator moved, the entry
/// to highlight, and the directory whose listing should show that entry.
pub struct CdView {
    pub changed: bool,
    pub hover: Option<UrlView>,
    pub reveal: Option<UrlView>,
}

/// The cached view of `u`, or a new one.
pub open spec fn fetch(h: Map<Seq<char>, FolderView>, u: UrlView) -> FolderView {
    if h.contains_key(u.path) {
        h[u.path]
    } else {
        fresh_folder(u)
    }
}

/// The cache with `f` kept in it when its location is regular.
pub open spec fn stash(h: Map<Seq<char>, FolderView>, f: FolderView) -> Map<Seq<char>, FolderView> {
    if f.cwd.regular {
        h.insert(f.cwd.path, f)
    } else {
        h
    }
}

/// The place whose view sits beside that of `u`: its parent, unless that
/// would be the same place.
pub open spec fn parent_slot(u: UrlView) -> Option<UrlView> {
    match parent_url(u) {
        Some(p) => if p.path != u.path {
            Some(p)
        } else {
            None
        },
        None => None,
    }
}

/// The navigator after it moves into `dest`, a place other than the current one.
pub open spec fn enter(t: TabView, dest: UrlView) -> TabView {
    let h1 = match t.parent {
        Some(p) => stash(t.history, p),
        None => t.history,
    };
    let h2 = stash(h1.remove(dest.path), t.current);
    TabView {
        current: fetch(h1, dest),
        parent: match parent_slot(dest) {
            Some(pu) => Some(fetch(h2, pu)),
            None => None,
        },
        history: match parent_slot(dest) {
            Some(pu) => h2.remove(pu.path),
            None => h2,
        },
        backstack: if dest.regular {
            t.backstack.push(dest)
        } else {
            t.backstack
        },
    }
}

/// Where a change to `target` leads, given what a stat of it found (`None`
/// when it failed): the target itself when it is a directory, its parent
/// when it is not.
pub open spec fn destination(target: UrlView, is_dir: Option<bool>) -> Option<UrlView> {
    match is_dir {
        None => None,
        Some(d) => if d {
            Some(target)
        } else {
            parent_url(target)
        },
    }
}

/// The navigator and the report after arriving at `dest`, with `hover` the
/// entry to highlight there, if any.
pub open spec fn arrive(t: TabView, dest: UrlView, hover: Option<UrlView>) -> (TabView, CdView) {
    let reveal = if hover is Some {
        Some(dest)
    } else {
        None
    };
    if dest.path == t.current.cwd.path {
        (t, CdView { changed: false, hover, reveal })
    } else {
        (enter(t, dest), CdView { changed: true, hover, reveal })
    }
}

/// The navigator and the report after a change to `target`.
pub open spec fn cd_next(t: TabView, target: UrlView, is_dir: Option<bool>) -> (TabView, CdView) {
    match destination(target, is_dir) {
        None => (t, CdView { changed: false, hover: None, reveal: None }),
        Some(d) => arrive(
            t,
            d,
            if is_dir == Some(false) {
                Some(target)
            } else {
                None
            },
        ),
    }
}

/// The report of a directory change.
pub struct CdOutcome {
    /// Whether the navigator moved.
    pub changed: bool,
    /// The entry to highlight once its directory is shown.
    pub hover: Option<Url>,
    /// The directory whose listing should include the hovered entry.
    pub reveal: Option<Url>,
}

/// The value of an optional location.
pub open spec fn opt_url(o: Option<Url>) -> Option<UrlView> {
    match o {
        Some(u) => Some(u@),
        None => None,
    }
}

impl View for CdOutcome {
    type V = CdView;

    open spec fn view(&self) -> CdView {
        CdView { changed: self.changed, hover: opt_url(self.hover), reveal: opt_url(self.reveal) }
    }
}

/// The navigator of one tab.
pub struct Tab {
    current: Folder,
    parent: Option<Folder>,
    history: Vec<Folder>,
    backstack: Vec<Url>,
}

/// The value of an optional view.
pub open spec fn opt_folder(o: Option<Folder>) -> Option<FolderView> {
    match o {
        Some(f) => Some(f@),
        None => None,
    }
}

impl View for Tab {
    type V = TabView;

    closed spec fn view(&self) -> TabView {
        TabView {
            current: self.current@,
            parent: opt_folder(self.parent),
            history: cache_map(self.history@),
            backstack: self.backstack@.map_values(|u: Url| u@),
        }
    }
}

impl Tab {
    /// The cache holds one view per path, all of regular places, and
    /// neither the current view's path nor the parent view's, which differ:
    /// no place has two live views.
    pub closed spec fn wf(&self) -> bool {
        &&& keys_unique(self.history@)
        &&& forall|k: Seq<char>| #[trigger]
            cache_map(self.history@).contains_key(k) ==> cache_map(self.history@)[k].cwd.regular
        &&& !cache_map(self.history@).contains_key(self.current@.cwd.path)
        &&& match self.parent {
            Some(p) => !cache_map(self.history@).contains_key(p@.cwd.path) && p@.cwd.path
                != self.current@.cwd.path,
            None => true,
        }
    }

    /// A navigator showing `cwd`, with a view of its parent when it has one,
    /// an empty cache, and `cwd` on the back stack when it is regular.
    pub fn new(cwd: Url) -> (r: Tab)
        ensures
            r.wf(),
            r@.current == fresh_folder(cwd@),
            r@.parent == match parent_slot(cwd@) {
                Some(p) => Some(fresh_folder(p)),
                None => None,
            },
            r@.history == Map::<Seq<char>, FolderView>::empty(),
            r@.backstack == (if cwd@.regular {
                seq![cwd@]
            } else {
                Seq::empty()
            }),
    {
        let parent = match cwd.parent_url() {
            Some(p) => if p.same_place(&cwd) {
                None
            } else {
                Some(Folder::new(p))
            },
            None => None,
        };
        let mut backstack: Vec<Url> = Vec::new();
        if cwd.is_regular() {
            backstack.push(cwd.duplicate());
        }
        let r = Tab { current: Folder::new(cwd), parent, history: Vec::new(), backstack };
        proof {
            assert(r.history@ =~= Seq::<Folder>::empty());
            assert(r@.backstack =~= (if cwd@.regular {
                seq![cwd@]
            } else {
                Seq::empty()
            }));
        }
        r
    }

    /// Changes directory to `target`. `is_dir` is what a stat of `target`
    /// found: `None` when the stat failed, and then nothing happens. A target
    /// that is not a directory leads to its parent, and is reported as the
    /// entry to hover and to reveal there. When that place is already the
    /// current one nothing moves. Otherwise the parent view goes to the cache
    /// (when regular), the current view comes from the cache or is built, the
    /// old current view goes to the cache (when regular), the new parent view
    /// comes from the cache or is built, and a regular destination is pushed
    /// on the back stack.
    pub fn cd(&mut self, target: Url, is_dir: Option<bool>) -> (r: CdOutcome)
        requires
            old(self).wf(),
        ensures
            final(self).wf(),
            (final(self)@, r@) == cd_next(old(self)@, target@, is_dir),
    {
        let (dest, hover) = match is_dir {
            None => {
                return CdOutcome { changed: false, hover: None, reveal: None };
            },
            Some(d) => {
                if d {
                    (target, None)
                } else {
                    match target.parent_url() {
                        Some(p) => (p, Some(target)),
                        None => {
                            return CdOutcome { changed: false, hover: None, reveal: None };
                        },
                    }
                }
            },
        };
        self.arrive(dest, hover)
    }

    /// Arrives at the directory `dest`, with `hover` the entry to highlight
    /// there (reported, with `dest` as the listing to reveal it in). When
    /// `dest` is the current place nothing moves; otherwise the views move as
    /// `cd` describes.
    pub fn arrive(&mut self, dest: Url, hover: Option<Url>) -> (r: CdOutcome)
        requires
            old(self).wf(),
        ensures
            final(self).wf(),
            (final(self)@, r@) == arrive(old(self)@, dest@, opt_url(hover)),
    {
        let reveal = match &hover {
            Some(_) => Some(dest.duplicate()),
            None => None,
        };
        if dest.same_place(&self.current.cwd) {
            return CdOutcome { changed: false, hover, reveal };
        }
        self.enter(dest);
        CdOutcome { changed: true, hover, reveal }
    }

    /// Moves into `dest`, a place other than the current one.
    fn enter(&mut self, dest: Url)
        requires
            old(self).wf(),
            dest@.path != old(self)@.current.cwd.path,
        ensures
            final(self).wf(),
            final(self)@ == enter(old(self)@, dest@),
    {
        let ghost t = self@;
        if let Some(p) = self.parent.take() {
            if p.cwd.is_regular() {
                put_folder(&mut self.history, p);
            }
        }
        let ghost h1 = cache_map(self.history@);
        assert(h1 == match t.parent {
            Some(p) => stash(t.history, p),
            None => t.history,
        });
        let cur = match take_folder(&mut self.history, &dest) {
            Some(f) => f,
            None => Folder::new(dest.duplicate()),
        };
        let mut old_cur = cur;
        std::mem::swap(&mut self.current, &mut old_cur);
        if old_cur.cwd.is_regular() {
            put_folder(&mut self.history, old_cur);
        }
        let ghost h2 = cache_map(self.history@);
        match dest.parent_url() {
            Some(pu) => {
                if !pu.same_place(&dest) {
                    let pf = match take_folder(&mut self.history, &pu) {
                        Some(f) => f,
                        None => Folder::new(pu),
                    };
                    self.parent = Some(pf);
                }
            },
            None => {},
        }
        if dest.is_regular() {
            self.backstack.push(dest);
        }
        proof {
            assert(self@.backstack =~= (if dest@.regular {
                t.backstack.push(dest@)
            } else {
                t.backstack
            }));
            assert(self@ == enter(t, dest@));
            assert(!h2.contains_key(dest@.path));
        }
    }

    /// The current view.
    pub fn current(&self) -> (r: &Folder)
        ensures
            r@ == self@.current,
    {
        &self.current
    }

    /// The parent view, if the current place has a parent.
    pub fn parent(&self) -> (r: &Option<Folder>)
        ensures
            opt_folder(*r) == self@.parent,
    {
        &self.parent
    }

    /// The back stack, oldest first.
    pub fn backstack(&self) -> (r: &Vec<Url>)
        ensures
            r@.map_values(|u: Url| u@) == self@.backstack,
    {
        &self.backstack
    }

    /// The cached view of `u`'s path, if any.
    pub fn cached(&self, u: &Url) -> (r: Option<&Folder>)
        requires
            self.wf(),
        ensures
            match r {
                Some(f) => self@.history.contains_key(u@.path) && f@ == self@.history[u@.path],
                None => !self@.history.contains_key(u@.path),
            },
    {
        proof {
            lemma_cache_map(self.history@);
        }
        let mut i: usize = 0;
        while i < self.history.len()
            invariant
                i <= self.history@.len(),
                keys_unique(self.history@),
                forall|j: int| 0 <= j < i ==> (#[trigger] self.history@[j])@.cwd.path != u@.path,
            decreases self.history.len() - i,
        {
            if self.history[i].cwd.same_place(u) {
                proof {
                    lemma_cache_map(self.history@);
                }
                assert(cache_map(self.history@).contains_key(self.history@[i as int]@.cwd.path));
                return Some(&self.history[i]);
            }
            i = i + 1;
        }
        proof {
            if cache_map(self.history@).contains_key(u@.path) {
                let j = choose|j: int|
                    0 <= j < self.history@.len() && (#[trigger] self.history@[j])@.cwd.path == u@.path;
                assert(false);
            }
        }
        None
    }

    /// Selects entry `n` of the current view.
    pub fn set_cursor(&mut self, n: usize)
        requires
            old(self).wf(),
        ensures
            final(self).wf(),
            final(self)@ == (TabView {
                current: FolderView { cursor: n as nat, ..old(self)@.current },
                ..old(self)@
            }),
    {
        self.current.cursor = n;
    }
}

/// What holds of every well-formed navigator: each cached view sits under
/// its own path and is of a regular place, the current and parent views are
/// not cached, and they are of different places.
pub open spec fn valid(t: TabView) -> bool {
    &&& forall|k: Seq<char>| #[trigger]
        t.history.contains_key(k) ==> t.history[k].cwd.path == k && t.history[k].cwd.regular
    &&& !t.history.contains_key(t.current.cwd.path)
    &&& match t.parent {
        Some(p) => !t.history.contains_key(p.cwd.path) && p.cwd.path != t.current.cwd.path,
        None => true,
    }
}

/// A well-formed navigator is valid as a value.
pub proof fn lemma_wf_valid(tab: Tab)
    requires
        tab.wf(),
    ensures
        valid(tab@),
{
    lemma_cache_map(tab.history@);
    assert forall|k: Seq<char>| #[trigger] tab@.history.contains_key(k) implies tab@.history[k].cwd.path
        == k && tab@.history[k].cwd.regular by {
        let i = choose|i: int| 0 <= i < tab.history@.len() && (#[trigger] tab.history@[i])@.cwd.path == k;
    }
}

/// Changing to the place already shown (found to be a directory, or with a
/// failed stat) changes nothing and reports no move, and a second such change
/// does the same.
pub proof fn lemma_cd_here_is_noop(t: TabView, target: UrlView, is_dir: Option<bool>)
    requires
        target.path == t.current.cwd.path,
        is_dir != Some(false),
    ensures
        cd_next(t, target, is_dir).0 == t,
        !cd_next(t, target, is_dir).1.changed,
        cd_next(cd_next(t, target, is_dir).0, target, is_dir).0 == t,
        !cd_next(cd_next(t, target, is_dir).0, target, is_dir).1.changed,
{
}

/// Leaving a regular directory for another one and coming straight back
/// finds the very view that was left, selection included, not a new one.
pub proof fn lemma_cache_reuse(t: TabView, away: UrlView)
    requires
        valid(t),
        t.current.cwd.regular,
        away.path != t.current.cwd.path,
    ensures
        cd_next(cd_next(t, away, Some(true)).0, t.current.cwd, Some(true)).0.current == t.current,
        cd_next(cd_next(t, away, Some(true)).0, t.current.cwd, Some(true)).1.changed,
{
    let here = t.current.cwd;
    let h1 = match t.parent {
        Some(p) => stash(t.history, p),
        None => t.history,
    };
    assert forall|k: Seq<char>| #[trigger] h1.contains_key(k) implies h1[k].cwd.path == k by {}
    let h2 = stash(h1.remove(away.path), t.current);
    assert forall|k: Seq<char>| #[trigger] h2.contains_key(k) implies h2[k].cwd.path == k by {}
    let t1 = enter(t, away);
    assert(t1.current.cwd.path == away.path);
    assert(cd_next(t, away, Some(true)).0 == t1);
    match parent_slot(away) {
        Some(pu) => {
            assert(fetch(h2, pu).cwd.path == pu.path);
            if pu.path == here.path {
                assert(t1.parent == Some(t.current));
            } else {
                assert(t1.history.contains_key(here.path));
            }
        },
        None => {},
    }
}

/// A change pushes its destination on the back stack, once, exactly when it
/// moves the navigator to a regular place; any other change leaves the back
/// stack as it was.
pub proof fn lemma_backstack_regular(t: TabView, target: UrlView, is_dir: Option<bool>)
    ensures
        !(cd_next(t, target, is_dir).1.changed && target.regular) ==> cd_next(
            t,
            target,
            is_dir,
        ).0.backstack == t.backstack,
        cd_next(t, target, is_dir).1.changed && target.regular ==> cd_next(
            t,
            target,
            is_dir,
        ).0.backstack == t.backstack.push(destination(target, is_dir)->0) && destination(
            target,
            is_dir,
        )->0.regular,
{
}

/// A move to another place keeps the view that was current in the cache,
/// unchanged, when its place is regular, and keeps no view of that place in
/// the cache otherwise; unless that place becomes the new parent view.
pub proof fn lemma_leaving_caches_current(t: TabView, target: UrlView, is_dir: Option<bool>)
    requires
        valid(t),
        destination(target, is_dir) is Some,
        destination(target, is_dir)->0.path != t.current.cwd.path,
        !(parent_slot(destination(target, is_dir)->0) is Some && parent_slot(
            destination(target, is_dir)->0,
        )->0.path == t.current.cwd.path),
    ensures
        t.current.cwd.regular ==> cd_next(t, target, is_dir).0.history.contains_key(
            t.current.cwd.path,
        ) && cd_next(t, target, is_dir).0.history[t.current.cwd.path] == t.current,
        !t.current.cwd.regular ==> !cd_next(t, target, is_dir).0.history.contains_key(
            t.current.cwd.path,
        ),
{
}

} // verus!
