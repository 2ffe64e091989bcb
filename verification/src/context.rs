//! The hierarchical substitution context: an immutable stack of key/value
//! frames.  Lookup walks from the innermost frame outwards; each derived
//! scope (request, target, response) adds one frame on top of its parent.

use vstd::prelude::*;

verus! {

/// One frame of the context: a map from variable names to values,
/// with each name bound at most once.
pub struct ContextMap {
    entries: Vec<(String, String)>,
}

/// The pairs of strings in `s`, seen as pairs of character sequences.
pub open spec fn pairs_view(s: Seq<(String, String)>) -> Seq<(Seq<char>, Seq<char>)> {
    Seq::new(s.len(), |i: int| (s[i].0@, s[i].1@))
}

impl View for ContextMap {
    type V = Seq<(Seq<char>, Seq<char>)>;

    closed spec fn view(&self) -> Seq<(Seq<char>, Seq<char>)> {
        pairs_view(self.entries@)
    }
}

/// The innermost binding of `key` in a single frame.
pub open spec fn frame_lookup(frame: Seq<(Seq<char>, Seq<char>)>, key: Seq<char>) -> Option<
    Seq<char>,
>
    decreases frame.len(),
{
    if frame.len() == 0 {
        None
    } else if frame[0].0 == key {
        Some(frame[0].1)
    } else {
        frame_lookup(frame.drop_first(), key)
    }
}

pub open spec fn frame_contains(frame: Seq<(Seq<char>, Seq<char>)>, key: Seq<char>) -> bool {
    frame_lookup(frame, key) is Some
}

/// The first position bound to `key`, or `-1`.
pub open spec fn frame_index(frame: Seq<(Seq<char>, Seq<char>)>, key: Seq<char>) -> int
    decreases frame.len(),
{
    if frame.len() == 0 {
        -1
    } else if frame[0].0 == key {
        0
    } else {
        let r = frame_index(frame.drop_first(), key);
        if r < 0 {
            -1
        } else {
            1 + r
        }
    }
}

/// Binding `key` to `value` in a frame: replaces the first binding of
/// `key`, or appends one.
pub open spec fn frame_insert(
    frame: Seq<(Seq<char>, Seq<char>)>,
    key: Seq<char>,
    value: Seq<char>,
) -> Seq<(Seq<char>, Seq<char>)> {
    let i = frame_index(frame, key);
    if i >= 0 {
        frame.update(i, (key, value))
    } else {
        frame.push((key, value))
    }
}

impl ContextMap {
    /// Each name is bound at most once.
    pub open spec fn wf(&self) -> bool {
        forall|i: int, j: int| 0 <= i < j < self@.len() ==> self@[i].0 != self@[j].0
    }

    pub fn new() -> (r: ContextMap)
        ensures
            r@ == Seq::<(Seq<char>, Seq<char>)>::empty(),
            r.wf(),
    {
        ContextMap { entries: Vec::new() }
    }

    pub fn len(&self) -> (r: usize)
        ensures
            r == self@.len(),
    {
        self.entries.len()
    }

    /// Binds `key` to `value`, replacing any earlier binding of `key`.
    pub fn insert(&mut self, key: String, value: String)
        requires
            old(self).wf(),
        ensures
            final(self).wf(),
            final(self)@ == frame_insert(old(self)@, key@, value@),
            forall|k: Seq<char>|
                #[trigger] frame_lookup(final(self)@, k) == if k == key@ {
                    Some(value@)
                } else {
                    frame_lookup(old(self)@, k)
                },
            final(self)@.len() == old(self)@.len() + if frame_contains(old(self)@, key@) {
                0int
            } else {
                1int
            },
    {
        let n = self.entries.len();
        let mut i: usize = 0;
        while i < n
            invariant
                old(self).wf(),
                *self == *old(self),
                n == self@.len(),
                i <= n,
                forall|j: int| 0 <= j < i ==> self@[j].0 != key@,
            decreases n - i,
        {
            if crate::text::str_eq(self.entries[i].0.as_str(), key.as_str()) {
                proof {
                    lemma_frame_lookup_found(self@, key@, i as int);
                    lemma_frame_index_scan(self@, key@, i as int);
                }
                let ghost old_entries = self.entries@;
                self.entries.set(i, (key, value));
                proof {
                    assert(self@ =~= old(self)@.update(i as int, (key@, value@)));
                    assert forall|k: Seq<char>|
                        #[trigger] frame_lookup(self@, k) == if k == key@ {
                            Some(value@)
                        } else {
                            frame_lookup(old(self)@, k)
                        } by {
                        lemma_frame_lookup_update(old(self)@, self@, key@, value@, i as int, k);
                    }
                }
                return ;
            }
            i = i + 1;
        }
        proof {
            lemma_frame_lookup_absent(self@, key@);
            lemma_frame_index_missing(self@, key@);
        }
        self.entries.push((key, value));
        proof {
            assert(self@ =~= old(self)@.push((key@, value@)));
            assert forall|k: Seq<char>|
                #[trigger] frame_lookup(self@, k) == if k == key@ {
                    Some(value@)
                } else {
                    frame_lookup(old(self)@, k)
                } by {
                lemma_frame_lookup_push(old(self)@, key@, value@, k);
            }
        }
    }

    /// The innermost binding of `key` in this frame.
    pub fn get(&self, key: &str) -> (r: Option<&String>)
        ensures
            match r {
                Some(v) => frame_lookup(self@, key@) == Some(v@),
                None => frame_lookup(self@, key@) is None,
            },
    {
        let n = self.entries.len();
        let mut i: usize = 0;
        while i < n
            invariant
                n == self@.len(),
                i <= n,
                forall|j: int| 0 <= j < i ==> self@[j].0 != key@,
            decreases n - i,
        {
            if crate::text::str_eq(self.entries[i].0.as_str(), key) {
                proof {
                    lemma_frame_lookup_found(self@, key@, i as int);
                }
                return Some(&self.entries[i].1);
            }
            i = i + 1;
        }
        proof {
            lemma_frame_lookup_absent(self@, key@);
        }
        None
    }

    /// A copy whose contents equal this frame's.
    pub fn duplicate(&self) -> (r: ContextMap)
        ensures
            r@ == self@,
    {
        let n = self.entries.len();
        let mut out: Vec<(String, String)> = Vec::new();
        let mut i: usize = 0;
        while i < n
            invariant
                n == self@.len(),
                i <= n,
                out@.len() == i,
                forall|j: int| 0 <= j < i ==> pairs_view(out@)[j] == self@[j],
            decreases n - i,
        {
            let k = self.entries[i].0.clone();
            let v = self.entries[i].1.clone();
            out.push((k, v));
            i = i + 1;
        }
        proof {
            assert(pairs_view(out@) =~= self@);
        }
        ContextMap { entries: out }
    }

    /// The entries of this frame, in their stored order.
    pub fn entries_vec(&self) -> (r: Vec<(String, String)>)
        ensures
            pairs_view(r@) == self@,
    {
        self.duplicate().entries
    }
}

/// The innermost binding of `key` in a stack of frames (the last frame is
/// the innermost).
pub open spec fn ctx_lookup(
    frames: Seq<Seq<(Seq<char>, Seq<char>)>>,
    key: Seq<char>,
) -> Option<Seq<char>>
    decreases frames.len(),
{
    if frames.len() == 0 {
        None
    } else {
        match frame_lookup(frames.last(), key) {
            Some(v) => Some(v),
            None => ctx_lookup(frames.drop_last(), key),
        }
    }
}

/// The latest binding of `key` in a list of entries (the last entry wins).
pub open spec fn seq_last_lookup(
    entries: Seq<(Seq<char>, Seq<char>)>,
    key: Seq<char>,
) -> Option<Seq<char>>
    decreases entries.len(),
{
    if entries.len() == 0 {
        None
    } else if entries.last().0 == key {
        Some(entries.last().1)
    } else {
        seq_last_lookup(entries.drop_last(), key)
    }
}

/// What the root frame binds a key to: the admitted environment wins over
/// the two pre-seeded application entries.
pub open spec fn root_lookup(
    env: Seq<(Seq<char>, Seq<char>)>,
    key: Seq<char>,
) -> Option<Seq<char>> {
    match seq_last_lookup(env, key) {
        Some(v) => Some(v),
        None => if key == "CTX_APP_NAME"@ {
            Some("http_dragonfly"@)
        } else if key == "CTX_APP_VERSION"@ {
            Some("0.1.0"@)
        } else {
            None
        },
    }
}

/// All entries of a stack of frames, innermost frame first.
pub open spec fn flatten_frames(frames: Seq<Seq<(Seq<char>, Seq<char>)>>) -> Seq<
    (Seq<char>, Seq<char>),
>
    decreases frames.len(),
{
    if frames.len() == 0 {
        Seq::empty()
    } else {
        frames.last() + flatten_frames(frames.drop_last())
    }
}

/// A source for the root frame's environment entries.
pub trait RootEnvironment {
    fn get_environment(&self) -> ContextMap;
}

/// An immutable stack of frames; derived contexts add frames on top.
pub struct Context {
    frames: Vec<ContextMap>,
}

impl View for Context {
    type V = Seq<Seq<(Seq<char>, Seq<char>)>>;

    closed spec fn view(&self) -> Seq<Seq<(Seq<char>, Seq<char>)>> {
        Seq::new(self.frames@.len(), |i: int| self.frames@[i]@)
    }
}

impl Context {
    /// The root context over the given environment entries: the two
    /// pre-seeded application entries, then the environment (which wins on
    /// a shared key).
    pub fn root_from_environment(env: &ContextMap) -> (ctx: Context)
        ensures
            ctx@.len() == 1,
            forall|k: Seq<char>| #[trigger] frame_lookup(ctx@[0], k) == root_lookup(env@, k),
    {
        let mut own = ContextMap::new();
        own.insert(String::from_str("CTX_APP_NAME"), String::from_str("http_dragonfly"));
        own.insert(String::from_str("CTX_APP_VERSION"), String::from_str("0.1.0"));
        proof {
            reveal_strlit("CTX_APP_NAME");
            reveal_strlit("CTX_APP_VERSION");
            assert("CTX_APP_NAME"@.len() != "CTX_APP_VERSION"@.len());
            assert(env@.subrange(0, 0) =~= Seq::<(Seq<char>, Seq<char>)>::empty());
            assert forall|k: Seq<char>|
                #[trigger] frame_lookup(own@, k) == root_lookup(env@.subrange(0, 0), k) by {
                assert(seq_last_lookup(Seq::<(Seq<char>, Seq<char>)>::empty(), k) is None);
                assert(frame_lookup(Seq::<(Seq<char>, Seq<char>)>::empty(), k) is None);
            }
        }
        let items = env.entries_vec();
        let n = items.len();
        let mut i: usize = 0;
        while i < n
            invariant
                n == env@.len(),
                pairs_view(items@) == env@,
                items@.len() == n,
                i <= n,
                own.wf(),
                forall|k: Seq<char>|
                    #[trigger] frame_lookup(own@, k) == root_lookup(env@.subrange(0, i as int), k),
            decreases n - i,
        {
            let key = items[i].0.clone();
            let value = items[i].1.clone();
            proof {
                assert(env@[i as int] == (items@[i as int].0@, items@[i as int].1@));
            }
            own.insert(key, value);
            proof {
                let ghost pre = env@.subrange(0, i as int);
                let ghost post = env@.subrange(0, i + 1);
                assert(post.drop_last() =~= pre);
                assert(post.last() == env@[i as int]);
            }
            i = i + 1;
        }
        proof {
            assert(env@.subrange(0, n as int) =~= env@);
        }
        let mut frames: Vec<ContextMap> = Vec::new();
        frames.push(own);
        Context { frames }
    }

    /// The root context seeded from an environment source.
    pub fn root(root_env: impl RootEnvironment) -> (ctx: Context)
        ensures
            ctx@.len() == 1,
    {
        let env = root_env.get_environment();
        Context::root_from_environment(&env)
    }

    /// A child context: this context's frames with `own` innermost.
    pub fn with(&self, own: ContextMap) -> (r: Context)
        ensures
            r@ == self@.push(own@),
    {
        let n = self.frames.len();
        let mut frames: Vec<ContextMap> = Vec::new();
        let mut i: usize = 0;
        while i < n
            invariant
                n == self@.len(),
                i <= n,
                frames@.len() == i,
                forall|j: int| 0 <= j < i ==> frames@[j]@ == self@[j],
            decreases n - i,
        {
            frames.push(self.frames[i].duplicate());
            i = i + 1;
        }
        frames.push(own);
        let r = Context { frames };
        proof {
            assert(r@ =~= self@.push(own@));
        }
        r
    }

    /// The innermost binding of `var`, or `None` when no frame binds it.
    pub fn get(&self, var: &String) -> (r: Option<&String>)
        ensures
            match r {
                Some(v) => ctx_lookup(self@, var@) == Some(v@),
                None => ctx_lookup(self@, var@) is None,
            },
    {
        let mut fi = self.frames.len();
        while fi > 0
            invariant
                fi <= self@.len(),
                self@.len() == self.frames@.len(),
                forall|m: int| fi <= m < self@.len() ==> !frame_contains(self@[m], var@),
            decreases fi,
        {
            fi = fi - 1;
            let found = self.frames[fi].get(var.as_str());
            if found.is_some() {
                proof {
                    lemma_ctx_lookup_hit(self@, var@, fi as int);
                }
                return found;
            }
        }
        proof {
            lemma_ctx_lookup_miss(self@, var@);
        }
        None
    }

    /// All entries of this context, innermost frame first.
    pub fn flat_entries(&self) -> (r: Vec<(String, String)>)
        ensures
            pairs_view(r@) == flatten_frames(self@),
    {
        let mut items: Vec<(String, String)> = Vec::new();
        let mut fi = self.frames.len();
        while fi > 0
            invariant
                fi <= self@.len(),
                self@.len() == self.frames@.len(),
                pairs_view(items@) == flatten_suffix(self@, fi as int),
            decreases fi,
        {
            fi = fi - 1;
            append_frame(&mut items, &self.frames[fi]);
            proof {
                lemma_flatten_suffix_step(self@, fi as int);
            }
        }
        proof {
            lemma_flatten_suffix_zero(self@);
        }
        items
    }

    /// An iterator over all entries, innermost frame first.
    pub fn iter(&self) -> (r: ContextIterator)
        ensures
            r.remaining() == flatten_frames(self@),
    {
        ContextIterator { items: self.flat_entries(), pos: 0 }
    }
}

proof fn lemma_pairs_view_push(s: Seq<(String, String)>, p: (String, String))
    ensures
        pairs_view(s.push(p)) == pairs_view(s).push((p.0@, p.1@)),
{
    assert(pairs_view(s.push(p)) =~= pairs_view(s).push((p.0@, p.1@)));
}

/// Appends every entry of `src` to `dst`.
fn append_frame(dst: &mut Vec<(String, String)>, src: &ContextMap)
    ensures
        pairs_view(final(dst)@) == pairs_view(old(dst)@) + src@,
{
    let part = src.entries_vec();
    let m = part.len();
    let mut j: usize = 0;
    while j < m
        invariant
            m == part@.len(),
            j <= m,
            pairs_view(part@) == src@,
            pairs_view(dst@) =~= pairs_view(old(dst)@) + src@.subrange(0, j as int),
        decreases m - j,
    {
        let k = part[j].0.clone();
        let v = part[j].1.clone();
        proof {
            assert(src@[j as int] == (part@[j as int].0@, part@[j as int].1@));
        }
        let ghost pre = dst@;
        dst.push((k, v));
        proof {
            lemma_pairs_view_push(pre, (k, v));
            assert(src@.subrange(0, j + 1) =~= src@.subrange(0, j as int).push(src@[j as int]));
            assert(pairs_view(dst@) =~= pairs_view(old(dst)@) + src@.subrange(0, j + 1));
        }
        j = j + 1;
    }
    proof {
        assert(src@.subrange(0, m as int) =~= src@);
        assert(pairs_view(dst@) =~= pairs_view(old(dst)@) + src@);
    }
}

/// The entries of the frames at positions `fi..`, innermost first.
pub open spec fn flatten_suffix(frames: Seq<Seq<(Seq<char>, Seq<char>)>>, fi: int) -> Seq<
    (Seq<char>, Seq<char>),
>
    decreases frames.len() - fi,
{
    if fi < 0 || fi >= frames.len() {
        Seq::empty()
    } else {
        frames.last() + flatten_suffix(frames.drop_last(), fi)
    }
}

proof fn lemma_flatten_suffix_zero(frames: Seq<Seq<(Seq<char>, Seq<char>)>>)
    ensures
        flatten_suffix(frames, 0) == flatten_frames(frames),
    decreases frames.len(),
{
    if frames.len() > 0 {
        lemma_flatten_suffix_zero(frames.drop_last());
    }
}

proof fn lemma_flatten_suffix_step(frames: Seq<Seq<(Seq<char>, Seq<char>)>>, fi: int)
    requires
        0 <= fi < frames.len(),
    ensures
        flatten_suffix(frames, fi) == flatten_suffix(frames, fi + 1) + frames[fi],
    decreases frames.len(),
{
    if fi == frames.len() - 1 {
        assert(frames.drop_last().len() == fi);
        assert(flatten_suffix(frames.drop_last(), fi) == Seq::<(Seq<char>, Seq<char>)>::empty());
        assert(flatten_suffix(frames, fi + 1) == Seq::<(Seq<char>, Seq<char>)>::empty());
        assert(flatten_suffix(frames, fi) == frames.last() + flatten_suffix(
            frames.drop_last(),
            fi,
        ));
        assert(flatten_suffix(frames, fi) =~= flatten_suffix(frames, fi + 1) + frames[fi]);
    } else {
        lemma_flatten_suffix_step(frames.drop_last(), fi);
        assert(flatten_suffix(frames, fi) == frames.last() + flatten_suffix(
            frames.drop_last(),
            fi,
        ));
        assert(flatten_suffix(frames, fi + 1) == frames.last() + flatten_suffix(
            frames.drop_last(),
            fi + 1,
        ));
        assert(frames.drop_last()[fi] == frames[fi]);
        assert(flatten_suffix(frames, fi) =~= flatten_suffix(frames, fi + 1) + frames[fi]);
    }
}

/// Yields the entries of a context, innermost frame first.
pub struct ContextIterator {
    items: Vec<(String, String)>,
    pos: usize,
}

impl ContextIterator {
    /// The entries not yet yielded.
    pub closed spec fn remaining(&self) -> Seq<(Seq<char>, Seq<char>)> {
        if self.pos as int <= self.items@.len() {
            pairs_view(self.items@).subrange(self.pos as int, self.items@.len() as int)
        } else {
            Seq::empty()
        }
    }

    /// The next entry, or `None` when all have been yielded.
    pub fn next(&mut self) -> (r: Option<(String, String)>)
        ensures
            match r {
                Some(p) => old(self).remaining().len() > 0 && (p.0@, p.1@) == old(
                    self,
                ).remaining()[0] && final(self).remaining() == old(self).remaining().drop_first(),
                None => old(self).remaining().len() == 0 && final(self).remaining() == old(
                    self,
                ).remaining(),
            },
    {
        if self.pos < self.items.len() {
            let k = self.items[self.pos].0.clone();
            let v = self.items[self.pos].1.clone();
            proof {
                assert(pairs_view(self.items@)[self.pos as int] == (self.items@[
                    self.pos as int].0@, self.items@[self.pos as int].1@));
                assert(old(self).remaining()[0] == pairs_view(self.items@)[self.pos as int]);
            }
            self.pos = self.pos + 1;
            proof {
                assert(self.remaining() =~= old(self).remaining().drop_first());
            }
            Some((k, v))
        } else {
            None
        }
    }

    /// How many entries have not been yielded yet.
    pub fn count(&self) -> (r: usize)
        ensures
            r == self.remaining().len(),
    {
        if self.pos >= self.items.len() {
            0
        } else {
            self.items.len() - self.pos
        }
    }
}

proof fn lemma_ctx_lookup_hit(frames: Seq<Seq<(Seq<char>, Seq<char>)>>, key: Seq<char>, fi: int)
    requires
        0 <= fi < frames.len(),
        frame_contains(frames[fi], key),
        forall|m: int| fi < m < frames.len() ==> !frame_contains(frames[m], key),
    ensures
        ctx_lookup(frames, key) == frame_lookup(frames[fi], key),
    decreases frames.len(),
{
    if fi == frames.len() - 1 {
    } else {
        lemma_ctx_lookup_hit(frames.drop_last(), key, fi);
    }
}

proof fn lemma_ctx_lookup_miss(frames: Seq<Seq<(Seq<char>, Seq<char>)>>, key: Seq<char>)
    requires
        forall|m: int| 0 <= m < frames.len() ==> !frame_contains(frames[m], key),
    ensures
        ctx_lookup(frames, key) is None,
    decreases frames.len(),
{
    if frames.len() > 0 {
        lemma_ctx_lookup_miss(frames.drop_last(), key);
    }
}

proof fn lemma_frame_index_scan(frame: Seq<(Seq<char>, Seq<char>)>, key: Seq<char>, i: int)
    requires
        0 <= i < frame.len(),
        frame[i].0 == key,
        forall|j: int| 0 <= j < i ==> frame[j].0 != key,
    ensures
        frame_index(frame, key) == i,
    decreases i,
{
    if i > 0 {
        lemma_frame_index_scan(frame.drop_first(), key, i - 1);
    }
}

proof fn lemma_frame_index_missing(frame: Seq<(Seq<char>, Seq<char>)>, key: Seq<char>)
    requires
        forall|j: int| 0 <= j < frame.len() ==> frame[j].0 != key,
    ensures
        frame_index(frame, key) == -1,
    decreases frame.len(),
{
    if frame.len() > 0 {
        lemma_frame_index_missing(frame.drop_first(), key);
    }
}

proof fn lemma_frame_lookup_found(frame: Seq<(Seq<char>, Seq<char>)>, key: Seq<char>, i: int)
    requires
        0 <= i < frame.len(),
        frame[i].0 == key,
        forall|j: int| 0 <= j < i ==> frame[j].0 != key,
    ensures
        frame_lookup(frame, key) == Some(frame[i].1),
    decreases i,
{
    if i == 0 {
    } else {
        lemma_frame_lookup_found(frame.drop_first(), key, i - 1);
    }
}

proof fn lemma_frame_lookup_absent(frame: Seq<(Seq<char>, Seq<char>)>, key: Seq<char>)
    requires
        forall|j: int| 0 <= j < frame.len() ==> frame[j].0 != key,
    ensures
        frame_lookup(frame, key) is None,
    decreases frame.len(),
{
    if frame.len() > 0 {
        lemma_frame_lookup_absent(frame.drop_first(), key);
    }
}

proof fn lemma_frame_lookup_update(
    before: Seq<(Seq<char>, Seq<char>)>,
    after: Seq<(Seq<char>, Seq<char>)>,
    key: Seq<char>,
    value: Seq<char>,
    i: int,
    k: Seq<char>,
)
    requires
        0 <= i < before.len(),
        after == before.update(i, (key, value)),
        before[i].0 == key,
        forall|j: int| 0 <= j < i ==> before[j].0 != key,
    ensures
        frame_lookup(after, k) == if k == key {
            Some(value)
        } else {
            frame_lookup(before, k)
        },
    decreases i,
{
    if i == 0 {
        assert(after.drop_first() =~= before.drop_first());
    } else {
        assert(after.drop_first() =~= before.drop_first().update(i - 1, (key, value)));
        lemma_frame_lookup_update(
            before.drop_first(),
            after.drop_first(),
            key,
            value,
            i - 1,
            k,
        );
    }
}

proof fn lemma_frame_lookup_push(
    before: Seq<(Seq<char>, Seq<char>)>,
    key: Seq<char>,
    value: Seq<char>,
    k: Seq<char>,
)
    requires
        forall|j: int| 0 <= j < before.len() ==> before[j].0 != key,
    ensures
        frame_lookup(before.push((key, value)), k) == if k == key {
            Some(value)
        } else {
            frame_lookup(before, k)
        },
    decreases before.len(),
{
    if before.len() == 0 {
        assert(before.push((key, value)).drop_first() =~= before);
    } else {
        assert(before.push((key, value)).drop_first() =~= before.drop_first().push((key, value)));
        lemma_frame_lookup_push(before.drop_first(), key, value, k);
    }
}

/// Upper-cases a name and turns `-` into `_`, as context keys derived from
/// header names are written.
pub open spec fn upper_underscore(s: Seq<char>) -> Seq<char> {
    s.map_values(
        |c: char|
            if c == '-' {
                '_'
            } else {
                crate::text::upper_char(c)
            },
    )
}

/// `prefix` followed by the transformed header name.
fn env_key(prefix: &str, name: &str) -> (r: String)
    ensures
        r@ == prefix@ + upper_underscore(name@),
{
    let mut out = String::from_str(prefix);
    let n = name.unicode_len();
    let mut i: usize = 0;
    while i < n
        invariant
            n == name@.len(),
            i <= n,
            out@ =~= prefix@ + upper_underscore(name@.take(i as int)),
        decreases n - i,
    {
        let c = name.get_char(i);
        if c == '-' {
            crate::text::push_char(&mut out, '_');
        } else {
            crate::text::push_char(&mut out, crate::text::to_upper_char(c));
        }
        proof {
            assert(upper_underscore(name@.take(i + 1)) =~= upper_underscore(
                name@.take(i as int),
            ).push(
                if name@[i as int] == '-' {
                    '_'
                } else {
                    crate::text::upper_char(name@[i as int])
                },
            ));
            assert(out@ =~= prefix@ + upper_underscore(name@.take(i + 1)));
        }
        i = i + 1;
    }
    proof {
        assert(name@.take(n as int) =~= name@);
    }
    out
}

/// Inserting one context key per header, derived from the header name.
pub open spec fn insert_ctx_headers(
    f: Seq<(Seq<char>, Seq<char>)>,
    prefix: Seq<char>,
    headers: Seq<(Seq<char>, Seq<char>)>,
) -> Seq<(Seq<char>, Seq<char>)>
    decreases headers.len(),
{
    if headers.len() == 0 {
        f
    } else {
        frame_insert(
            insert_ctx_headers(f, prefix, headers.drop_last()),
            prefix + upper_underscore(headers.last().0),
            headers.last().1,
        )
    }
}

/// The frame of the request scope.
pub open spec fn request_frame(
    listener_name: Seq<char>,
    source_ip: Seq<char>,
    method: Seq<char>,
    path: Seq<char>,
    host: Option<Seq<char>>,
    query: Option<Seq<char>>,
    headers: Seq<(Seq<char>, Seq<char>)>,
) -> Seq<(Seq<char>, Seq<char>)> {
    let f = frame_insert(Seq::empty(), "CTX_LISTENER_NAME"@, listener_name);
    let f = frame_insert(f, "CTX_REQUEST_SOURCE_IP"@, source_ip);
    let f = frame_insert(f, "CTX_REQUEST_METHOD"@, method);
    let f = frame_insert(f, "CTX_REQUEST_PATH"@, path);
    let f = match host {
        Some(h) => frame_insert(f, "CTX_REQUEST_HOST"@, crate::text::lower_chars(h)),
        None => f,
    };
    let f = match query {
        Some(q) => frame_insert(f, "CTX_REQUEST_QUERY"@, crate::text::lower_chars(q)),
        None => f,
    };
    insert_ctx_headers(f, "CTX_REQUEST_HEADERS_"@, headers)
}

/// The frame of the target scope.
pub open spec fn target_frame(id: Seq<char>, host: Seq<char>) -> Seq<(Seq<char>, Seq<char>)> {
    let f = frame_insert(Seq::empty(), "CTX_TARGET_ID"@, id);
    frame_insert(f, "CTX_TARGET_HOST"@, host)
}

/// The frame of the response scope: the status in decimal, and one key per
/// response header.
pub open spec fn response_frame(status: u16, headers: Seq<(Seq<char>, Seq<char>)>) -> Seq<
    (Seq<char>, Seq<char>),
> {
    let f = frame_insert(Seq::empty(), "CTX_RESPONSE_STATUS"@, crate::text::dec_str(status as int));
    insert_ctx_headers(f, "CTX_RESPONSE_HEADERS_"@, headers)
}

impl Context {
    /// The request-scope context: this context with the request frame on
    /// top, carrying the listener name, the request line and the request
    /// headers.  Host and query are stored lower-cased.
    pub fn with_request(
        &self,
        listener_name: String,
        source_ip: String,
        method: String,
        path: String,
        host: Option<String>,
        query: Option<String>,
        headers: &Vec<(String, String)>,
    ) -> (r: Context)
        ensures
            r@ == self@.push(
                request_frame(
                    listener_name@,
                    source_ip@,
                    method@,
                    path@,
                    match host {
                        Some(ref h) => Some(h@),
                        None => None,
                    },
                    match query {
                        Some(ref q) => Some(q@),
                        None => None,
                    },
                    pairs_view(headers@),
                ),
            ),
    {
        let ghost host_v: Option<Seq<char>> = match host {
            Some(ref h) => Some(h@),
            None => None,
        };
        let ghost query_v: Option<Seq<char>> = match query {
            Some(ref q) => Some(q@),
            None => None,
        };
        let mut own = ContextMap::new();
        own.insert(String::from_str("CTX_LISTENER_NAME"), listener_name);
        own.insert(String::from_str("CTX_REQUEST_SOURCE_IP"), source_ip);
        own.insert(String::from_str("CTX_REQUEST_METHOD"), method);
        own.insert(String::from_str("CTX_REQUEST_PATH"), path);
        match host {
            Some(h) => {
                own.insert(
                    String::from_str("CTX_REQUEST_HOST"),
                    crate::text::to_lower(h.as_str()),
                );
            },
            None => {},
        }
        match query {
            Some(q) => {
                own.insert(
                    String::from_str("CTX_REQUEST_QUERY"),
                    crate::text::to_lower(q.as_str()),
                );
            },
            None => {},
        }
        let ghost base = own@;
        let n = headers.len();
        let mut i: usize = 0;
        proof {
            assert(pairs_view(headers@).take(0) =~= Seq::<(Seq<char>, Seq<char>)>::empty());
        }
        while i < n
            invariant
                n == headers@.len(),
                i <= n,
                own.wf(),
                own@ == insert_ctx_headers(base, "CTX_REQUEST_HEADERS_"@, pairs_view(
                    headers@,
                ).take(i as int)),
            decreases n - i,
        {
            let key = env_key("CTX_REQUEST_HEADERS_", headers[i].0.as_str());
            let value = headers[i].1.clone();
            proof {
                let ghost pv = pairs_view(headers@);
                assert(pv[i as int] == (headers@[i as int].0@, headers@[i as int].1@));
                assert(pv.take(i + 1).drop_last() =~= pv.take(i as int));
                assert(pv.take(i + 1).last() == pv[i as int]);
            }
            own.insert(key, value);
            i = i + 1;
        }
        proof {
            assert(pairs_view(headers@).take(n as int) =~= pairs_view(headers@));
        }
        self.with(own)
    }

    /// The target-scope context: this context with a frame holding the
    /// target id and the target host.
    pub fn with_target_values(&self, id: String, host: String) -> (r: Context)
        ensures
            r@ == self@.push(target_frame(id@, host@)),
    {
        let mut own = ContextMap::new();
        own.insert(String::from_str("CTX_TARGET_ID"), id);
        own.insert(String::from_str("CTX_TARGET_HOST"), host);
        self.with(own)
    }

    /// The response-scope context: this context with a frame holding the
    /// response status (in decimal) and one key per response header.
    pub fn with_response_values(&self, status: u16, headers: &Vec<(String, String)>) -> (r:
        Context)
        ensures
            r@ == self@.push(response_frame(status, pairs_view(headers@))),
    {
        let mut own = ContextMap::new();
        own.insert(String::from_str("CTX_RESPONSE_STATUS"), crate::text::u16_to_dec(status));
        let ghost base = own@;
        let n = headers.len();
        let mut i: usize = 0;
        proof {
            assert(pairs_view(headers@).take(0) =~= Seq::<(Seq<char>, Seq<char>)>::empty());
        }
        while i < n
            invariant
                n == headers@.len(),
                i <= n,
                own.wf(),
                own@ == insert_ctx_headers(base, "CTX_RESPONSE_HEADERS_"@, pairs_view(
                    headers@,
                ).take(i as int)),
            decreases n - i,
        {
            let key = env_key("CTX_RESPONSE_HEADERS_", headers[i].0.as_str());
            let value = headers[i].1.clone();
            proof {
                let ghost pv = pairs_view(headers@);
                assert(pv[i as int] == (headers@[i as int].0@, headers@[i as int].1@));
                assert(pv.take(i + 1).drop_last() =~= pv.take(i as int));
                assert(pv.take(i + 1).last() == pv[i as int]);
            }
            own.insert(key, value);
            i = i + 1;
        }
        proof {
            assert(pairs_view(headers@).take(n as int) =~= pairs_view(headers@));
        }
        self.with(own)
    }
}


/// The environment entries admitted by a mask: each variable whose name
/// the mask matches, later entries replacing earlier ones; an invalid
/// mask admits nothing.
pub open spec fn env_frame(
    vars: Seq<(Seq<char>, Seq<char>)>,
    mask: Seq<char>,
) -> Seq<(Seq<char>, Seq<char>)>
    decreases vars.len(),
{
    if vars.len() == 0 {
        Seq::empty()
    } else {
        let rest = env_frame(vars.drop_last(), mask);
        if crate::regexes::regex_valid(mask) && crate::regexes::regex_is_match(
            mask,
            vars.last().0,
        ) {
            frame_insert(rest, vars.last().0, vars.last().1)
        } else {
            rest
        }
    }
}

/// The source of the root context's environment entries: the process
/// environment, filtered by a mask.  Reading the process environment is
/// the caller's part; the filtering is here.
pub struct RootOsEnvironment {
    env_mask_regex: String,
}

impl RootOsEnvironment {
    pub fn new(env_mask_regex: &str) -> (r: RootOsEnvironment)
        ensures
            r.mask() == env_mask_regex@,
    {
        RootOsEnvironment { env_mask_regex: String::from_str(env_mask_regex) }
    }

    /// The mask that admits environment variables.
    pub closed spec fn mask(&self) -> Seq<char> {
        self.env_mask_regex@
    }

    /// Filters environment entries by the mask into a context frame.
    pub fn filter_environment(&self, vars: &Vec<(String, String)>) -> (r: ContextMap)
        ensures
            r@ == env_frame(pairs_view(vars@), self.mask()),
            r.wf(),
    {
        let mut out = ContextMap::new();
        let n = vars.len();
        let mut i: usize = 0;
        proof {
            assert(pairs_view(vars@).take(0) =~= Seq::<(Seq<char>, Seq<char>)>::empty());
        }
        while i < n
            invariant
                n == vars@.len(),
                i <= n,
                out.wf(),
                out@ == env_frame(pairs_view(vars@).take(i as int), self.mask()),
            decreases n - i,
        {
            proof {
                let ghost pv = pairs_view(vars@);
                assert(pv[i as int] == (vars@[i as int].0@, vars@[i as int].1@));
                assert(pv.take(i + 1).drop_last() =~= pv.take(i as int));
                assert(pv.take(i + 1).last() == pv[i as int]);
            }
            if crate::regexes::regex_match(
                self.env_mask_regex.as_str(),
                vars[i].0.as_str(),
            ) {
                out.insert(vars[i].0.clone(), vars[i].1.clone());
            }
            i = i + 1;
        }
        proof {
            assert(pairs_view(vars@).take(n as int) =~= pairs_view(vars@));
        }
        out
    }
}


} // verus!
