//! Header transforms and the header map they act on.  A transform adds a
//! header when absent, updates it when present, or drops it; dropping the
//! name `*` clears every header.  Header names compare without regard to
//! ASCII case.

use vstd::prelude::*;

use crate::context::Context;
use crate::template::{subst_spec, substitute};
use crate::text::{eq_ignore_case, lower_chars, str_eq};

verus! {

/// What a transform does, and to which header.
#[derive(Debug)]
pub enum HeaderTransformActon {
    Add(String),
    Update(String),
    Drop(String),
}

/// The specification-level form of a transform action.
pub enum HeaderActionView {
    Add(Seq<char>),
    Update(Seq<char>),
    Drop(Seq<char>),
}

impl View for HeaderTransformActon {
    type V = HeaderActionView;

    open spec fn view(&self) -> HeaderActionView {
        match self {
            HeaderTransformActon::Add(n) => HeaderActionView::Add(n@),
            HeaderTransformActon::Update(n) => HeaderActionView::Update(n@),
            HeaderTransformActon::Drop(n) => HeaderActionView::Drop(n@),
        }
    }
}

/// One header transform: an action plus, for add and update, the value
/// template.
#[derive(Debug)]
pub struct HeaderTransform {
    action: HeaderTransformActon,
    value: Option<String>,
}

/// The specification-level form of a transform.
pub struct TransformView {
    pub action: HeaderActionView,
    pub value: Option<Seq<char>>,
}

impl View for HeaderTransform {
    type V = TransformView;

    closed spec fn view(&self) -> TransformView {
        TransformView {
            action: self.action@,
            value: match self.value {
                Some(ref v) => Some(v@),
                None => None,
            },
        }
    }
}

/// Add and update carry a value template; drop carries none.
pub open spec fn transform_wf(t: TransformView) -> bool {
    match t.action {
        HeaderActionView::Add(_) => t.value is Some,
        HeaderActionView::Update(_) => t.value is Some,
        HeaderActionView::Drop(_) => t.value is None,
    }
}

impl HeaderTransform {
    /// Every transform that exists is well formed: `from_parts` is the only
    /// way to build one.
    #[verifier::type_invariant]
    pub open spec fn inv(&self) -> bool {
        transform_wf(self@)
    }

    pub fn action(&self) -> (r: &HeaderTransformActon)
        ensures
            r@ == self@.action,
    {
        &self.action
    }

    pub fn value(&self) -> (r: Option<&String>)
        ensures
            match r {
                Some(v) => self@.value == Some(v@),
                None => self@.value is None,
            },
    {
        match &self.value {
            Some(v) => Some(v),
            None => None,
        }
    }

    /// Assembles a transform from an optional action and an optional value,
    /// as read from a configuration file.  Add and update demand a value;
    /// drop forbids one; the action itself is demanded.
    pub fn from_parts(action: Option<HeaderTransformActon>, value: Option<String>) -> (r: Result<
        HeaderTransform,
        String,
    >)
        ensures
            match r {
                Ok(t) => {
                    &&& action matches Some(a) && t@.action == a@
                    &&& match value {
                        Some(ref v) => t@.value == Some(v@),
                        None => t@.value is None,
                    }
                    &&& transform_wf(t@)
                },
                Err(_) => {
                    match action {
                        None => true,
                        Some(HeaderTransformActon::Add(_)) => value is None,
                        Some(HeaderTransformActon::Update(_)) => value is None,
                        Some(HeaderTransformActon::Drop(_)) => value is Some,
                    }
                },
            },
    {
        match action {
            None => Err(String::from_str("action should be one of add/drop/update")),
            Some(a) => {
                match a {
                    HeaderTransformActon::Add(_) | HeaderTransformActon::Update(_) => {
                        if value.is_none() {
                            Err(String::from_str("missing field `value`"))
                        } else {
                            Ok(HeaderTransform { action: a, value })
                        }
                    },
                    HeaderTransformActon::Drop(_) => {
                        if value.is_some() {
                            Err(String::from_str("unknown field `value` in action drop"))
                        } else {
                            Ok(HeaderTransform { action: a, value })
                        }
                    },
                }
            },
        }
    }
}

/// A header map: names with their values, each name present at most once
/// up to ASCII case.
pub struct Headers {
    entries: Vec<(String, String)>,
}

impl View for Headers {
    type V = Seq<(Seq<char>, Seq<char>)>;

    closed spec fn view(&self) -> Seq<(Seq<char>, Seq<char>)> {
        crate::context::pairs_view(self.entries@)
    }
}

/// The first position whose name lower-cases to `lname`, or `-1`.
pub open spec fn hdr_find(h: Seq<(Seq<char>, Seq<char>)>, lname: Seq<char>) -> int
    decreases h.len(),
{
    if h.len() == 0 {
        -1
    } else if lower_chars(h[0].0) == lname {
        0
    } else {
        let r = hdr_find(h.drop_first(), lname);
        if r < 0 {
            -1
        } else {
            1 + r
        }
    }
}

pub open spec fn hdr_contains(h: Seq<(Seq<char>, Seq<char>)>, name: Seq<char>) -> bool {
    hdr_find(h, lower_chars(name)) >= 0
}

pub proof fn lemma_hdr_find_props(h: Seq<(Seq<char>, Seq<char>)>, lname: Seq<char>)
    ensures
        -1 <= hdr_find(h, lname) < h.len(),
        hdr_find(h, lname) >= 0 ==> lower_chars(h[hdr_find(h, lname)].0) == lname,
        hdr_find(h, lname) >= 0 ==> forall|m: int|
            0 <= m < hdr_find(h, lname) ==> lower_chars(h[m].0) != lname,
        hdr_find(h, lname) == -1 ==> forall|m: int|
            0 <= m < h.len() ==> lower_chars(h[m].0) != lname,
    decreases h.len(),
{
    if h.len() > 0 && lower_chars(h[0].0) != lname {
        lemma_hdr_find_props(h.drop_first(), lname);
        assert forall|m: int|
            1 <= m < h.len() implies h.drop_first()[m - 1] == h[m] by {}
    }
}

proof fn lemma_hdr_find_scan(h: Seq<(Seq<char>, Seq<char>)>, lname: Seq<char>, k: int)
    requires
        0 <= k < h.len(),
        lower_chars(h[k].0) == lname,
        forall|m: int| 0 <= m < k ==> lower_chars(h[m].0) != lname,
    ensures
        hdr_find(h, lname) == k,
    decreases k,
{
    if k > 0 {
        lemma_hdr_find_scan(h.drop_first(), lname, k - 1);
    }
}

proof fn lemma_hdr_find_missing(h: Seq<(Seq<char>, Seq<char>)>, lname: Seq<char>)
    requires
        forall|m: int| 0 <= m < h.len() ==> lower_chars(h[m].0) != lname,
    ensures
        hdr_find(h, lname) == -1,
    decreases h.len(),
{
    if h.len() > 0 {
        lemma_hdr_find_missing(h.drop_first(), lname);
    }
}

impl Headers {
    pub fn new() -> (r: Headers)
        ensures
            r@ == Seq::<(Seq<char>, Seq<char>)>::empty(),
    {
        Headers { entries: Vec::new() }
    }

    pub fn len(&self) -> (r: usize)
        ensures
            r == self@.len(),
    {
        self.entries.len()
    }

    /// The position of `name` in this map, without regard to ASCII case.
    fn position(&self, name: &str) -> (r: Option<usize>)
        ensures
            match r {
                Some(i) => i < self@.len() && hdr_find(self@, lower_chars(name@)) == i as int,
                None => hdr_find(self@, lower_chars(name@)) == -1,
            },
    {
        let n = self.entries.len();
        let mut i: usize = 0;
        while i < n
            invariant
                n == self@.len(),
                i <= n,
                forall|j: int| 0 <= j < i ==> lower_chars(self@[j].0) != lower_chars(name@),
            decreases n - i,
        {
            if eq_ignore_case(self.entries[i].0.as_str(), name) {
                proof {
                    lemma_hdr_find_scan(self@, lower_chars(name@), i as int);
                }
                return Some(i);
            }
            i = i + 1;
        }
        proof {
            lemma_hdr_find_missing(self@, lower_chars(name@));
        }
        None
    }

    pub fn contains_name(&self, name: &str) -> (r: bool)
        ensures
            r == hdr_contains(self@, name@),
    {
        self.position(name).is_some()
    }

    /// The value stored under `name`, without regard to ASCII case.
    pub fn get(&self, name: &str) -> (r: Option<&String>)
        ensures
            match r {
                Some(v) => hdr_find(self@, lower_chars(name@)) >= 0 && self@[hdr_find(
                    self@,
                    lower_chars(name@),
                )].1 == v@,
                None => hdr_find(self@, lower_chars(name@)) == -1,
            },
    {
        match self.position(name) {
            Some(i) => Some(&self.entries[i].1),
            None => None,
        }
    }

    /// Appends a header that is not yet present.
    pub fn push(&mut self, name: String, value: String)
        requires
            !hdr_contains(old(self)@, name@),
        ensures
            final(self)@ == old(self)@.push((name@, value@)),
    {
        self.entries.push((name, value));
        proof {
            assert(self@ =~= old(self)@.push((name@, value@)));
        }
    }

    /// Stores `value` under `name`: replaces the present value, or appends.
    pub fn insert(&mut self, name: String, value: String)
        ensures
            final(self)@ == (if hdr_find(old(self)@, lower_chars(name@)) >= 0 {
                let i = hdr_find(old(self)@, lower_chars(name@));
                old(self)@.update(i, (old(self)@[i].0, value@))
            } else {
                old(self)@.push((name@, value@))
            }),
    {
        match self.position(name.as_str()) {
            Some(i) => {
                let kept = self.entries[i].0.clone();
                proof {
                    assert(old(self)@[i as int] == (self.entries@[i as int].0@, self.entries@[
                        i as int].1@));
                }
                self.entries.set(i, (kept, value));
                proof {
                    assert(self@ =~= old(self)@.update(
                        i as int,
                        (old(self)@[i as int].0, value@),
                    ));
                }
            },
            None => {
                self.entries.push((name, value));
                proof {
                    assert(self@ =~= old(self)@.push((name@, value@)));
                }
            },
        }
    }

    /// Removes the header stored under `name`, if present.
    pub fn remove(&mut self, name: &str)
        ensures
            final(self)@ == (if hdr_find(old(self)@, lower_chars(name@)) >= 0 {
                old(self)@.remove(hdr_find(old(self)@, lower_chars(name@)))
            } else {
                old(self)@
            }),
    {
        match self.position(name) {
            Some(i) => {
                self.entries.remove(i);
                proof {
                    assert(self@ =~= old(self)@.remove(i as int));
                }
            },
            None => {},
        }
    }

    /// Removes every header.
    pub fn clear(&mut self)
        ensures
            final(self)@ == Seq::<(Seq<char>, Seq<char>)>::empty(),
    {
        self.entries.clear();
        proof {
            assert(self@ =~= Seq::<(Seq<char>, Seq<char>)>::empty());
        }
    }

    /// The headers as name/value pairs, in stored order.
    pub fn entries_vec(&self) -> (r: Vec<(String, String)>)
        ensures
            crate::context::pairs_view(r@) == self@,
    {
        let n = self.entries.len();
        let mut out: Vec<(String, String)> = Vec::new();
        let mut i: usize = 0;
        while i < n
            invariant
                n == self@.len(),
                i <= n,
                out@.len() == i,
                forall|j: int| 0 <= j < i ==> crate::context::pairs_view(out@)[j] == self@[j],
            decreases n - i,
        {
            let k = self.entries[i].0.clone();
            let v = self.entries[i].1.clone();
            out.push((k, v));
            i = i + 1;
        }
        proof {
            assert(crate::context::pairs_view(out@) =~= self@);
        }
        out
    }

    /// A copy whose contents equal this map's.
    pub fn duplicate(&self) -> (r: Headers)
        ensures
            r@ == self@,
    {
        let r = Headers { entries: self.entries_vec() };
        r
    }

    /// Builds a header map from name/value pairs, keeping for each name the
    /// first value it is given.
    pub fn from_pairs(pairs: &Vec<(String, String)>) -> (r: Headers)
        ensures
            r@ == dedup_headers(crate::context::pairs_view(pairs@)),
    {
        let n = pairs.len();
        let mut r = Headers::new();
        let mut i: usize = 0;
        proof {
            assert(crate::context::pairs_view(pairs@).take(0) =~= Seq::<
                (Seq<char>, Seq<char>),
            >::empty());
        }
        while i < n
            invariant
                n == pairs@.len(),
                i <= n,
                r@ == dedup_headers(crate::context::pairs_view(pairs@).take(i as int)),
            decreases n - i,
        {
            let ghost pv = crate::context::pairs_view(pairs@);
            let name = pairs[i].0.clone();
            let value = pairs[i].1.clone();
            proof {
                assert(pv[i as int] == (pairs@[i as int].0@, pairs@[i as int].1@));
                assert(pv.take(i + 1).drop_last() =~= pv.take(i as int));
                assert(pv.take(i + 1).last() == pv[i as int]);
            }
            if !self_contains(&r, name.as_str()) {
                r.push(name, value);
            }
            i = i + 1;
        }
        proof {
            assert(crate::context::pairs_view(pairs@).take(n as int) =~= crate::context::pairs_view(
                pairs@,
            ));
        }
        r
    }
}

fn self_contains(h: &Headers, name: &str) -> (r: bool)
    ensures
        r == hdr_contains(h@, name@),
{
    h.contains_name(name)
}

/// Keeps, for each name, the first pair that carries it.
pub open spec fn dedup_headers(pairs: Seq<(Seq<char>, Seq<char>)>) -> Seq<(Seq<char>, Seq<char>)>
    decreases pairs.len(),
{
    if pairs.len() == 0 {
        Seq::empty()
    } else {
        let rest = dedup_headers(pairs.drop_last());
        if hdr_contains(rest, pairs.last().0) {
            rest
        } else {
            rest.push(pairs.last())
        }
    }
}

/// The result of one transform on a header map.
pub open spec fn apply_transform(
    h: Seq<(Seq<char>, Seq<char>)>,
    t: TransformView,
    frames: Seq<Seq<(Seq<char>, Seq<char>)>>,
) -> Seq<(Seq<char>, Seq<char>)> {
    let tmpl = match t.value {
        Some(v) => v,
        None => Seq::<char>::empty(),
    };
    match t.action {
        HeaderActionView::Add(name) => if hdr_find(h, lower_chars(name)) >= 0 {
            h
        } else {
            h.push((name, subst_spec(tmpl, frames)))
        },
        HeaderActionView::Update(name) => {
            let i = hdr_find(h, lower_chars(name));
            if i >= 0 {
                h.update(i, (h[i].0, subst_spec(tmpl, frames)))
            } else {
                h
            }
        },
        HeaderActionView::Drop(name) => if name == "*"@ {
            Seq::empty()
        } else {
            let i = hdr_find(h, lower_chars(name));
            if i >= 0 {
                h.remove(i)
            } else {
                h
            }
        },
    }
}

/// The result of a list of transforms, applied in order.
pub open spec fn apply_transforms(
    h: Seq<(Seq<char>, Seq<char>)>,
    ts: Seq<TransformView>,
    frames: Seq<Seq<(Seq<char>, Seq<char>)>>,
) -> Seq<(Seq<char>, Seq<char>)>
    decreases ts.len(),
{
    if ts.len() == 0 {
        h
    } else {
        apply_transforms(apply_transform(h, ts[0], frames), ts.drop_first(), frames)
    }
}

/// The transforms in `ts`, seen at the specification level.
pub open spec fn transforms_view(ts: Seq<HeaderTransform>) -> Seq<TransformView> {
    Seq::new(ts.len(), |i: int| ts[i]@)
}

/// Applies each transform in order: add inserts an absent header, update
/// replaces a present one, drop removes one, and dropping `*` clears all;
/// add and update values pass through `${VAR}` substitution first.
pub fn transform(headers: &mut Headers, transforms: &Vec<HeaderTransform>, ctx: &Context)
    ensures
        final(headers)@ == apply_transforms(old(headers)@, transforms_view(transforms@), ctx@),
{
    let n = transforms.len();
    let mut i: usize = 0;
    proof {
        assert(transforms_view(transforms@).skip(0) =~= transforms_view(transforms@));
    }
    while i < n
        invariant
            n == transforms@.len(),
            i <= n,
            apply_transforms(headers@, transforms_view(transforms@).skip(i as int), ctx@)
                == apply_transforms(old(headers)@, transforms_view(transforms@), ctx@),
        decreases n - i,
    {
        let ghost hv = headers@;
        let ghost tv = transforms@[i as int]@;
        let t = &transforms[i];
        proof {
            use_type_invariant(&*t);
        }
        let tmpl: &str = match (&t.action, &t.value) {
            (HeaderTransformActon::Add(_), Some(v)) => v.as_str(),
            (HeaderTransformActon::Update(_), Some(v)) => v.as_str(),
            _ => "",
        };
        match &t.action {
            HeaderTransformActon::Add(key) => {
                if !headers.contains_name(key.as_str()) {
                    let value = substitute(tmpl, ctx);
                    headers.push(key.clone(), value);
                }
            },
            HeaderTransformActon::Update(key) => {
                if headers.contains_name(key.as_str()) {
                    let value = substitute(tmpl, ctx);
                    headers.insert(key.clone(), value);
                }
            },
            HeaderTransformActon::Drop(key) => {
                if str_eq(key.as_str(), "*") {
                    headers.clear();
                } else {
                    headers.remove(key.as_str());
                }
            },
        }
        proof {
            assert(headers@ == apply_transform(hv, tv, ctx@));
            assert(transforms_view(transforms@).skip(i as int).drop_first()
                =~= transforms_view(transforms@).skip(i + 1));
            assert(transforms_view(transforms@).skip(i as int)[0] == tv);
        }
        i = i + 1;
    }
    proof {
        assert(transforms_view(transforms@).skip(n as int) =~= Seq::<TransformView>::empty());
    }
}

/// Transforms a header map in place, as the original transform list does.
pub trait HeadersTransformator {
    fn transform(&self, headers: &mut Headers, ctx: &Context);
}

impl HeadersTransformator for Vec<HeaderTransform> {
    fn transform(&self, headers: &mut Headers, ctx: &Context) {
        transform(headers, self, ctx);
    }
}

/// Dropping `*` removes every header, and an `add` later in the same list
/// re-adds only that one header: the map then holds exactly the added pair.
pub proof fn lemma_drop_all_then_add(
    h: Seq<(Seq<char>, Seq<char>)>,
    name: Seq<char>,
    tmpl: Seq<char>,
    frames: Seq<Seq<(Seq<char>, Seq<char>)>>,
)
    ensures
        apply_transforms(
            h,
            seq![
                TransformView { action: HeaderActionView::Drop("*"@), value: None },
                TransformView { action: HeaderActionView::Add(name), value: Some(tmpl) },
            ],
            frames,
        ) == seq![(name, subst_spec(tmpl, frames))],
{
    let ts = seq![
        TransformView { action: HeaderActionView::Drop("*"@), value: None },
        TransformView { action: HeaderActionView::Add(name), value: Some(tmpl) },
    ];
    let empty = Seq::<(Seq<char>, Seq<char>)>::empty();
    assert(apply_transform(h, ts[0], frames) == empty);
    assert(ts.drop_first() =~= seq![ts[1]]);
    assert(hdr_find(empty, lower_chars(name)) == -1);
    assert(apply_transform(empty, ts[1], frames) =~= seq![(name, subst_spec(tmpl, frames))]);
    assert(seq![ts[1]].drop_first() =~= Seq::<TransformView>::empty());
    assert(apply_transforms(h, ts, frames) == apply_transforms(
        apply_transform(h, ts[0], frames),
        ts.drop_first(),
        frames,
    ));
    assert(apply_transforms(empty, seq![ts[1]], frames) == apply_transforms(
        apply_transform(empty, ts[1], frames),
        seq![ts[1]].drop_first(),
        frames,
    ));
    assert(apply_transforms(
        apply_transform(empty, ts[1], frames),
        Seq::<TransformView>::empty(),
        frames,
    ) == apply_transform(empty, ts[1], frames));
}

/// Each header name appears at most once, up to ASCII case.
pub open spec fn hdr_unique(h: Seq<(Seq<char>, Seq<char>)>) -> bool {
    forall|i: int, j: int|
        0 <= i < j < h.len() ==> lower_chars(#[trigger] h[i].0) != lower_chars(#[trigger] h[j].0)
}

/// One transform keeps header names unique.
pub proof fn lemma_apply_transform_unique(
    h: Seq<(Seq<char>, Seq<char>)>,
    t: TransformView,
    frames: Seq<Seq<(Seq<char>, Seq<char>)>>,
)
    requires
        hdr_unique(h),
    ensures
        hdr_unique(apply_transform(h, t, frames)),
{
    let r = apply_transform(h, t, frames);
    match t.action {
        HeaderActionView::Add(name) => {
            if hdr_find(h, lower_chars(name)) >= 0 {
        } else {
                lemma_hdr_find_props(h, lower_chars(name));
                assert forall|i: int, j: int|
                    0 <= i < j < r.len() implies lower_chars(r[i].0) != lower_chars(r[j].0) by {
                    if j == r.len() - 1 {
                        assert(r[i] == h[i]);
                    }
                }
            }
        },
        HeaderActionView::Update(name) => {
            lemma_hdr_find_props(h, lower_chars(name));
            let idx = hdr_find(h, lower_chars(name));
            if idx >= 0 {
                assert forall|i: int, j: int|
                    0 <= i < j < r.len() implies lower_chars(r[i].0) != lower_chars(r[j].0) by {
                    assert(r[i].0 == h[i].0);
                    assert(r[j].0 == h[j].0);
                }
            }
        },
        HeaderActionView::Drop(name) => {
            if name == "*"@ {
            } else {
                lemma_hdr_find_props(h, lower_chars(name));
                let idx = hdr_find(h, lower_chars(name));
                if idx >= 0 {
                    assert forall|i: int, j: int|
                        0 <= i < j < r.len() implies lower_chars(r[i].0) != lower_chars(
                        r[j].0,
                    ) by {
                        let i0 = if i < idx { i } else { i + 1 };
                        let j0 = if j < idx { j } else { j + 1 };
                        assert(r[i] == h[i0]);
                        assert(r[j] == h[j0]);
                    }
                }
            }
        },
    }
}

/// A list of transforms keeps header names unique.
pub proof fn lemma_apply_transforms_unique(
    h: Seq<(Seq<char>, Seq<char>)>,
    ts: Seq<TransformView>,
    frames: Seq<Seq<(Seq<char>, Seq<char>)>>,
)
    requires
        hdr_unique(h),
    ensures
        hdr_unique(apply_transforms(h, ts, frames)),
    decreases ts.len(),
{
    if ts.len() > 0 {
        lemma_apply_transform_unique(h, ts[0], frames);
        lemma_apply_transforms_unique(apply_transform(h, ts[0], frames), ts.drop_first(), frames);
    }
}


} // verus!
