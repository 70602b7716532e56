//! Dotted symbol paths and the namespace that binds them to values.
//!
//! A path is *absolute* (rooted at the global namespace) or *relative* (its
//! meaning depends on a cursor). A namespace is a mapping from absolute paths
//! to values: keys are unique, insertion overwrites any earlier binding, and
//! no ordering is observable. Relative names used as identifiers fall back
//! through the ancestors of the cursor; `spec_resolve_fallback` is that rule.

use vstd::prelude::*;

use crate::value::{Value, ValueV};

verus! {

/// The model of a path: the ordered names of its segments.
pub open spec fn segs_view(segs: Seq<String>) -> Seq<Seq<char>> {
    segs.map_values(|s: String| s@)
}

/// An absolute symbol path: segment names, rooted at the global namespace.
#[derive(Debug, PartialEq, Eq, Hash)]
pub struct AbsoluteSymbolPath(pub Vec<String>);

/// A relative symbol path: segment names, resolved against a cursor.
#[derive(Debug)]
pub struct RelativeSymbolPath(pub Vec<String>);

/// A parsed dotted name: absolute when the written form began with the
/// separator, relative otherwise.
#[derive(Debug)]
pub enum SymbolPath {
    Absolute(AbsoluteSymbolPath),
    Relative(RelativeSymbolPath),
}

/// Mathematical model of a parsed dotted name.
#[verifier::ext_equal]
pub enum SymbolPathV {
    Absolute(Seq<Seq<char>>),
    Relative(Seq<Seq<char>>),
}

impl View for AbsoluteSymbolPath {
    type V = Seq<Seq<char>>;

    open spec fn view(&self) -> Seq<Seq<char>> {
        segs_view(self.0@)
    }
}

impl View for RelativeSymbolPath {
    type V = Seq<Seq<char>>;

    open spec fn view(&self) -> Seq<Seq<char>> {
        segs_view(self.0@)
    }
}

impl View for SymbolPath {
    type V = SymbolPathV;

    open spec fn view(&self) -> SymbolPathV {
        match self {
            SymbolPath::Absolute(p) => SymbolPathV::Absolute(p@),
            SymbolPath::Relative(p) => SymbolPathV::Relative(p@),
        }
    }
}

impl Clone for AbsoluteSymbolPath {
    /// A cloned path has the same segments as the original.
    fn clone(&self) -> (r: Self)
        ensures
            r@ == self@,
    {
        let segs = self.0.clone();
        proof {
            assert(segs@ =~= self.0@);
            assert(segs_view(segs@) =~= segs_view(self.0@));
        }
        AbsoluteSymbolPath(segs)
    }
}

impl Clone for RelativeSymbolPath {
    /// A cloned path has the same segments as the original.
    fn clone(&self) -> (r: Self)
        ensures
            r@ == self@,
    {
        let segs = self.0.clone();
        proof {
            assert(segs@ =~= self.0@);
            assert(segs_view(segs@) =~= segs_view(self.0@));
        }
        RelativeSymbolPath(segs)
    }
}

impl Clone for SymbolPath {
    /// A cloned path has the same model as the original.
    fn clone(&self) -> (r: Self)
        ensures
            r@ == self@,
    {
        match self {
            SymbolPath::Absolute(p) => SymbolPath::Absolute(p.clone()),
            SymbolPath::Relative(p) => SymbolPath::Relative(p.clone()),
        }
    }
}

/// Realizing a path against a cursor: an absolute path passes through
/// unchanged; a relative path is appended onto the cursor.
pub open spec fn spec_realize(p: SymbolPathV, cur: Seq<Seq<char>>) -> Seq<Seq<char>> {
    match p {
        SymbolPathV::Absolute(segs) => segs,
        SymbolPathV::Relative(segs) => cur + segs,
    }
}

/// First position at or after `pos` holding the separator, or the end.
pub open spec fn spec_seg_end(s: Seq<char>, pos: int) -> int
    decreases s.len() - pos,
{
    if pos < 0 || pos >= s.len() {
        s.len() as int
    } else if s[pos] == '.' {
        pos
    } else {
        spec_seg_end(s, pos + 1)
    }
}

/// The separator search ends at or after where it starts, within the input.
pub proof fn lemma_seg_end_bounds(s: Seq<char>, pos: int)
    requires
        0 <= pos <= s.len(),
    ensures
        pos <= spec_seg_end(s, pos) <= s.len(),
    decreases s.len() - pos,
{
    if pos < s.len() && s[pos] != '.' {
        lemma_seg_end_bounds(s, pos + 1);
    }
}

/// The segments of `s` from `pos` on, split on the separator.
pub open spec fn spec_split(s: Seq<char>, pos: int) -> Seq<Seq<char>>
    decreases s.len() - pos,
        via spec_split_decreases
{
    let e = spec_seg_end(s, pos);
    if e >= s.len() {
        seq![s.subrange(pos, s.len() as int)]
    } else {
        seq![s.subrange(pos, e)] + spec_split(s, e + 1)
    }
}

#[via_fn]
proof fn spec_split_decreases(s: Seq<char>, pos: int) {
    if 0 <= pos <= s.len() {
        lemma_seg_end_bounds(s, pos);
    }
}

/// Parsing a dotted name: split on the separator; a name that begins with the
/// separator is absolute, with that empty leading segment dropped; any other
/// name is relative, using all segments.
pub open spec fn spec_parse_path(s: Seq<char>) -> SymbolPathV
    recommends
        s.len() > 0,
{
    if s[0] == '.' {
        SymbolPathV::Absolute(spec_split(s, 1))
    } else {
        SymbolPathV::Relative(spec_split(s, 0))
    }
}

impl AbsoluteSymbolPath {
    /// The root of the global namespace: the empty path.
    pub fn root() -> (r: Self)
        ensures
            r@ == Seq::<Seq<char>>::empty(),
    {
        let r = AbsoluteSymbolPath(Vec::new());
        proof {
            assert(r@ =~= Seq::<Seq<char>>::empty());
        }
        r
    }

    /// Append the segments of a relative path.
    pub fn join(&self, other: &RelativeSymbolPath) -> (r: Self)
        ensures
            r@ == self@ + other@,
    {
        let mut segs = self.0.clone();
        let mut rest = other.0.clone();
        segs.append(&mut rest);
        proof {
            assert(segs@ =~= self.0@ + other.0@);
            assert(segs_view(segs@) =~= segs_view(self.0@) + segs_view(other.0@));
        }
        AbsoluteSymbolPath(segs)
    }

    /// The enclosing path: this path without its last segment, or `None` at
    /// the root.
    pub fn parent(&self) -> (r: Option<Self>)
        ensures
            match r {
                Some(p) => self@.len() > 0 && p@ == self@.drop_last(),
                None => self@.len() == 0,
            },
    {
        if self.0.len() == 0 {
            None
        } else {
            let mut segs = self.0.clone();
            let _last = segs.pop();
            proof {
                assert(segs@ =~= self.0@.drop_last());
                assert(segs_view(segs@) =~= segs_view(self.0@).drop_last());
            }
            Some(AbsoluteSymbolPath(segs))
        }
    }
}

/// Whether two absolute paths have the same segments.
pub fn path_eq(a: &AbsoluteSymbolPath, b: &AbsoluteSymbolPath) -> (r: bool)
    ensures
        r == (a@ == b@),
{
    if a.0.len() != b.0.len() {
        proof {
            assert(a@.len() != b@.len());
        }
        return false;
    }
    let n = a.0.len();
    let mut i: usize = 0;
    while i < n
        invariant
            i <= n,
            n == a.0@.len() == b.0@.len(),
            forall|j: int| 0 <= j < i ==> a.0@[j]@ == b.0@[j]@,
        decreases n - i,
    {
        if !(a.0[i] == b.0[i]) {
            proof {
                assert(a@[i as int] != b@[i as int]);
            }
            return false;
        }
        i = i + 1;
    }
    proof {
        assert(a@ =~= b@);
    }
    true
}

/// First position at or after `pos` holding the separator, or the end.
fn seg_end(input: &str, pos: usize) -> (e: usize)
    requires
        pos <= input@.len(),
    ensures
        e == spec_seg_end(input@, pos as int),
        pos <= e <= input@.len(),
{
    let ghost s = input@;
    let n = input.unicode_len();
    let mut i = pos;
    loop
        invariant
            pos <= i <= n,
            n == s.len(),
            s == input@,
            spec_seg_end(s, pos as int) == spec_seg_end(s, i as int),
        decreases n - i,
    {
        if i == n {
            return i;
        }
        if input.get_char(i) == '.' {
            return i;
        }
        i = i + 1;
    }
}

/// The segments of `input` from character position `pos` on.
fn split_segments(input: &str, pos: usize) -> (r: Vec<String>)
    requires
        pos <= input@.len(),
    ensures
        segs_view(r@) == spec_split(input@, pos as int),
{
    let ghost s = input@;
    let n = input.unicode_len();
    let mut segs: Vec<String> = Vec::new();
    let mut cur = pos;
    proof {
        assert(segs_view(segs@) =~= Seq::<Seq<char>>::empty());
    }
    loop
        invariant_except_break
            pos <= cur <= n,
            spec_split(s, pos as int) == segs_view(segs@) + spec_split(s, cur as int),
        invariant
            n == s.len(),
            s == input@,
        ensures
            segs_view(segs@) == spec_split(s, pos as int),
        decreases n - cur,
    {
        let e = seg_end(input, cur);
        let seg = input.substring_char(cur, e).to_owned();
        let ghost segs_old = segs@;
        segs.push(seg);
        proof {
            assert(segs_view(segs@) =~= segs_view(segs_old).push(seg@));
        }
        if e == n {
            proof {
                assert(spec_split(s, cur as int) =~= seq![seg@]);
                assert(segs_view(segs_old) + spec_split(s, cur as int) =~= segs_view(segs@));
            }
            break;
        }
        proof {
            assert(spec_split(s, cur as int) =~= seq![seg@] + spec_split(s, e + 1));
            assert(segs_view(segs_old) + spec_split(s, cur as int) =~= segs_view(segs@) + spec_split(
                s,
                e + 1,
            ));
        }
        cur = e + 1;
    }
    segs
}

impl SymbolPath {
    /// Whether this path was written in absolute form.
    pub fn is_absolute(&self) -> (r: bool)
        ensures
            r == (self@ is Absolute),
    {
        match self {
            SymbolPath::Absolute(_) => true,
            SymbolPath::Relative(_) => false,
        }
    }

    /// Parse a dotted name. The name must be non-empty; the scanner never
    /// produces an empty one.
    pub fn from_str(s: &str) -> (r: SymbolPath)
        requires
            s@.len() > 0,
        ensures
            r@ == spec_parse_path(s@),
    {
        if s.get_char(0) == '.' {
            let segs = split_segments(s, 1);
            proof {
                assert(spec_split(s@, 0) == seq![s@.subrange(0, 0)] + spec_split(s@, 1));
            }
            SymbolPath::Absolute(AbsoluteSymbolPath(segs))
        } else {
            let segs = split_segments(s, 0);
            SymbolPath::Relative(RelativeSymbolPath(segs))
        }
    }

    /// Realize this path against the cursor `other` into an absolute path.
    pub fn realize(self, other: &AbsoluteSymbolPath) -> (r: AbsoluteSymbolPath)
        ensures
            r@ == spec_realize(self@, other@),
    {
        match self {
            SymbolPath::Absolute(p) => p,
            SymbolPath::Relative(p) => other.join(&p),
        }
    }
}

/// Realizing an absolute path leaves it unchanged, whatever the cursor.
pub proof fn lemma_realize_absolute(segs: Seq<Seq<char>>, cur: Seq<Seq<char>>)
    ensures
        spec_realize(SymbolPathV::Absolute(segs), cur) == segs,
{
}

/// Realizing twice is realizing once: the result of a realization, taken as
/// an absolute path, realizes to itself against any later cursor.
pub proof fn lemma_realize_idempotent(p: SymbolPathV, cur: Seq<Seq<char>>, cur2: Seq<Seq<char>>)
    ensures
        spec_realize(SymbolPathV::Absolute(spec_realize(p, cur)), cur2) == spec_realize(p, cur),
{
}

/// The model of the namespace binding list: later entries shadow earlier
/// ones, though the namespace keeps its keys unique.
pub open spec fn entries_map(s: Seq<(AbsoluteSymbolPath, Value)>) -> Map<Seq<Seq<char>>, ValueV>
    decreases s.len(),
{
    if s.len() == 0 {
        Map::empty()
    } else {
        entries_map(s.drop_last()).insert(s.last().0@, s.last().1@)
    }
}

/// Whether the keys of the binding list are pairwise distinct.
pub open spec fn entries_distinct(s: Seq<(AbsoluteSymbolPath, Value)>) -> bool {
    forall|i: int, j: int| 0 <= i < j < s.len() ==> (#[trigger] s[i]).0@ != (#[trigger] s[j]).0@
}

/// Every entry of a distinct binding list is bound in its map to its value.
proof fn lemma_entries_map_index(s: Seq<(AbsoluteSymbolPath, Value)>, i: int)
    requires
        entries_distinct(s),
        0 <= i < s.len(),
    ensures
        entries_map(s).contains_key(s[i].0@),
        entries_map(s)[s[i].0@] == s[i].1@,
    decreases s.len(),
{
    if i < s.len() - 1 {
        assert(s.drop_last()[i] == s[i]);
        assert(entries_distinct(s.drop_last())) by {
            assert(forall|x: int, y: int|
                0 <= x < y < s.drop_last().len() ==> s.drop_last()[x] == s[x] && s.drop_last()[y]
                    == s[y]);
        }
        lemma_entries_map_index(s.drop_last(), i);
        assert(s[i].0@ != s.last().0@);
    }
}

/// A key held by no entry of the binding list is not in its map.
proof fn lemma_entries_map_no_key(s: Seq<(AbsoluteSymbolPath, Value)>, k: Seq<Seq<char>>)
    requires
        forall|i: int| 0 <= i < s.len() ==> (#[trigger] s[i]).0@ != k,
    ensures
        !entries_map(s).contains_key(k),
    decreases s.len(),
{
    if s.len() > 0 {
        assert(forall|i: int|
            0 <= i < s.drop_last().len() ==> (#[trigger] s.drop_last()[i]) == s[i]);
        lemma_entries_map_no_key(s.drop_last(), k);
    }
}

/// Removing entry `i` from a distinct binding list removes its key from the
/// map and keeps the rest distinct.
proof fn lemma_entries_map_remove(s: Seq<(AbsoluteSymbolPath, Value)>, i: int)
    requires
        entries_distinct(s),
        0 <= i < s.len(),
    ensures
        entries_map(s.remove(i)) == entries_map(s).remove(s[i].0@),
        entries_distinct(s.remove(i)),
    decreases s.len(),
{
    assert(entries_distinct(s.remove(i))) by {
        assert(forall|x: int|
            0 <= x < s.remove(i).len() ==> (#[trigger] s.remove(i)[x]) == if x < i {
                s[x]
            } else {
                s[x + 1]
            });
    }
    if i == s.len() - 1 {
        assert(s.remove(i) =~= s.drop_last());
        assert(forall|j: int| 0 <= j < s.drop_last().len() ==> (#[trigger] s.drop_last()[j]) == s[j]);
        lemma_entries_map_no_key(s.drop_last(), s[i].0@);
        assert(entries_map(s.drop_last()) =~= entries_map(s).remove(s[i].0@));
    } else {
        let dl = s.drop_last();
        assert(entries_distinct(dl)) by {
            assert(forall|x: int| 0 <= x < dl.len() ==> (#[trigger] dl[x]) == s[x]);
        }
        assert(dl[i] == s[i]);
        lemma_entries_map_remove(dl, i);
        assert(s.remove(i).drop_last() =~= dl.remove(i));
        assert(s.remove(i).last() == s.last());
        assert(s[i].0@ != s.last().0@);
        assert(entries_map(s.remove(i)) == entries_map(dl.remove(i)).insert(
            s.last().0@,
            s.last().1@,
        ));
        assert(entries_map(dl).remove(s[i].0@).insert(s.last().0@, s.last().1@) =~= entries_map(
            dl,
        ).insert(s.last().0@, s.last().1@).remove(s[i].0@));
    }
}

/// A mapping from absolute symbol paths to values. Keys are unique; insertion
/// overwrites any prior binding at the same path.
#[derive(Debug)]
pub struct Namespace {
    values: Vec<(AbsoluteSymbolPath, Value)>,
}

impl View for Namespace {
    type V = Map<Seq<Seq<char>>, ValueV>;

    closed spec fn view(&self) -> Map<Seq<Seq<char>>, ValueV> {
        entries_map(self.values@)
    }
}

impl Namespace {
    /// The binding list keeps its keys pairwise distinct.
    pub closed spec fn wf(&self) -> bool {
        entries_distinct(self.values@)
    }

    /// An empty namespace.
    pub fn new() -> (r: Self)
        ensures
            r@ == Map::<Seq<Seq<char>>, ValueV>::empty(),
            r.wf(),
    {
        let r = Namespace { values: Vec::new() };
        proof {
            assert(r@ =~= Map::<Seq<Seq<char>>, ValueV>::empty());
        }
        r
    }

    /// Position of the entry bound at `key`, if any.
    fn find(&self, key: &AbsoluteSymbolPath) -> (r: Option<usize>)
        ensures
            match r {
                Some(i) => i < self.values@.len() && self.values@[i as int].0@ == key@,
                None => forall|i: int|
                    0 <= i < self.values@.len() ==> (#[trigger] self.values@[i]).0@ != key@,
            },
    {
        let n = self.values.len();
        let mut i: usize = 0;
        while i < n
            invariant
                i <= n,
                n == self.values@.len(),
                forall|j: int| 0 <= j < i ==> (#[trigger] self.values@[j]).0@ != key@,
            decreases n - i,
        {
            if path_eq(&self.values[i].0, key) {
                return Some(i);
            }
            i = i + 1;
        }
        None
    }

    /// Bind `value` at `key`, overwriting any prior binding there.
    pub fn insert(&mut self, key: AbsoluteSymbolPath, value: Value)
        requires
            old(self).wf(),
        ensures
            final(self).wf(),
            final(self)@ == old(self)@.insert(key@, value@),
    {
        let ghost m0 = self@;
        let _ = self.remove(&key);
        let ghost s1 = self.values@;
        self.values.push((key, value));
        proof {
            assert(self.values@.drop_last() =~= s1);
            assert forall|x: int| 0 <= x < s1.len() implies (#[trigger] s1[x]).0@
                != self.values@.last().0@ by {
                lemma_entries_map_index(s1, x);
            }
            assert(entries_distinct(self.values@)) by {
                assert(forall|x: int| 0 <= x < s1.len() ==> (#[trigger] self.values@[x]) == s1[x]);
            }
            assert(self@ =~= m0.insert(self.values@.last().0@, self.values@.last().1@));
        }
    }

    /// Unbind and return the value at `key`, or `None` if it is unbound.
    pub fn remove(&mut self, key: &AbsoluteSymbolPath) -> (r: Option<Value>)
        requires
            old(self).wf(),
        ensures
            final(self).wf(),
            final(self)@ == old(self)@.remove(key@),
            match r {
                Some(v) => old(self)@.contains_key(key@) && v@ == old(self)@[key@],
                None => !old(self)@.contains_key(key@),
            },
    {
        match self.find(key) {
            Some(i) => {
                proof {
                    lemma_entries_map_index(self.values@, i as int);
                    lemma_entries_map_remove(self.values@, i as int);
                }
                let (_, v) = self.values.remove(i);
                Some(v)
            },
            None => {
                proof {
                    lemma_entries_map_no_key(self.values@, key@);
                    assert(self@.remove(key@) =~= self@);
                }
                None
            },
        }
    }

    /// The value bound at `key`, or `None` if it is unbound.
    pub fn resolve(&self, key: &AbsoluteSymbolPath) -> (r: Option<Value>)
        requires
            self.wf(),
        ensures
            match r {
                Some(v) => self@.contains_key(key@) && v@ == self@[key@],
                None => !self@.contains_key(key@),
            },
    {
        match self.find(key) {
            Some(i) => {
                proof {
                    lemma_entries_map_index(self.values@, i as int);
                }
                Some(self.values[i].1.clone())
            },
            None => {
                proof {
                    lemma_entries_map_no_key(self.values@, key@);
                }
                None
            },
        }
    }
}

/// Lookup with ancestor fallback, used for relative names during identifier
/// execution: try the relative segments joined onto the cursor, then onto
/// each ancestor of the cursor in turn, stopping at the first binding found
/// or at the root.
pub open spec fn spec_resolve_fallback(
    dict: Map<Seq<Seq<char>>, ValueV>,
    cur: Seq<Seq<char>>,
    rel: Seq<Seq<char>>,
) -> Option<ValueV>
    decreases cur.len(),
{
    if dict.contains_key(cur + rel) {
        Some(dict[cur + rel])
    } else if cur.len() == 0 {
        None
    } else {
        spec_resolve_fallback(dict, cur.drop_last(), rel)
    }
}

/// Ancestor fallback reaches the root: a relative name bound at the root and
/// shadowed by no ancestor of the cursor resolves to the root binding.
pub proof fn lemma_ancestor_fallback(
    dict: Map<Seq<Seq<char>>, ValueV>,
    cur: Seq<Seq<char>>,
    rel: Seq<Seq<char>>,
)
    requires
        dict.contains_key(Seq::<Seq<char>>::empty() + rel),
        forall|n: int|
            0 < n <= cur.len() ==> !dict.contains_key(#[trigger] cur.take(n) + rel),
    ensures
        spec_resolve_fallback(dict, cur, rel) == Some(dict[Seq::<Seq<char>>::empty() + rel]),
    decreases cur.len(),
{
    if cur.len() == 0 {
        assert(cur + rel =~= Seq::<Seq<char>>::empty() + rel);
    } else {
        assert(cur.take(cur.len() as int) =~= cur);
        assert(!dict.contains_key(cur + rel));
        assert forall|n: int|
            0 < n <= cur.drop_last().len() implies !dict.contains_key(
            #[trigger] cur.drop_last().take(n) + rel,
        ) by {
            assert(cur.drop_last().take(n) =~= cur.take(n));
        }
        lemma_ancestor_fallback(dict, cur.drop_last(), rel);
    }
}

} // verus!
