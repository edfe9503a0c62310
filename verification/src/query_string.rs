use vstd::prelude::*;

use crate::text::{find_char, first_at, lemma_first_at, str_eq};

verus! {

/// The value bound to a query key: a key seen once keeps its single text,
/// a repeated key collects every occurrence in encounter order.
#[derive(Debug)]
pub enum Value<'buf> {
    Single(&'buf str),
    Multiple(Vec<&'buf str>),
}

impl<'buf> Value<'buf> {
    /// A `Multiple` only ever arises once a key has been seen twice.
    pub open spec fn wf(self) -> bool {
        self matches Value::Multiple(vs) ==> vs@.len() >= 2
    }
}

impl<'buf> View for Value<'buf> {
    type V = Seq<Seq<char>>;

    open spec fn view(&self) -> Seq<Seq<char>> {
        match self {
            Value::Single(v) => seq![v@],
            Value::Multiple(vs) => vs.deep_view(),
        }
    }
}

/// A well-formed value holding one text is a `Single` of exactly that text;
/// one holding two or more is a `Multiple` of exactly those texts in order.
pub proof fn lemma_value_shape<'buf>(v: Value<'buf>)
    requires
        v.wf(),
    ensures
        v@.len() >= 1,
        v@.len() == 1 ==> (v matches Value::Single(t) && v@ == seq![t@]),
        v@.len() >= 2 ==> (v matches Value::Multiple(vs) && v@ == vs.deep_view()),
{
    match v {
        Value::Single(_) => {},
        Value::Multiple(vs) => {
            assert(v@.len() == vs@.len());
        },
    }
}

/// The key of one `&`-separated segment: the text before the first `=`,
/// or the whole segment when it holds no `=`.
pub open spec fn spec_seg_key(seg: Seq<char>) -> Seq<char> {
    match first_at(seg, '=', 0) {
        Some(i) => seg.subrange(0, i),
        None => seg,
    }
}

/// The value of one `&`-separated segment: the text after the first `=`,
/// or the empty string when the segment holds no `=`.
pub open spec fn spec_seg_val(seg: Seq<char>) -> Seq<char> {
    match first_at(seg, '=', 0) {
        Some(i) => seg.subrange(i + 1, seg.len() as int),
        None => Seq::empty(),
    }
}

/// The segments of a query string, split on `&`.  An empty input yields one
/// empty segment; empty segments are kept.
pub open spec fn spec_split_amp(s: Seq<char>) -> Seq<Seq<char>>
    decreases s.len(),
    via spec_split_amp_decreases
{
    match first_at(s, '&', 0) {
        None => seq![s],
        Some(i) => seq![s.subrange(0, i)] + spec_split_amp(s.subrange(i + 1, s.len() as int)),
    }
}

#[via_fn]
proof fn spec_split_amp_decreases(s: Seq<char>) {
    lemma_first_at(s, '&', 0);
}

/// One insertion into the query mapping: a new key is bound to its value
/// alone, a known key has the value appended to those already seen.
pub open spec fn qs_insert(
    m: Map<Seq<char>, Seq<Seq<char>>>,
    k: Seq<char>,
    v: Seq<char>,
) -> Map<Seq<char>, Seq<Seq<char>>> {
    if m.dom().contains(k) {
        m.insert(k, m[k].push(v))
    } else {
        m.insert(k, seq![v])
    }
}

/// The query mapping built by inserting the given segments, left to right,
/// into `m`.
pub open spec fn qs_fold(
    segs: Seq<Seq<char>>,
    m: Map<Seq<char>, Seq<Seq<char>>>,
) -> Map<Seq<char>, Seq<Seq<char>>>
    decreases segs.len(),
{
    if segs.len() == 0 {
        m
    } else {
        qs_fold(segs.drop_first(), qs_insert(m, spec_seg_key(segs[0]), spec_seg_val(segs[0])))
    }
}

/// The mapping that parsing a query string must produce.
pub open spec fn spec_query_map(s: Seq<char>) -> Map<Seq<char>, Seq<Seq<char>>> {
    qs_fold(spec_split_amp(s), Map::empty())
}

/// The values of exactly those segments whose key is `k`, in encounter order.
pub open spec fn vals_of_key(segs: Seq<Seq<char>>, k: Seq<char>) -> Seq<Seq<char>>
    decreases segs.len(),
{
    if segs.len() == 0 {
        Seq::empty()
    } else {
        let rest = vals_of_key(segs.drop_first(), k);
        if spec_seg_key(segs[0]) == k {
            seq![spec_seg_val(segs[0])] + rest
        } else {
            rest
        }
    }
}

/// A mapping from borrowed query keys to their values; every borrowed slice
/// shares the lifetime of the query substring it was cut from.
#[derive(Debug)]
pub struct QueryString<'buf> {
    data: Vec<(&'buf str, Value<'buf>)>,
}

/// The mapping held by a list of key/value entries, later entries winning.
pub open spec fn entries_map<'a>(
    entries: Seq<(&'a str, Value<'a>)>,
) -> Map<Seq<char>, Seq<Seq<char>>>
    decreases entries.len(),
{
    if entries.len() == 0 {
        Map::empty()
    } else {
        entries_map(entries.drop_last()).insert(entries.last().0@, entries.last().1@)
    }
}

impl<'buf> View for QueryString<'buf> {
    type V = Map<Seq<char>, Seq<Seq<char>>>;

    closed spec fn view(&self) -> Map<Seq<char>, Seq<Seq<char>>> {
        entries_map(self.data@)
    }
}

impl<'buf> QueryString<'buf> {
    /// Keys are unique among the entries, and every value is well formed.
    pub closed spec fn wf(self) -> bool {
        &&& forall|i: int, j: int|
            0 <= i < j < self.data@.len() ==> self.data@[i].0@ != self.data@[j].0@
        &&& forall|i: int| 0 <= i < self.data@.len() ==> self.data@[i].1.wf()
    }

    /// One insertion step of the query string parser; mirrors `qs_insert`
    /// on the mapping.
    fn insert_pair(&mut self, key: &'buf str, val: &'buf str)
        requires
            old(self).wf(),
        ensures
            final(self).wf(),
            final(self)@ == qs_insert(old(self)@, key@, val@),
    {
        let n = self.data.len();
        let mut i: usize = 0;
        while i < n
            invariant
                0 <= i <= n,
                n == self.data@.len(),
                *self == *old(self),
                self.wf(),
                forall|j: int| 0 <= j < i ==> self.data@[j].0@ != key@,
            decreases n - i,
        {
            if str_eq(self.data[i].0, key) {
                let pair = self.data.remove(i);
                let new_value = match pair.1 {
                    Value::Single(prev) => {
                        let mut vs: Vec<&'buf str> = Vec::new();
                        vs.push(prev);
                        vs.push(val);
                        proof {
                            assert(vs.deep_view() =~= seq![prev@].push(val@));
                        }
                        Value::Multiple(vs)
                    },
                    Value::Multiple(mut vs) => {
                        let ghost vs0 = vs.deep_view();
                        vs.push(val);
                        proof {
                            assert(vs.deep_view() =~= vs0.push(val@));
                        }
                        Value::Multiple(vs)
                    },
                };
                let entry = (pair.0, new_value);
                self.data.insert(i, entry);
                proof {
                    let entries = old(self).data@;
                    assert(self.data@ =~= entries.update(i as int, entry));
                    lemma_entries_map_index(entries, i as int);
                    lemma_entries_map_update(entries, i as int, entry);
                    assert(entry.1@ == entries[i as int].1@.push(val@));
                    assert(final(self)@ == qs_insert(old(self)@, key@, val@));
                }
                return;
            }
            i = i + 1;
        }
        self.data.push((key, Value::Single(val)));
        proof {
            let entries = old(self).data@;
            lemma_entries_map_absent(entries, key@);
            assert(self.data@.drop_last() =~= entries);
            assert(final(self)@ =~= qs_insert(old(self)@, key@, val@));
        }
    }

    /// Looks a key up in the mapping.
    pub fn get<'a>(&'a self, key: &str) -> (r: Option<&'a Value<'buf>>)
        requires
            self.wf(),
        ensures
            (match r {
                Some(v) => self@.dom().contains(key@) && v@ == self@[key@] && v.wf(),
                None => !self@.dom().contains(key@),
            }),
    {
        let n = self.data.len();
        let mut i: usize = 0;
        while i < n
            invariant
                0 <= i <= n,
                n == self.data@.len(),
                self.wf(),
                forall|j: int| 0 <= j < i ==> self.data@[j].0@ != key@,
            decreases n - i,
        {
            if str_eq(self.data[i].0, key) {
                proof {
                    lemma_entries_map_index(self.data@, i as int);
                }
                return Some(&self.data[i].1);
            }
            i = i + 1;
        }
        proof {
            lemma_entries_map_absent(self.data@, key@);
        }
        None
    }

    /// Parses the portion of a URL after `?` into the query mapping.  Any
    /// input parses; there is no error path.
    pub fn from(s: &'buf str) -> (r: QueryString<'buf>)
        ensures
            r.wf(),
            r@ == spec_query_map(s@),
    {
        let mut qs = QueryString { data: Vec::new() };
        proof {
            assert(qs@ =~= Map::<Seq<char>, Seq<Seq<char>>>::empty());
        }
        let mut rest: &'buf str = s;
        loop
            invariant
                qs.wf(),
                qs_fold(spec_split_amp(rest@), qs@) == spec_query_map(s@),
            decreases rest@.len(),
        {
            let n = rest.unicode_len();
            match find_char(rest, '&') {
                Some(i) => {
                    proof {
                        lemma_first_at(rest@, '&', 0);
                    }
                    let seg = rest.substring_char(0, i);
                    let (k, v) = split_segment(seg);
                    let ghost m0 = qs@;
                    qs.insert_pair(k, v);
                    let next = rest.substring_char(i + 1, n);
                    proof {
                        let segs = spec_split_amp(rest@);
                        assert(segs == seq![seg@] + spec_split_amp(next@));
                        assert(segs.drop_first() =~= spec_split_amp(next@));
                        assert(qs_fold(segs, m0) == qs_fold(spec_split_amp(next@), qs@));
                    }
                    rest = next;
                },
                None => {
                    let (k, v) = split_segment(rest);
                    let ghost m0 = qs@;
                    qs.insert_pair(k, v);
                    proof {
                        let segs = spec_split_amp(rest@);
                        assert(segs == seq![rest@]);
                        assert(segs.len() == 1 && segs[0] == rest@);
                        assert(segs.drop_first() =~= Seq::<Seq<char>>::empty());
                        let m1 = qs_insert(m0, spec_seg_key(rest@), spec_seg_val(rest@));
                        assert(qs_fold(segs, m0) == qs_fold(segs.drop_first(), m1));
                        assert(qs_fold(segs.drop_first(), m1) == m1);
                        assert(qs_fold(segs, m0) == qs@);
                    }
                    return qs;
                },
            }
        }
    }
}

/// Cuts one segment into its key and its value: the text before and after
/// the first `=`, or the whole segment and the empty string.
fn split_segment<'a>(seg: &'a str) -> (r: (&'a str, &'a str))
    ensures
        r.0@ == spec_seg_key(seg@),
        r.1@ == spec_seg_val(seg@),
{
    let n = seg.unicode_len();
    match find_char(seg, '=') {
        Some(i) => {
            proof {
                lemma_first_at(seg@, '=', 0);
            }
            (seg.substring_char(0, i), seg.substring_char(i + 1, n))
        },
        None => {
            proof {
                reveal_strlit("");
                assert(""@ =~= Seq::<char>::empty());
            }
            (seg, "")
        },
    }
}

proof fn lemma_qs_fold_key(segs: Seq<Seq<char>>, m: Map<Seq<char>, Seq<Seq<char>>>, k: Seq<char>)
    ensures
        qs_fold(segs, m).dom().contains(k) <==> (m.dom().contains(k) || vals_of_key(segs, k).len()
            > 0),
        m.dom().contains(k) ==> qs_fold(segs, m)[k] == m[k] + vals_of_key(segs, k),
        (!m.dom().contains(k) && vals_of_key(segs, k).len() > 0) ==> qs_fold(segs, m)[k]
            == vals_of_key(segs, k),
    decreases segs.len(),
{
    if segs.len() == 0 {
        if m.dom().contains(k) {
            assert(m[k] + vals_of_key(segs, k) =~= m[k]);
        }
    } else {
        let k0 = spec_seg_key(segs[0]);
        let v0 = spec_seg_val(segs[0]);
        let m1 = qs_insert(m, k0, v0);
        let rest = segs.drop_first();
        lemma_qs_fold_key(rest, m1, k);
        if k0 == k {
            if m.dom().contains(k) {
                assert(m1[k] + vals_of_key(rest, k) =~= m[k] + vals_of_key(segs, k));
            } else {
                assert(seq![v0] + vals_of_key(rest, k) =~= vals_of_key(segs, k));
            }
        }
    }
}

/// Every key of the query mapping is bound to the values of exactly the
/// segments that carry that key, in encounter order; a key carried by no
/// segment is absent.
pub proof fn lemma_query_map_values(s: Seq<char>, k: Seq<char>)
    ensures
        spec_query_map(s).dom().contains(k) <==> vals_of_key(spec_split_amp(s), k).len() > 0,
        spec_query_map(s).dom().contains(k) ==> spec_query_map(s)[k] == vals_of_key(
            spec_split_amp(s),
            k,
        ),
{
    lemma_qs_fold_key(spec_split_amp(s), Map::empty(), k);
}

proof fn lemma_vals_of_key_absent(segs: Seq<Seq<char>>, k: Seq<char>)
    requires
        forall|j: int| 0 <= j < segs.len() ==> spec_seg_key(segs[j]) != k,
    ensures
        vals_of_key(segs, k).len() == 0,
    decreases segs.len(),
{
    if segs.len() > 0 {
        lemma_vals_of_key_absent(segs.drop_first(), k);
    }
}

proof fn lemma_vals_of_key_one(segs: Seq<Seq<char>>, i: int, k: Seq<char>)
    requires
        0 <= i < segs.len(),
        spec_seg_key(segs[i]) == k,
        forall|j: int| 0 <= j < segs.len() && j != i ==> spec_seg_key(segs[j]) != k,
    ensures
        vals_of_key(segs, k) == seq![spec_seg_val(segs[i])],
    decreases segs.len(),
{
    let rest = segs.drop_first();
    if i == 0 {
        assert forall|j: int| 0 <= j < rest.len() implies spec_seg_key(rest[j]) != k by {
            assert(rest[j] == segs[j + 1]);
        }
        lemma_vals_of_key_absent(rest, k);
        assert(vals_of_key(segs, k) =~= seq![spec_seg_val(segs[i])]);
    } else {
        assert forall|j: int| 0 <= j < rest.len() && j != i - 1 implies spec_seg_key(rest[j]) != k
            by {
            assert(rest[j] == segs[j + 1]);
        }
        assert(rest[i - 1] == segs[i]);
        lemma_vals_of_key_one(rest, i - 1, k);
    }
}

proof fn lemma_vals_of_key_two(segs: Seq<Seq<char>>, i1: int, i2: int, k: Seq<char>)
    requires
        0 <= i1 < i2 < segs.len(),
        spec_seg_key(segs[i1]) == k,
        spec_seg_key(segs[i2]) == k,
        forall|j: int| 0 <= j < segs.len() && j != i1 && j != i2 ==> spec_seg_key(segs[j]) != k,
    ensures
        vals_of_key(segs, k) == seq![spec_seg_val(segs[i1]), spec_seg_val(segs[i2])],
    decreases segs.len(),
{
    let rest = segs.drop_first();
    if i1 == 0 {
        assert forall|j: int| 0 <= j < rest.len() && j != i2 - 1 implies spec_seg_key(rest[j]) != k
            by {
            assert(rest[j] == segs[j + 1]);
        }
        assert(rest[i2 - 1] == segs[i2]);
        lemma_vals_of_key_one(rest, i2 - 1, k);
        assert(vals_of_key(segs, k) =~= seq![spec_seg_val(segs[i1]), spec_seg_val(segs[i2])]);
    } else {
        assert forall|j: int| 0 <= j < rest.len() && j != i1 - 1 && j != i2 - 1 implies spec_seg_key(
            rest[j],
        ) != k by {
            assert(rest[j] == segs[j + 1]);
        }
        assert(rest[i1 - 1] == segs[i1]);
        assert(rest[i2 - 1] == segs[i2]);
        lemma_vals_of_key_two(rest, i1 - 1, i2 - 1, k);
    }
}

/// A key that occurs in exactly one segment of a query string is bound to
/// exactly that segment's value: the text after its first `=`, or the empty
/// string when the segment holds no `=`.
pub proof fn lemma_lone_key_single_value(s: Seq<char>, i: int)
    requires
        0 <= i < spec_split_amp(s).len(),
        forall|j: int|
            0 <= j < spec_split_amp(s).len() && j != i ==> spec_seg_key(spec_split_amp(s)[j])
                != spec_seg_key(spec_split_amp(s)[i]),
    ensures
        spec_query_map(s).dom().contains(spec_seg_key(spec_split_amp(s)[i])),
        spec_query_map(s)[spec_seg_key(spec_split_amp(s)[i])] == seq![
            spec_seg_val(spec_split_amp(s)[i]),
        ],
{
    let segs = spec_split_amp(s);
    let k = spec_seg_key(segs[i]);
    lemma_vals_of_key_one(segs, i, k);
    lemma_query_map_values(s, k);
}

/// A key that occurs in exactly two segments of a query string is bound to
/// exactly those two segments' values, in encounter order.
pub proof fn lemma_twice_key_two_values(s: Seq<char>, i1: int, i2: int)
    requires
        0 <= i1 < i2 < spec_split_amp(s).len(),
        spec_seg_key(spec_split_amp(s)[i1]) == spec_seg_key(spec_split_amp(s)[i2]),
        forall|j: int|
            0 <= j < spec_split_amp(s).len() && j != i1 && j != i2 ==> spec_seg_key(
                spec_split_amp(s)[j],
            ) != spec_seg_key(spec_split_amp(s)[i1]),
    ensures
        spec_query_map(s).dom().contains(spec_seg_key(spec_split_amp(s)[i1])),
        spec_query_map(s)[spec_seg_key(spec_split_amp(s)[i1])] == seq![
            spec_seg_val(spec_split_amp(s)[i1]),
            spec_seg_val(spec_split_amp(s)[i2]),
        ],
{
    let segs = spec_split_amp(s);
    let k = spec_seg_key(segs[i1]);
    lemma_vals_of_key_two(segs, i1, i2, k);
    lemma_query_map_values(s, k);
}

proof fn lemma_entries_map_index<'a>(entries: Seq<(&'a str, Value<'a>)>, i: int)
    requires
        0 <= i < entries.len(),
        forall|p: int, q: int| 0 <= p < q < entries.len() ==> entries[p].0@ != entries[q].0@,
    ensures
        entries_map(entries).dom().contains(entries[i].0@),
        entries_map(entries)[entries[i].0@] == entries[i].1@,
    decreases entries.len(),
{
    if i < entries.len() - 1 {
        lemma_entries_map_index(entries.drop_last(), i);
    }
}

proof fn lemma_entries_map_absent<'a>(entries: Seq<(&'a str, Value<'a>)>, k: Seq<char>)
    requires
        forall|i: int| 0 <= i < entries.len() ==> entries[i].0@ != k,
    ensures
        !entries_map(entries).dom().contains(k),
    decreases entries.len(),
{
    if entries.len() > 0 {
        lemma_entries_map_absent(entries.drop_last(), k);
    }
}

proof fn lemma_entries_map_update<'a>(
    entries: Seq<(&'a str, Value<'a>)>,
    i: int,
    e2: (&'a str, Value<'a>),
)
    requires
        0 <= i < entries.len(),
        forall|p: int, q: int| 0 <= p < q < entries.len() ==> entries[p].0@ != entries[q].0@,
        e2.0@ == entries[i].0@,
    ensures
        entries_map(entries.update(i, e2)) == entries_map(entries).insert(e2.0@, e2.1@),
    decreases entries.len(),
{
    let upd = entries.update(i, e2);
    if i == entries.len() - 1 {
        assert(upd.drop_last() =~= entries.drop_last());
        assert(entries_map(upd) =~= entries_map(entries).insert(e2.0@, e2.1@));
    } else {
        assert(upd.drop_last() =~= entries.drop_last().update(i, e2));
        lemma_entries_map_update(entries.drop_last(), i, e2);
        assert(entries.drop_last()[i] == entries[i]);
        assert(upd.last() == entries.last());
        assert(entries[i].0@ != entries.last().0@);
        assert(entries_map(upd) =~= entries_map(entries).insert(e2.0@, e2.1@));
    }
}

} // verus!
