//! An ordered map from keys to tag values, as the JSON payload lists them.

use vstd::prelude::*;
use vstd::string::*;

use crate::text::chars_of;

verus! {

/// The value of a tag: text, or a double-precision number that is yet to be
/// shown as text.
#[derive(Debug, PartialEq, Eq)]
pub enum TagValue {
    Text(String),
    /// The IEEE 754 bits of the number.
    Float(u64),
}

/// The value of a tag, with its text as a sequence of characters.
pub ghost enum TagView {
    Text(Seq<char>),
    Float(u64),
}

impl View for TagValue {
    type V = TagView;

    open spec fn view(&self) -> TagView {
        match self {
            TagValue::Text(s) => TagView::Text(s@),
            TagValue::Float(bits) => TagView::Float(*bits),
        }
    }
}

/// Whether `a` comes before `b`: by the first character in which they differ,
/// or as its proper prefix.
pub open spec fn text_less(a: Seq<char>, b: Seq<char>) -> bool
    decreases a.len(),
{
    if b.len() == 0 {
        false
    } else if a.len() == 0 {
        true
    } else if a[0] == b[0] {
        text_less(a.drop_first(), b.drop_first())
    } else {
        a[0] < b[0]
    }
}

proof fn lemma_less_irreflexive(a: Seq<char>)
    ensures
        !text_less(a, a),
    decreases a.len(),
{
    if a.len() > 0 {
        lemma_less_irreflexive(a.drop_first());
    }
}

proof fn lemma_less_transitive(a: Seq<char>, b: Seq<char>, c: Seq<char>)
    requires
        text_less(a, b),
        text_less(b, c),
    ensures
        text_less(a, c),
    decreases a.len(),
{
    if a.len() > 0 && a[0] == b[0] && b[0] == c[0] {
        lemma_less_transitive(a.drop_first(), b.drop_first(), c.drop_first());
    }
}

/// Two texts compared.
#[derive(Clone, Copy, PartialEq, Eq, Structural)]
enum Order {
    Before,
    Same,
    After,
}

/// How two texts compare.
fn compare_texts(a: &str, b: &str) -> (r: Order)
    ensures
        r == Order::Before ==> text_less(a@, b@),
        r == Order::Same ==> a@ == b@,
        r == Order::After ==> text_less(b@, a@),
{
    let x = chars_of(a);
    let y = chars_of(b);
    let mut i: usize = 0;
    assert(a@.skip(0) =~= a@ && b@.skip(0) =~= b@);
    while i < x.len() && i < y.len() && x[i] == y[i]
        invariant
            x@ == a@,
            y@ == b@,
            i <= x@.len(),
            i <= y@.len(),
            forall|k: int| 0 <= k < i ==> a@[k] == b@[k],
            text_less(a@, b@) == text_less(a@.skip(i as int), b@.skip(i as int)),
            text_less(b@, a@) == text_less(b@.skip(i as int), a@.skip(i as int)),
        decreases x.len() - i,
    {
        assert(a@.skip(i as int).drop_first() =~= a@.skip(i + 1));
        assert(b@.skip(i as int).drop_first() =~= b@.skip(i + 1));
        assert(a@.skip(i as int)[0] == b@.skip(i as int)[0]);
        i += 1;
    }
    if i < x.len() && i < y.len() {
        assert(a@.skip(i as int)[0] == a@[i as int] && b@.skip(i as int)[0] == b@[i as int]);
        if x[i] < y[i] {
            Order::Before
        } else {
            Order::After
        }
    } else if i < y.len() {
        Order::Before
    } else if i < x.len() {
        Order::After
    } else {
        assert(a@ =~= b@);
        Order::Same
    }
}

/// Tags by key. They are held in the order of their keys, and no key is there
/// twice.
#[derive(Debug, PartialEq, Eq)]
pub struct Tags {
    entries: Vec<(String, TagValue)>,
}

/// Whether the keys are in order, and no key is there twice.
spec fn in_order(entries: Seq<(String, TagValue)>) -> bool {
    forall|i: int, j: int|
        0 <= i < j < entries.len() ==> text_less(
            (#[trigger] entries[i]).0@,
            (#[trigger] entries[j]).0@,
        )
}

/// The map that the entries write, the later ones in place of earlier ones.
spec fn as_map(entries: Seq<(String, TagValue)>) -> Map<Seq<char>, TagView>
    decreases entries.len(),
{
    if entries.len() == 0 {
        Map::empty()
    } else {
        as_map(entries.drop_last()).insert(entries.last().0@, entries.last().1@)
    }
}

proof fn lemma_as_map(entries: Seq<(String, TagValue)>)
    requires
        in_order(entries),
    ensures
        forall|i: int|
            0 <= i < entries.len() ==> as_map(entries).dom().contains((#[trigger] entries[i]).0@)
                && as_map(entries)[entries[i].0@] == entries[i].1@,
        forall|k: Seq<char>| #[trigger]
            as_map(entries).dom().contains(k) ==> exists|i: int|
                0 <= i < entries.len() && (#[trigger] entries[i]).0@ == k,
    decreases entries.len(),
{
    if entries.len() > 0 {
        let init = entries.drop_last();
        let last = entries.last();
        assert(in_order(init)) by {
            assert forall|i: int, j: int| 0 <= i < j < init.len() implies text_less(
                (#[trigger] init[i]).0@,
                (#[trigger] init[j]).0@,
            ) by {
                assert(init[i] == entries[i] && init[j] == entries[j]);
            }
        }
        lemma_as_map(init);
        assert forall|i: int| 0 <= i < entries.len() implies as_map(entries).dom().contains(
            (#[trigger] entries[i]).0@,
        ) && as_map(entries)[entries[i].0@] == entries[i].1@ by {
            if i < init.len() {
                assert(entries[i] == init[i]);
                assert(text_less(entries[i].0@, entries[entries.len() - 1].0@));
                lemma_less_irreflexive(last.0@);
            }
        }
        assert forall|k: Seq<char>| #[trigger] as_map(entries).dom().contains(k) implies exists|
            i: int,
        | 0 <= i < entries.len() && (#[trigger] entries[i]).0@ == k by {
            if k == last.0@ {
                assert(entries[entries.len() - 1].0@ == k);
            } else {
                assert(as_map(init).dom().contains(k));
                let i = choose|i: int| 0 <= i < init.len() && (#[trigger] init[i]).0@ == k;
                assert(entries[i].0@ == k);
            }
        }
    }
}

/// Two lists in order that hold the same keys and values write the same map.
proof fn lemma_as_map_is(entries: Seq<(String, TagValue)>, map: Map<Seq<char>, TagView>)
    requires
        in_order(entries),
        forall|i: int|
            0 <= i < entries.len() ==> map.dom().contains((#[trigger] entries[i]).0@)
                && map[entries[i].0@] == entries[i].1@,
        forall|k: Seq<char>| #[trigger]
            map.dom().contains(k) ==> exists|i: int|
                0 <= i < entries.len() && (#[trigger] entries[i]).0@ == k,
    ensures
        as_map(entries) == map,
{
    lemma_as_map(entries);
    assert forall|k: Seq<char>| as_map(entries).dom().contains(k) <==> map.dom().contains(k) by {
        if as_map(entries).dom().contains(k) {
            let i = choose|i: int| 0 <= i < entries.len() && (#[trigger] entries[i]).0@ == k;
            assert(map.dom().contains(entries[i].0@));
        }
        if map.dom().contains(k) {
            let i = choose|i: int| 0 <= i < entries.len() && (#[trigger] entries[i]).0@ == k;
            assert(as_map(entries).dom().contains(entries[i].0@));
        }
    }
    assert forall|k: Seq<char>| map.dom().contains(k) implies as_map(entries)[k] == map[k] by {
        let i = choose|i: int| 0 <= i < entries.len() && (#[trigger] entries[i]).0@ == k;
        assert(as_map(entries)[entries[i].0@] == entries[i].1@);
    }
    assert(as_map(entries) =~= map);
}

impl View for Tags {
    type V = Map<Seq<char>, TagView>;

    closed spec fn view(&self) -> Map<Seq<char>, TagView> {
        as_map(self.entries@)
    }
}

impl Tags {
    /// The keys are in order, and no key is there twice.
    pub closed spec fn wf(self) -> bool {
        in_order(self.entries@)
    }

    /// No tags.
    pub fn new() -> (r: Tags)
        ensures
            r.wf(),
            r@ == Map::<Seq<char>, TagView>::empty(),
    {
        Tags { entries: Vec::new() }
    }

    /// The position of the first key that does not come before the given one,
    /// and whether it is the same.
    fn position(&self, key: &str) -> (r: (usize, bool))
        requires
            self.wf(),
        ensures
            r.0 <= self.entries@.len(),
            forall|i: int| 0 <= i < r.0 ==> text_less((#[trigger] self.entries@[i]).0@, key@),
            r.1 ==> r.0 < self.entries@.len() && self.entries@[r.0 as int].0@ == key@,
            !r.1 ==> forall|i: int|
                r.0 <= i < self.entries@.len() ==> text_less(
                    key@,
                    (#[trigger] self.entries@[i]).0@,
                ),
    {
        let mut i: usize = 0;
        while i < self.entries.len()
            invariant
                self.wf(),
                i <= self.entries@.len(),
                forall|k: int| 0 <= k < i ==> text_less((#[trigger] self.entries@[k]).0@, key@),
            decreases self.entries.len() - i,
        {
            match compare_texts(self.entries[i].0.as_str(), key) {
                Order::Before => {
                    i += 1;
                },
                Order::Same => {
                    return (i, true);
                },
                Order::After => {
                    proof {
                        assert forall|k: int| i <= k < self.entries@.len() implies text_less(
                            key@,
                            (#[trigger] self.entries@[k]).0@,
                        ) by {
                            if k > i {
                                lemma_less_transitive(
                                    key@,
                                    self.entries@[i as int].0@,
                                    self.entries@[k].0@,
                                );
                            }
                        }
                    }
                    return (i, false);
                },
            }
        }
        (i, false)
    }

    /// Sets a tag, in place of any value that its key had.
    pub fn insert(&mut self, key: String, value: TagValue)
        requires
            old(self).wf(),
        ensures
            final(self).wf(),
            final(self)@ == old(self)@.insert(key@, value@),
    {
        let ghost before = self.entries@;
        let ghost map = as_map(before).insert(key@, value@);
        let (at, found) = self.position(key.as_str());
        proof {
            lemma_as_map(before);
        }
        if found {
            self.entries.set(at, (key, value));
            let ghost after = self.entries@;
            assert forall|i: int, j: int| 0 <= i < j < after.len() implies text_less(
                (#[trigger] after[i]).0@,
                (#[trigger] after[j]).0@,
            ) by {
                assert(after[i].0@ == before[i].0@ && after[j].0@ == before[j].0@);
            }
        } else {
            self.entries.insert(at, (key, value));
            let ghost after = self.entries@;
            assert(after =~= before.insert(at as int, (key, value)));
            assert forall|i: int, j: int| 0 <= i < j < after.len() implies text_less(
                (#[trigger] after[i]).0@,
                (#[trigger] after[j]).0@,
            ) by {
                if i < at {
                    assert(after[i] == before[i]);
                }
                if i > at {
                    assert(after[i] == before[i - 1]);
                }
                if j < at {
                    assert(after[j] == before[j]);
                }
                if j > at {
                    assert(after[j] == before[j - 1]);
                }
            }
        }
        proof {
            let after = self.entries@;
            assert forall|i: int| 0 <= i < after.len() implies map.dom().contains(
                (#[trigger] after[i]).0@,
            ) && map[after[i].0@] == after[i].1@ by {
                if i != at {
                    let k = if found || i < at {
                        i
                    } else {
                        i - 1
                    };
                    assert(after[i] == before[k]);
                    assert(before[k].0@ != key@) by {
                        lemma_less_irreflexive(key@);
                        if found && k < at {
                            assert(text_less(before[k].0@, before[at as int].0@));
                        } else if found {
                            assert(text_less(before[at as int].0@, before[k].0@));
                        }
                    }
                }
            }
            assert forall|k: Seq<char>| #[trigger] map.dom().contains(k) implies exists|i: int|
                0 <= i < after.len() && (#[trigger] after[i]).0@ == k by {
                if k == key@ {
                    assert(after[at as int].0@ == k);
                } else {
                    assert(as_map(before).dom().contains(k));
                    let i = choose|i: int| 0 <= i < before.len() && (#[trigger] before[i]).0@ == k;
                    let n = if found || i < at {
                        i
                    } else {
                        i + 1
                    };
                    assert(after[n].0@ == k);
                }
            }
            lemma_as_map_is(after, map);
        }
    }

    /// The value of a tag.
    pub fn get(&self, key: &str) -> (r: Option<&TagValue>)
        requires
            self.wf(),
        ensures
            match r {
                Some(v) => self@.dom().contains(key@) && self@[key@] == v@,
                None => !self@.dom().contains(key@),
            },
    {
        let (at, found) = self.position(key);
        proof {
            lemma_as_map(self.entries@);
        }
        if found {
            Some(&self.entries[at].1)
        } else {
            proof {
                if self@.dom().contains(key@) {
                    let i = choose|i: int|
                        0 <= i < self.entries@.len() && (#[trigger] self.entries@[i]).0@ == key@;
                    lemma_less_irreflexive(key@);
                    assert(text_less(self.entries@[i].0@, key@) || text_less(
                        key@,
                        self.entries@[i].0@,
                    ));
                }
            }
            None
        }
    }

    /// The tags in the order of their keys.
    pub fn entries(&self) -> (r: &Vec<(String, TagValue)>)
        requires
            self.wf(),
        ensures
            forall|i: int, j: int|
                0 <= i < j < r@.len() ==> text_less((#[trigger] r@[i]).0@, (#[trigger] r@[j]).0@),
            forall|i: int|
                0 <= i < r@.len() ==> self@.dom().contains((#[trigger] r@[i]).0@)
                    && self@[r@[i].0@] == r@[i].1@,
            forall|k: Seq<char>| #[trigger]
                self@.dom().contains(k) ==> exists|i: int|
                    0 <= i < r@.len() && (#[trigger] r@[i]).0@ == k,
    {
        proof {
            lemma_as_map(self.entries@);
        }
        &self.entries
    }
}

/// Texts are ordered by the first character in which they differ, and a text
/// comes before the longer ones that start with it.
pub proof fn law_text_order(a: Seq<char>, b: Seq<char>, at: int)
    requires
        0 <= at <= a.len(),
        at <= b.len(),
        forall|k: int| 0 <= k < at ==> a[k] == b[k],
    ensures
        at < a.len() && at < b.len() && a[at] < b[at] ==> text_less(a, b) && !text_less(b, a),
        at == a.len() && at < b.len() ==> text_less(a, b) && !text_less(b, a),
        at == a.len() && at == b.len() ==> !text_less(a, b) && !text_less(b, a),
    decreases at,
{
    if at > 0 {
        assert(a[0] == b[0]);
        assert forall|k: int| 0 <= k < at - 1 implies a.drop_first()[k] == b.drop_first()[k] by {
            assert(a[k + 1] == b[k + 1]);
        }
        law_text_order(a.drop_first(), b.drop_first(), at - 1);
    }
}

/// Of two different texts one comes before the other.
pub proof fn law_text_order_is_total(a: Seq<char>, b: Seq<char>, c: Seq<char>)
    ensures
        a != b ==> text_less(a, b) || text_less(b, a),
        !(text_less(a, b) && text_less(b, a)),
        text_less(a, b) && text_less(b, c) ==> text_less(a, c),
    decreases a.len(),
{
    if text_less(a, b) && text_less(b, a) {
        lemma_less_transitive(a, b, a);
        lemma_less_irreflexive(a);
    }
    if text_less(a, b) && text_less(b, c) {
        lemma_less_transitive(a, b, c);
    }
    if a.len() > 0 && b.len() > 0 && a[0] == b[0] {
        law_text_order_is_total(a.drop_first(), b.drop_first(), c);
        if a != b {
            assert(a.drop_first() != b.drop_first()) by {
                if a.drop_first() == b.drop_first() {
                    assert(a =~= seq![a[0]] + a.drop_first());
                    assert(b =~= seq![b[0]] + b.drop_first());
                }
            }
        }
    } else if a.len() == 0 && b.len() == 0 {
        assert(a =~= b);
    }
}

} // verus!
