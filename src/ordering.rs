//! The order in which canonical requests list their entries, and a sort
//! that puts name/value entries in that order.

use vstd::prelude::*;
use vstd::utf8::encode_utf8;

verus! {

/// A name/value entry as text.
pub type Entry = (Seq<char>, Seq<char>);

/// `a` comes strictly before `b` in lexicographic byte order; a proper
/// prefix comes before the longer sequence.
pub open spec fn bytes_lt(a: Seq<u8>, b: Seq<u8>) -> bool
    decreases a.len(),
{
    if a.len() == 0 {
        b.len() > 0
    } else if b.len() == 0 {
        false
    } else if a[0] != b[0] {
        a[0] < b[0]
    } else {
        bytes_lt(a.drop_first(), b.drop_first())
    }
}

/// `a` comes strictly before `b` when both are compared by their UTF-8 bytes,
/// which is also the order of their code points.
pub open spec fn text_lt(a: Seq<char>, b: Seq<char>) -> bool {
    bytes_lt(encode_utf8(a), encode_utf8(b))
}

/// Entries are ordered by name, and entries with equal names by value.
pub open spec fn entry_lt(x: Entry, y: Entry) -> bool {
    text_lt(x.0, y.0) || (x.0 == y.0 && text_lt(x.1, y.1))
}

/// The position at which `x` joins `s`: after every entry that does not
/// come after it.
pub open spec fn insertion_point(s: Seq<Entry>, x: Entry) -> int
    decreases s.len(),
{
    if s.len() == 0 {
        0
    } else if entry_lt(x, s[0]) {
        0
    } else {
        1 + insertion_point(s.drop_first(), x)
    }
}

/// The entries of `s` in order, taken one at a time from the front and each
/// placed after the entries not greater than it.
pub open spec fn sorted_entries(s: Seq<Entry>) -> Seq<Entry>
    decreases s.len(),
{
    if s.len() == 0 {
        s
    } else {
        let rest = sorted_entries(s.drop_last());
        rest.insert(insertion_point(rest, s.last()), s.last())
    }
}

/// The text of each entry of a list of string pairs.
pub open spec fn entries_view(v: Seq<(String, String)>) -> Seq<Entry> {
    v.map_values(|p: (String, String)| (p.0@, p.1@))
}

proof fn lemma_insertion_point_bounds(s: Seq<Entry>, x: Entry)
    ensures
        0 <= insertion_point(s, x) <= s.len(),
    decreases s.len(),
{
    if s.len() > 0 {
        lemma_insertion_point_bounds(s.drop_first(), x);
    }
}

proof fn lemma_insertion_point_at(s: Seq<Entry>, x: Entry, j: int)
    requires
        0 <= j <= s.len(),
        forall|k: int| 0 <= k < j ==> !entry_lt(x, #[trigger] s[k]),
        j == s.len() || entry_lt(x, s[j]),
    ensures
        insertion_point(s, x) == j,
    decreases j,
{
    if j > 0 {
        let t = s.drop_first();
        assert forall|k: int| 0 <= k < j - 1 implies !entry_lt(x, #[trigger] t[k]) by {
            assert(t[k] == s[k + 1]);
        }
        if j < s.len() {
            assert(t[j - 1] == s[j]);
        }
        lemma_insertion_point_at(t, x, j - 1);
        assert(!entry_lt(x, s[0]));
    }
}

/// Whether `a` comes strictly before `b` in lexicographic byte order.
pub fn bytes_less(a: &[u8], b: &[u8]) -> (r: bool)
    ensures
        r == bytes_lt(a@, b@),
{
    let mut i: usize = 0;
    assert(a@.skip(0) =~= a@ && b@.skip(0) =~= b@);
    while i < a.len() && i < b.len()
        invariant
            0 <= i <= a@.len(),
            i <= b@.len(),
            bytes_lt(a@, b@) == bytes_lt(a@.skip(i as int), b@.skip(i as int)),
        decreases a@.len() - i,
    {
        if a[i] != b[i] {
            return a[i] < b[i];
        }
        assert(a@.skip(i as int).drop_first() =~= a@.skip(i + 1));
        assert(b@.skip(i as int).drop_first() =~= b@.skip(i + 1));
        i = i + 1;
    }
    i < b.len()
}

/// Whether `a` comes strictly before `b` by their UTF-8 bytes.
pub fn text_less(a: &str, b: &str) -> (r: bool)
    ensures
        r == text_lt(a@, b@),
{
    bytes_less(a.as_bytes(), b.as_bytes())
}

/// Whether entry `x` comes strictly before entry `y`.
pub fn entry_less(x: &(String, String), y: &(String, String)) -> (r: bool)
    ensures
        r == entry_lt((x.0@, x.1@), (y.0@, y.1@)),
{
    if text_less(x.0.as_str(), y.0.as_str()) {
        true
    } else if x.0 == y.0 {
        text_less(x.1.as_str(), y.1.as_str())
    } else {
        false
    }
}

/// The entries of `v` in entry order; entries that are equal keep no
/// particular order, as they cannot be told apart.
pub fn sort_entries(v: &Vec<(String, String)>) -> (r: Vec<(String, String)>)
    ensures
        entries_view(r@) == sorted_entries(entries_view(v@)),
{
    let mut r: Vec<(String, String)> = Vec::new();
    let mut i: usize = 0;
    while i < v.len()
        invariant
            0 <= i <= v@.len(),
            entries_view(r@) == sorted_entries(entries_view(v@).take(i as int)),
        decreases v@.len() - i,
    {
        let x = (v[i].0.clone(), v[i].1.clone());
        let ghost rs = entries_view(r@);
        let ghost xe = (x.0@, x.1@);
        let mut j: usize = 0;
        while j < r.len() && !entry_less(&x, &r[j])
            invariant
                0 <= j <= r@.len(),
                rs == entries_view(r@),
                xe == (x.0@, x.1@),
                forall|k: int| 0 <= k < j ==> !entry_lt(xe, #[trigger] rs[k]),
            decreases r@.len() - j,
        {
            j = j + 1;
        }
        proof {
            lemma_insertion_point_at(rs, xe, j as int);
            let pre = entries_view(v@).take(i + 1);
            assert(pre.drop_last() =~= entries_view(v@).take(i as int));
            assert(pre.last() == xe);
        }
        r.insert(j, x);
        assert(entries_view(r@) =~= rs.insert(j as int, xe));
        i = i + 1;
    }
    assert(entries_view(v@).take(v@.len() as int) =~= entries_view(v@));
    r
}

/// The entries of `s` are in entry order.
pub open spec fn is_ordered(s: Seq<Entry>) -> bool {
    forall|i: int, j: int| 0 <= i < j < s.len() ==> !entry_lt(#[trigger] s[j], #[trigger] s[i])
}

proof fn lemma_bytes_lt_irreflexive(a: Seq<u8>)
    ensures
        !bytes_lt(a, a),
    decreases a.len(),
{
    if a.len() > 0 {
        lemma_bytes_lt_irreflexive(a.drop_first());
    }
}

proof fn lemma_bytes_lt_transitive(a: Seq<u8>, b: Seq<u8>, c: Seq<u8>)
    requires
        bytes_lt(a, b),
        bytes_lt(b, c),
    ensures
        bytes_lt(a, c),
    decreases a.len(),
{
    if a.len() > 0 && b.len() > 0 && c.len() > 0 && a[0] == b[0] && b[0] == c[0] {
        lemma_bytes_lt_transitive(a.drop_first(), b.drop_first(), c.drop_first());
    }
}

proof fn lemma_bytes_lt_total(a: Seq<u8>, b: Seq<u8>)
    requires
        a != b,
    ensures
        bytes_lt(a, b) || bytes_lt(b, a),
    decreases a.len(),
{
    if a.len() > 0 && b.len() > 0 && a[0] == b[0] {
        if a.drop_first() == b.drop_first() {
            assert(a =~= seq![a[0]] + a.drop_first());
            assert(b =~= seq![b[0]] + b.drop_first());
        }
        lemma_bytes_lt_total(a.drop_first(), b.drop_first());
    } else if a.len() == 0 && b.len() == 0 {
        assert(a =~= b);
    }
}

proof fn lemma_text_lt_total(a: Seq<char>, b: Seq<char>)
    requires
        a != b,
    ensures
        text_lt(a, b) || text_lt(b, a),
{
    if encode_utf8(a) == encode_utf8(b) {
        crate::text::lemma_utf8_injective(a, b);
    }
    lemma_bytes_lt_total(encode_utf8(a), encode_utf8(b));
}

/// Entry order is a strict total order.
pub proof fn lemma_entry_order(x: Entry, y: Entry, z: Entry)
    ensures
        !entry_lt(x, x),
        entry_lt(x, y) && entry_lt(y, z) ==> entry_lt(x, z),
        x != y ==> entry_lt(x, y) || entry_lt(y, x),
{
    lemma_bytes_lt_irreflexive(encode_utf8(x.0));
    lemma_bytes_lt_irreflexive(encode_utf8(x.1));
    if entry_lt(x, y) && entry_lt(y, z) {
        if text_lt(x.0, y.0) && text_lt(y.0, z.0) {
            lemma_bytes_lt_transitive(encode_utf8(x.0), encode_utf8(y.0), encode_utf8(z.0));
        }
        if x.0 == y.0 && y.0 == z.0 {
            lemma_bytes_lt_transitive(encode_utf8(x.1), encode_utf8(y.1), encode_utf8(z.1));
        }
    }
    if x != y {
        if x.0 != y.0 {
            lemma_text_lt_total(x.0, y.0);
        } else {
            lemma_text_lt_total(x.1, y.1);
        }
    }
}

proof fn lemma_insertion_point_facts(s: Seq<Entry>, x: Entry)
    ensures
        0 <= insertion_point(s, x) <= s.len(),
        forall|k: int| 0 <= k < insertion_point(s, x) ==> !entry_lt(x, #[trigger] s[k]),
        insertion_point(s, x) < s.len() ==> entry_lt(x, s[insertion_point(s, x)]),
    decreases s.len(),
{
    if s.len() > 0 && !entry_lt(x, s[0]) {
        let t = s.drop_first();
        lemma_insertion_point_facts(t, x);
        assert forall|k: int| 0 <= k < insertion_point(s, x) implies !entry_lt(x, #[trigger] s[k]) by {
            if k > 0 {
                assert(s[k] == t[k - 1]);
            }
        }
    }
}

proof fn lemma_insert_keeps_order(s: Seq<Entry>, x: Entry)
    requires
        is_ordered(s),
    ensures
        is_ordered(s.insert(insertion_point(s, x), x)),
{
    let p = insertion_point(s, x);
    lemma_insertion_point_facts(s, x);
    let t = s.insert(p, x);
    s.insert_ensures(p, x);
    assert forall|i: int, j: int| 0 <= i < j < t.len() implies !entry_lt(#[trigger] t[j], #[trigger] t[i]) by {
        if j < p {
        } else if j == p {
            assert(t[i] == s[i]);
        } else if i < p {
            assert(t[j] == s[j - 1]);
            assert(t[i] == s[i]);
            assert(!entry_lt(s[j - 1], s[i]));
        } else if i == p {
            let y = s[j - 1];
            assert(t[j] == y);
            lemma_entry_order(x, s[p], y);
            lemma_entry_order(y, x, y);
            lemma_entry_order(s[p], y, x);
            if s[p] != y {
                assert(!entry_lt(y, s[p]));
            }
        } else {
            assert(t[j] == s[j - 1]);
            assert(t[i] == s[i - 1]);
        }
    }
}

/// The sort puts the entries in entry order and keeps each of them.
pub proof fn lemma_sorted_entries(s: Seq<Entry>)
    ensures
        is_ordered(sorted_entries(s)),
        sorted_entries(s).to_multiset() == s.to_multiset(),
    decreases s.len(),
{
    broadcast use vstd::seq_lib::group_to_multiset_ensures;

    if s.len() > 0 {
        let rest = sorted_entries(s.drop_last());
        lemma_sorted_entries(s.drop_last());
        lemma_insert_keeps_order(rest, s.last());
        lemma_insertion_point_bounds(rest, s.last());
        assert(s.drop_last().push(s.last()) =~= s);
    }
}

/// Two ordered sequences that hold the same entries are equal.
pub proof fn lemma_ordered_unique(a: Seq<Entry>, b: Seq<Entry>)
    requires
        is_ordered(a),
        is_ordered(b),
        a.to_multiset() == b.to_multiset(),
    ensures
        a == b,
    decreases a.len(),
{
    broadcast use vstd::seq_lib::group_to_multiset_ensures;

    if a.len() == 0 {
        assert(b.to_multiset().len() == 0);
        assert(a =~= b);
    } else {
        assert(a.to_multiset().len() == a.len());
        assert(b.to_multiset().len() == b.len());
        assert(b.len() > 0);
        assert(a.to_multiset().count(a[0]) > 0);
        assert(b.contains(a[0]));
        let j = choose|j: int| 0 <= j < b.len() && b[j] == a[0];
        assert(b.to_multiset().count(b[0]) > 0);
        assert(a.contains(b[0]));
        let i = choose|i: int| 0 <= i < a.len() && a[i] == b[0];
        lemma_entry_order(a[0], b[0], a[0]);
        if j > 0 {
            assert(!entry_lt(b[j], b[0]));
        }
        if i > 0 {
            assert(!entry_lt(a[i], a[0]));
        }
        assert(a[0] == b[0]);
        assert(a.remove(0) =~= a.drop_first());
        assert(b.remove(0) =~= b.drop_first());
        let ta = a.drop_first();
        let tb = b.drop_first();
        assert(is_ordered(ta)) by {
            assert forall|i: int, j: int| 0 <= i < j < ta.len() implies !entry_lt(#[trigger] ta[j], #[trigger] ta[i]) by {
                assert(ta[j] == a[j + 1] && ta[i] == a[i + 1]);
            }
        }
        assert(is_ordered(tb)) by {
            assert forall|i: int, j: int| 0 <= i < j < tb.len() implies !entry_lt(#[trigger] tb[j], #[trigger] tb[i]) by {
                assert(tb[j] == b[j + 1] && tb[i] == b[i + 1]);
            }
        }
        lemma_ordered_unique(ta, tb);
        assert(a =~= seq![a[0]] + ta);
        assert(b =~= seq![b[0]] + tb);
    }
}

/// Sorting two sequences that hold the same entries gives one result.
pub proof fn lemma_sorted_entries_order_free(a: Seq<Entry>, b: Seq<Entry>)
    requires
        a.to_multiset() == b.to_multiset(),
    ensures
        sorted_entries(a) == sorted_entries(b),
{
    lemma_sorted_entries(a);
    lemma_sorted_entries(b);
    lemma_ordered_unique(sorted_entries(a), sorted_entries(b));
}

/// Applying one function to each element of two sequences that hold the
/// same elements gives two sequences that hold the same elements.
pub proof fn lemma_map_keeps_multiset<A, B>(a: Seq<A>, b: Seq<A>, f: spec_fn(A) -> B)
    requires
        a.to_multiset() == b.to_multiset(),
    ensures
        a.map_values(f).to_multiset() == b.map_values(f).to_multiset(),
    decreases a.len(),
{
    broadcast use vstd::seq_lib::group_to_multiset_ensures;

    if a.len() == 0 {
        assert(b.to_multiset().len() == 0);
        assert(b.len() == 0);
        assert(a.map_values(f) =~= b.map_values(f));
    } else {
        let x = a.last();
        assert(a.to_multiset().count(x) > 0);
        assert(b.contains(x));
        let j = choose|j: int| 0 <= j < b.len() && b[j] == x;
        assert(a.drop_last().push(x) =~= a);
        assert(a.drop_last().to_multiset() == a.to_multiset().remove(x));
        assert(b.remove(j).to_multiset() == b.to_multiset().remove(x));
        lemma_map_keeps_multiset(a.drop_last(), b.remove(j), f);
        assert(a.map_values(f) =~= a.drop_last().map_values(f).push(f(x)));
        assert(b.map_values(f) =~= b.remove(j).map_values(f).insert(j, f(x)));
    }
}

} // verus!
