//! Query parameters of a request: an insertion-ordered map from names to
//! values, in which each name occurs at most once.

use vstd::prelude::*;

verus! {

/// The name of the pair at index `i`.
pub open spec fn key_at(pairs: Seq<(Seq<char>, Seq<char>)>, i: int) -> Seq<char> {
    pairs[i].0
}

/// No name occurs twice.
pub open spec fn unique_keys(pairs: Seq<(Seq<char>, Seq<char>)>) -> bool {
    forall|i: int, j: int|
        0 <= i < pairs.len() && 0 <= j < pairs.len() && i != j ==> key_at(pairs, i) != key_at(pairs, j)
}

/// Whether `k` is the name of some pair.
pub open spec fn has_key(pairs: Seq<(Seq<char>, Seq<char>)>, k: Seq<char>) -> bool {
    exists|i: int| 0 <= i < pairs.len() && key_at(pairs, i) == k
}

/// The value paired with `k`, if any.
pub open spec fn lookup(pairs: Seq<(Seq<char>, Seq<char>)>, k: Seq<char>) -> Option<Seq<char>> {
    if has_key(pairs, k) {
        Some(pairs[choose|i: int| 0 <= i < pairs.len() && key_at(pairs, i) == k].1)
    } else {
        None
    }
}

/// The pairs after `insert(k, v)`: the value of an existing pair named `k` is
/// replaced in place, otherwise the pair is appended.
pub open spec fn inserted(pairs: Seq<(Seq<char>, Seq<char>)>, k: Seq<char>, v: Seq<char>) -> Seq<(Seq<char>, Seq<char>)> {
    if has_key(pairs, k) {
        pairs.update(choose|i: int| 0 <= i < pairs.len() && key_at(pairs, i) == k, (k, v))
    } else {
        pairs.push((k, v))
    }
}

/// The names and values of a vector of pairs of strings.
pub open spec fn pairs_view(pairs: Seq<(String, String)>) -> Seq<(Seq<char>, Seq<char>)> {
    pairs.map_values(|p: (String, String)| (p.0@, p.1@))
}

/// Replacing the value of the pair at `i` keeps the names unique.
proof fn lemma_update_keeps_unique(pairs: Seq<(Seq<char>, Seq<char>)>, i: int, v: Seq<char>)
    requires
        unique_keys(pairs),
        0 <= i < pairs.len(),
    ensures
        unique_keys(pairs.update(i, (key_at(pairs, i), v))),
{
    let new = pairs.update(i, (key_at(pairs, i), v));
    assert forall|a: int, b: int|
        0 <= a < new.len() && 0 <= b < new.len() && a != b implies key_at(new, a) != key_at(new, b) by {
        assert(key_at(new, a) == key_at(pairs, a));
        assert(key_at(new, b) == key_at(pairs, b));
    }
}

/// Appending a pair with a new name keeps the names unique.
proof fn lemma_push_keeps_unique(pairs: Seq<(Seq<char>, Seq<char>)>, k: Seq<char>, v: Seq<char>)
    requires
        unique_keys(pairs),
        !has_key(pairs, k),
    ensures
        unique_keys(pairs.push((k, v))),
{
    let new = pairs.push((k, v));
    assert forall|a: int, b: int|
        0 <= a < new.len() && 0 <= b < new.len() && a != b implies key_at(new, a) != key_at(new, b) by {
        if a < pairs.len() {
            assert(key_at(new, a) == key_at(pairs, a));
        }
        if b < pairs.len() {
            assert(key_at(new, b) == key_at(pairs, b));
        }
    }
}

/// After setting `k` to `v`, looking `k` up gives `v`.
pub proof fn lemma_lookup_after_insert(pairs: Seq<(Seq<char>, Seq<char>)>, k: Seq<char>, v: Seq<char>)
    requires
        unique_keys(pairs),
    ensures
        lookup(inserted(pairs, k, v), k) == Some(v),
{
    let new = inserted(pairs, k, v);
    if has_key(pairs, k) {
        let w = choose|i: int| 0 <= i < pairs.len() && key_at(pairs, i) == k;
        assert(key_at(new, w) == k);
        let u = choose|i: int| 0 <= i < new.len() && key_at(new, i) == k;
        if u != w {
            assert(key_at(pairs, u) == k);
        }
    } else {
        let n = pairs.len() as int;
        assert(key_at(new, n) == k);
        let u = choose|i: int| 0 <= i < new.len() && key_at(new, i) == k;
        if u != n {
            assert(key_at(pairs, u) == k);
        }
    }
}

/// Setting `k` leaves what every other name looks up to unchanged.
pub proof fn lemma_insert_keeps_others(
    pairs: Seq<(Seq<char>, Seq<char>)>,
    k: Seq<char>,
    v: Seq<char>,
    other: Seq<char>,
)
    requires
        unique_keys(pairs),
        other != k,
    ensures
        lookup(inserted(pairs, k, v), other) == lookup(pairs, other),
{
    let new = inserted(pairs, k, v);
    assert forall|i: int| 0 <= i < new.len() && key_at(new, i) == other implies
        i < pairs.len() && pairs[i] == new[i] by {
        if has_key(pairs, k) {
            let w = choose|j: int| 0 <= j < pairs.len() && key_at(pairs, j) == k;
            assert(i != w);
        }
    }
    if has_key(pairs, other) {
        let i = choose|i: int| 0 <= i < pairs.len() && key_at(pairs, i) == other;
        if has_key(pairs, k) {
            let w = choose|j: int| 0 <= j < pairs.len() && key_at(pairs, j) == k;
            assert(i != w);
        }
        assert(key_at(new, i) == other);
        let u = choose|j: int| 0 <= j < new.len() && key_at(new, j) == other;
        assert(u < pairs.len() && pairs[u] == new[u]);
        if u != i {
            assert(key_at(pairs, u) == other);
        }
    } else {
        if has_key(new, other) {
            let u = choose|j: int| 0 <= j < new.len() && key_at(new, j) == other;
            assert(key_at(pairs, u) == other);
        }
    }
}

/// Setting a name keeps every earlier parameter in its place, and adds one
/// parameter exactly when the name was new.
pub proof fn lemma_insert_keeps_order(pairs: Seq<(Seq<char>, Seq<char>)>, k: Seq<char>, v: Seq<char>)
    requires
        unique_keys(pairs),
    ensures
        inserted(pairs, k, v).len() == (if has_key(pairs, k) { pairs.len() } else { pairs.len() + 1 }),
        forall|i: int| 0 <= i < pairs.len() ==> key_at(inserted(pairs, k, v), i) == key_at(pairs, i),
{
    if has_key(pairs, k) {
        let w = choose|j: int| 0 <= j < pairs.len() && key_at(pairs, j) == k;
        assert forall|i: int| 0 <= i < pairs.len() implies
            key_at(inserted(pairs, k, v), i) == key_at(pairs, i) by {
        }
    }
}

/// The pairs after inserting the first `n` names with their values, in
/// order, into no pairs.
pub open spec fn inserted_prefix(names: Seq<Seq<char>>, values: Seq<Seq<char>>, n: int) -> Seq<(Seq<char>, Seq<char>)>
    decreases n,
{
    if n <= 0 {
        Seq::<(Seq<char>, Seq<char>)>::empty()
    } else {
        inserted(inserted_prefix(names, values, n - 1), names[n - 1], values[n - 1])
    }
}

/// No name at a position in `j + 1 .. n` equals the name at `j`.
pub open spec fn last_occurrence_before(names: Seq<Seq<char>>, j: int, n: int) -> bool {
    forall|k: int| j < k < n ==> #[trigger] names[k] != names[j]
}

/// Query parameters, kept in the order in which their names were first
/// inserted.
pub struct QueryParams {
    pub(crate) pairs: Vec<(String, String)>,
}

impl View for QueryParams {
    type V = Seq<(Seq<char>, Seq<char>)>;

    closed spec fn view(&self) -> Seq<(Seq<char>, Seq<char>)> {
        pairs_view(self.pairs@)
    }
}

impl QueryParams {
    #[verifier::type_invariant]
    closed spec fn names_are_unique(self) -> bool {
        unique_keys(self@)
    }

    /// No parameters.
    pub fn new() -> (q: QueryParams)
        ensures
            q@ == Seq::<(Seq<char>, Seq<char>)>::empty(),
    {
        let q = QueryParams { pairs: Vec::new() };
        assert(q@ =~= Seq::<(Seq<char>, Seq<char>)>::empty());
        q
    }

    /// The number of parameters; no name occurs twice among them.
    pub fn len(&self) -> (n: usize)
        ensures
            n == self@.len(),
            unique_keys(self@),
    {
        proof {
            use_type_invariant(self);
        }
        self.pairs.len()
    }

    /// The value of parameter `key`, if there is one.
    pub fn get(&self, key: &str) -> (value: Option<&String>)
        ensures
            match value {
                Some(v) => lookup(self@, key@) == Some(v@),
                None => lookup(self@, key@) is None,
            },
    {
        proof {
            use_type_invariant(self);
        }
        let wanted = String::from_str(key);
        let n = self.pairs.len();
        let mut i: usize = 0;
        while i < n
            invariant
                n == self.pairs@.len(),
                wanted@ == key@,
                unique_keys(self@),
                i <= n,
                forall|j: int| 0 <= j < i ==> key_at(self@, j) != key@,
            decreases n - i,
        {
            assert(self@[i as int] == (self.pairs@[i as int].0@, self.pairs@[i as int].1@));
            if self.pairs[i].0 == wanted {
                assert(key_at(self@, i as int) == key@);
                let ghost w = choose|j: int| 0 <= j < self@.len() && key_at(self@, j) == key@;
                assert(w == i);
                return Some(&self.pairs[i].1);
            }
            i = i + 1;
        }
        assert(!has_key(self@, key@));
        None
    }

    /// Sets parameter `key` to `value`, as `HashMap::insert` does: an existing
    /// parameter of that name keeps its place and gets the new value, whose
    /// old value is returned; otherwise the parameter is appended and `None`
    /// is returned.
    pub fn insert(&mut self, key: String, value: String) -> (old_value: Option<String>)
        ensures
            final(self)@ == inserted(old(self)@, key@, value@),
            unique_keys(final(self)@),
            lookup(final(self)@, key@) == Some(value@),
            forall|other: Seq<char>| other != key@ ==> #[trigger] lookup(final(self)@, other)
                == lookup(old(self)@, other),
            match old_value {
                Some(v) => lookup(old(self)@, key@) == Some(v@),
                None => lookup(old(self)@, key@) is None,
            },
    {
        proof {
            use_type_invariant(&*self);
        }
        let ghost old_view = self@;
        proof {
            lemma_lookup_after_insert(old_view, key@, value@);
            assert forall|other: Seq<char>| other != key@ implies #[trigger] lookup(
                inserted(old_view, key@, value@),
                other,
            ) == lookup(old_view, other) by {
                lemma_insert_keeps_others(old_view, key@, value@, other);
            }
        }
        let mut pairs: Vec<(String, String)> = Vec::new();
        std::mem::swap(&mut pairs, &mut self.pairs);
        assert(pairs_view(pairs@) == old_view);
        let n = pairs.len();
        let mut i: usize = 0;
        while i < n
            invariant
                n == pairs@.len(),
                old_view == old(self)@,
                pairs_view(pairs@) == old_view,
                unique_keys(old_view),
                lookup(inserted(old_view, key@, value@), key@) == Some(value@),
                forall|other: Seq<char>| other != key@ ==> #[trigger] lookup(
                    inserted(old_view, key@, value@),
                    other,
                ) == lookup(old_view, other),
                i <= n,
                forall|j: int| 0 <= j < i ==> key_at(old_view, j) != key@,
            decreases n - i,
        {
            assert(old_view[i as int] == (pairs@[i as int].0@, pairs@[i as int].1@));
            if pairs[i].0 == key {
                assert(key_at(old_view, i as int) == key@);
                let ghost w = choose|j: int| 0 <= j < old_view.len() && key_at(old_view, j) == key@;
                assert(w == i);
                let previous = pairs[i].1.clone();
                assert(previous@ == old_view[i as int].1);
                pairs.set(i, (key, value));
                proof {
                    assert(pairs_view(pairs@) =~= old_view.update(i as int, (key@, value@)));
                    lemma_update_keeps_unique(old_view, i as int, value@);
                }
                self.pairs = pairs;
                return Some(previous);
            }
            i = i + 1;
        }
        assert(!has_key(old_view, key@));
        pairs.push((key, value));
        proof {
            assert(pairs_view(pairs@) =~= old_view.push((key@, value@)));
            lemma_push_keeps_unique(old_view, key@, value@);
        }
        self.pairs = pairs;
        None
    }
}

/// The names of a sequence of strings.
pub open spec fn string_views(v: Seq<String>) -> Seq<Seq<char>> {
    v.map_values(|s: String| s@)
}

/// Pairs each name with the id at the same position, as a map from names to
/// ids: where a name occurs more than once, its last id stays, at the place of
/// its first occurrence.
pub fn names_to_ids(names: &Vec<String>, ids: &Vec<String>) -> (map: QueryParams)
    requires
        names@.len() <= ids@.len(),
    ensures
        map@ == inserted_prefix(string_views(names@), string_views(ids@), names@.len() as int),
        forall|j: int| 0 <= j < names@.len() && last_occurrence_before(string_views(names@), j, names@.len() as int)
            ==> #[trigger] lookup(map@, names@[j]@) == Some(ids@[j]@),
{
    let ghost ns = string_views(names@);
    let ghost vs = string_views(ids@);
    let mut map = QueryParams::new();
    let mut i: usize = 0;
    while i < names.len()
        invariant
            names@.len() <= ids@.len(),
            ns == string_views(names@),
            vs == string_views(ids@),
            i <= names@.len(),
            map@ == inserted_prefix(ns, vs, i as int),
            forall|j: int| 0 <= j < i && last_occurrence_before(ns, j, i as int)
                ==> #[trigger] lookup(map@, names@[j]@) == Some(ids@[j]@),
        decreases names@.len() - i,
    {
        let ghost before = map@;
        assert(ns[i as int] == names@[i as int]@ && vs[i as int] == ids@[i as int]@);
        map.insert(names[i].clone(), ids[i].clone());
        assert forall|j: int| 0 <= j < i + 1 && last_occurrence_before(ns, j, i + 1)
            implies #[trigger] lookup(map@, names@[j]@) == Some(ids@[j]@) by {
            if j < i {
                assert(ns[i as int] != ns[j]);
                assert(ns[j] == names@[j]@);
                assert(last_occurrence_before(ns, j, i as int));
            }
        }
        i = i + 1;
    }
    map
}

} // verus!
