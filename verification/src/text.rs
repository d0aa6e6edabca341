//! Character-level string operations with their mathematical models.

use vstd::prelude::*;
use crate::external::push_char;

verus! {

/// The sequence `s` with every occurrence of `c` replaced by `r`.
pub open spec fn replace_char(s: Seq<char>, c: char, r: Seq<char>) -> Seq<char>
    decreases s.len(),
{
    if s.len() == 0 {
        Seq::<char>::empty()
    } else {
        replace_char(s.drop_last(), c, r) + (if s.last() == c { r } else { seq![s.last()] })
    }
}

/// Whether `p` occurs in `s` as a contiguous run of characters.
pub open spec fn has_substring(s: Seq<char>, p: Seq<char>) -> bool {
    exists|i: int| 0 <= i <= s.len() - p.len() && #[trigger] s.subrange(i, i + p.len()) == p
}

/// Replacing in a concatenation is concatenating the replacements.
pub proof fn lemma_replace_concat(a: Seq<char>, b: Seq<char>, c: char, r: Seq<char>)
    ensures
        replace_char(a + b, c, r) == replace_char(a, c, r) + replace_char(b, c, r),
    decreases b.len(),
{
    if b.len() == 0 {
        assert(a + b == a);
        assert(replace_char(b, c, r) == Seq::<char>::empty());
    } else {
        lemma_replace_concat(a, b.drop_last(), c, r);
        assert((a + b).drop_last() == a + b.drop_last());
    }
}

/// Replacing a character that does not occur changes nothing.
pub proof fn lemma_replace_absent(s: Seq<char>, c: char, r: Seq<char>)
    requires
        !s.contains(c),
    ensures
        replace_char(s, c, r) == s,
    decreases s.len(),
{
    if s.len() > 0 {
        assert(!s.drop_last().contains(c)) by {
            if s.drop_last().contains(c) {
                let j = choose|j: int| 0 <= j < s.drop_last().len() && s.drop_last()[j] == c;
                assert(s[j] == c);
            }
        }
        lemma_replace_absent(s.drop_last(), c, r);
        assert(s.last() != c) by {
            assert(s[s.len() - 1] == s.last());
        }
        assert(s.drop_last() + seq![s.last()] == s);
    }
}

/// A character that occurs neither in `s` nor in the replacement does not
/// occur in the result.
pub proof fn lemma_replace_keeps_absent(s: Seq<char>, c: char, r: Seq<char>, d: char)
    requires
        !s.contains(d) || d == c,
        !r.contains(d),
    ensures
        !replace_char(s, c, r).contains(d),
    decreases s.len(),
{
    if s.len() > 0 {
        assert(!s.drop_last().contains(d) || d == c) by {
            if s.drop_last().contains(d) {
                let j = choose|j: int| 0 <= j < s.drop_last().len() && s.drop_last()[j] == d;
                assert(s[j] == d);
            }
        }
        lemma_replace_keeps_absent(s.drop_last(), c, r, d);
        let head = replace_char(s.drop_last(), c, r);
        let tail = if s.last() == c { r } else { seq![s.last()] };
        assert(!tail.contains(d)) by {
            if s.last() != c && tail.contains(d) {
                assert(tail[0] == d);
                assert(s[s.len() - 1] == s.last());
            }
        }
        assert(replace_char(s, c, r) == head + tail);
        if (head + tail).contains(d) {
            let j = choose|j: int| 0 <= j < (head + tail).len() && (head + tail)[j] == d;
            if j < head.len() {
                assert(head[j] == d);
            } else {
                assert(tail[j - head.len()] == d);
            }
        }
    }
}

/// A character other than the replaced one that occurs in `s` still occurs
/// after the replacement; an occurrence of the replaced one leaves the
/// replacement's characters.
pub proof fn lemma_replace_keeps_present(s: Seq<char>, c: char, r: Seq<char>, d: char)
    requires
        s.contains(d),
        d != c || r.contains(d),
    ensures
        replace_char(s, c, r).contains(d),
    decreases s.len(),
{
    let head = replace_char(s.drop_last(), c, r);
    let tail = if s.last() == c { r } else { seq![s.last()] };
    assert(replace_char(s, c, r) == head + tail);
    if s.last() == d {
        if d == c {
            let j = choose|j: int| 0 <= j < r.len() && r[j] == d;
            assert((head + tail)[head.len() + j] == d);
        } else {
            assert((head + tail)[head.len() as int] == d);
        }
    } else {
        let j = choose|j: int| 0 <= j < s.len() && s[j] == d;
        assert(j < s.len() - 1) by {
            assert(s[s.len() - 1] == s.last());
        }
        assert(s.drop_last()[j] == d);
        lemma_replace_keeps_present(s.drop_last(), c, r, d);
        let k = choose|k: int| 0 <= k < head.len() && head[k] == d;
        assert((head + tail)[k] == d);
    }
}

/// Where the replaced character occurs, the characters of the replacement
/// occur in the result.
pub proof fn lemma_replace_inserts(s: Seq<char>, c: char, r: Seq<char>, d: char)
    requires
        s.contains(c),
        r.contains(d),
    ensures
        replace_char(s, c, r).contains(d),
    decreases s.len(),
{
    let head = replace_char(s.drop_last(), c, r);
    let tail = if s.last() == c { r } else { seq![s.last()] };
    assert(replace_char(s, c, r) == head + tail);
    if s.last() == c {
        let j = choose|j: int| 0 <= j < r.len() && r[j] == d;
        assert((head + tail)[head.len() + j] == d);
    } else {
        let j = choose|j: int| 0 <= j < s.len() && s[j] == c;
        assert(j < s.len() - 1) by {
            assert(s[s.len() - 1] == s.last());
        }
        assert(s.drop_last()[j] == c);
        lemma_replace_inserts(s.drop_last(), c, r, d);
        let k = choose|k: int| 0 <= k < head.len() && head[k] == d;
        assert((head + tail)[k] == d);
    }
}

/// The characters of `s`, in order, as a vector.
pub fn chars_of(s: &str) -> (v: Vec<char>)
    ensures
        v@ == s@,
{
    let mut v: Vec<char> = Vec::new();
    for c in it: s.chars()
        invariant
            v@ == it.seq().take(it.index() as int),
    {
        v.push(c);
    }
    v
}

/// The string `s` with every occurrence of `c` replaced by `r`.
pub fn replace_char_with(s: &str, c: char, r: &str) -> (out: String)
    ensures
        out@ == replace_char(s@, c, r@),
{
    let chars = chars_of(s);
    let mut out = String::new();
    let mut i: usize = 0;
    while i < chars.len()
        invariant
            i <= chars@.len(),
            chars@ == s@,
            out@ == replace_char(chars@.take(i as int), c, r@),
        decreases chars@.len() - i,
    {
        let d = chars[i];
        assert(chars@.take(i + 1).drop_last() == chars@.take(i as int));
        if d == c {
            out.append(r);
        } else {
            push_char(&mut out, d);
        }
        i = i + 1;
    }
    assert(chars@.take(chars@.len() as int) == chars@);
    out
}

/// Whether the characters `p` occur in `s` as a contiguous run.
pub fn contains_chars(s: &Vec<char>, p: &Vec<char>) -> (found: bool)
    ensures
        found == has_substring(s@, p@),
{
    if p.len() > s.len() {
        return false;
    }
    let last = s.len() - p.len();
    let mut i: usize = 0;
    loop
        invariant
            last == s@.len() - p@.len(),
            p@.len() <= s@.len(),
            i <= last,
            forall|k: int| 0 <= k < i ==> #[trigger] s@.subrange(k, k + p@.len()) != p@,
        decreases last - i,
    {
        let mut j: usize = 0;
        let mut same = true;
        while j < p.len()
            invariant
                i <= last,
                last == s@.len() - p@.len(),
                p@.len() <= s@.len(),
                j <= p@.len(),
                same == (forall|m: int| 0 <= m < j ==> s@[i + m] == p@[m]),
            decreases p@.len() - j,
        {
            assert(i + j < s.len());
            if s[i + j] != p[j] {
                same = false;
            }
            j = j + 1;
        }
        if same {
            assert(s@.subrange(i as int, i + p@.len()) == p@);
            return true;
        }
        assert(s@.subrange(i as int, i + p@.len()) != p@) by {
            let m = choose|m: int| 0 <= m < p@.len() && s@[i + m] != p@[m];
            assert(s@.subrange(i as int, i + p@.len())[m] == s@[i + m]);
        }
        if i == last {
            assert(!has_substring(s@, p@));
            return false;
        }
        i = i + 1;
    }
}

} // verus!
