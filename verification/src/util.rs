//! Sanitising of URLs and file names, and small helpers on track names.

use vstd::prelude::*;
use crate::external::local_now_text;
use crate::text::{chars_of, contains_chars, has_substring, lemma_replace_absent, lemma_replace_concat,
    lemma_replace_inserts, lemma_replace_keeps_present,
    lemma_replace_keeps_absent, replace_char, replace_char_with};

verus! {

/// `%20`, the percent-encoding of a space.
pub open spec fn encoded_space() -> Seq<char> {
    seq!['%', '2', '0']
}

/// What `sanitize_url` makes of `s`: spaces become `%20`, single and double
/// quotes are dropped, in that order.
pub open spec fn sanitized_url(s: Seq<char>) -> Seq<char> {
    replace_char(
        replace_char(replace_char(s, ' ', encoded_space()), '\'', Seq::<char>::empty()),
        '"',
        Seq::<char>::empty(),
    )
}

/// What `sanitize_filename` makes of `s`: double quotes are dropped, then
/// spaces become underscores.
pub open spec fn sanitized_filename(s: Seq<char>) -> Seq<char> {
    replace_char(replace_char(s, '"', Seq::<char>::empty()), ' ', seq!['_'])
}

/// `s` without its last character; the empty string stays empty.
pub open spec fn without_last_char(s: Seq<char>) -> Seq<char> {
    if s.len() == 0 {
        s
    } else {
        s.drop_last()
    }
}

/// The file type that `which_filetype` reads from a URL: `flac` when the URL
/// mentions it, else `mp4` when it mentions that, else `.mp4`.
pub open spec fn filetype_of(url: Seq<char>) -> Seq<char> {
    if has_substring(url, seq!['f', 'l', 'a', 'c']) {
        seq!['f', 'l', 'a', 'c']
    } else if has_substring(url, seq!['m', 'p', '4']) {
        seq!['m', 'p', '4']
    } else {
        seq!['.', 'm', 'p', '4']
    }
}

/// The file name made of a query, a date text and a file type:
/// `{query}_{date}.{filetype}`, sanitised as a file name.
pub open spec fn filename_for(query: Seq<char>, date: Seq<char>, filetype: Seq<char>) -> Seq<char> {
    sanitized_filename(query + seq!['_'] + date + seq!['.'] + filetype)
}

/// The text holds no space, no single quote and no double quote.
pub open spec fn is_clean_url(s: Seq<char>) -> bool {
    !s.contains(' ') && !s.contains('\'') && !s.contains('"')
}

/// The text holds no double quote and no space.
pub open spec fn is_clean_filename(s: Seq<char>) -> bool {
    !s.contains('"') && !s.contains(' ')
}

/// Percent-encodes spaces and drops single and double quotes.
pub fn sanitize_url(url: String) -> (out: String)
    ensures
        out@ == sanitized_url(url@),
        is_clean_url(out@),
{
    proof {
        lemma_sanitized_url_is_clean(url@);
    }
    let a = replace_char_with(url.as_str(), ' ', "%20");
    let b = replace_char_with(a.as_str(), '\'', "");
    let c = replace_char_with(b.as_str(), '"', "");
    proof {
        reveal_strlit("%20");
        reveal_strlit("");
        assert("%20"@ =~= encoded_space());
        assert(""@ =~= Seq::<char>::empty());
    }
    c
}

/// Drops double quotes and turns spaces into underscores.
pub fn sanitize_filename(name: String) -> (out: String)
    ensures
        out@ == sanitized_filename(name@),
        is_clean_filename(out@),
{
    proof {
        lemma_sanitized_filename_is_clean(name@);
    }
    let a = replace_char_with(name.as_str(), '"', "");
    let b = replace_char_with(a.as_str(), ' ', "_");
    proof {
        reveal_strlit("_");
        reveal_strlit("");
        assert("_"@ =~= seq!['_']);
        assert(""@ =~= Seq::<char>::empty());
    }
    b
}

/// The string without its last character (the empty string when it is empty).
pub fn trim_last_char(value: &str) -> (out: &str)
    ensures
        out@ == without_last_char(value@),
{
    let n = value.unicode_len();
    if n == 0 {
        value
    } else {
        value.substring_char(0, n - 1)
    }
}

/// The file name `{query}_{date}.{filetype}` for the given date text,
/// sanitised as a file name.
pub fn filename_with_date(query: &str, date: &str, filetype: &str) -> (out: String)
    ensures
        out@ == filename_for(query@, date@, filetype@),
        is_clean_filename(out@),
{
    let mut name = String::from_str(query);
    name.append("_");
    name.append(date);
    name.append(".");
    name.append(filetype);
    proof {
        reveal_strlit("_");
        reveal_strlit(".");
        assert("_"@ =~= seq!['_']);
        assert("."@ =~= seq!['.']);
    }
    sanitize_filename(name)
}

/// The file name `{query}_{now}.{filetype}`, where `now` is the current local
/// date and time as text, sanitised as a file name.
pub fn generate_filename(query: String, filetype: String) -> (out: String)
    ensures
        exists|date: Seq<char>|
            date.contains(' ') && date.contains(':') && out@ == filename_for(query@, date, filetype@),
        is_clean_filename(out@),
{
    let now = local_now_text();
    let out = filename_with_date(query.as_str(), now.as_str(), filetype.as_str());
    assert(out@ == filename_for(query@, now@, filetype@));
    out
}

/// The audio file type named in a URL: `flac`, else `mp4`, else `.mp4`.
pub fn which_filetype(url: String) -> (out: String)
    ensures
        out@ == filetype_of(url@),
{
    let chars = chars_of(url.as_str());
    let flac = chars_of("flac");
    let mp4 = chars_of("mp4");
    proof {
        reveal_strlit("flac");
        reveal_strlit("mp4");
        reveal_strlit(".mp4");
        assert("flac"@ =~= seq!['f', 'l', 'a', 'c']);
        assert("mp4"@ =~= seq!['m', 'p', '4']);
        assert(".mp4"@ =~= seq!['.', 'm', 'p', '4']);
    }
    if contains_chars(&chars, &flac) {
        String::from_str("flac")
    } else if contains_chars(&chars, &mp4) {
        String::from_str("mp4")
    } else {
        String::from_str(".mp4")
    }
}

/// A sanitised URL holds no space, no single quote and no double quote.
pub proof fn lemma_sanitized_url_is_clean(s: Seq<char>)
    ensures
        !sanitized_url(s).contains(' '),
        !sanitized_url(s).contains('\''),
        !sanitized_url(s).contains('"'),
{
    let e = Seq::<char>::empty();
    let a = replace_char(s, ' ', encoded_space());
    let b = replace_char(a, '\'', e);
    assert(!encoded_space().contains(' ')) by {
        if encoded_space().contains(' ') {
            let j = choose|j: int| 0 <= j < 3 && encoded_space()[j] == ' ';
        }
    }
    assert(!e.contains(' ') && !e.contains('\'') && !e.contains('"'));
    lemma_replace_keeps_absent(s, ' ', encoded_space(), ' ');
    lemma_replace_keeps_absent(a, '\'', e, ' ');
    lemma_replace_keeps_absent(b, '"', e, ' ');
    lemma_replace_keeps_absent(a, '\'', e, '\'');
    lemma_replace_keeps_absent(b, '"', e, '\'');
    lemma_replace_keeps_absent(b, '"', e, '"');
}

/// A URL without spaces and quotes is left as it is by `sanitize_url`.
pub proof fn lemma_sanitized_url_keeps_clean(s: Seq<char>)
    requires
        !s.contains(' '),
        !s.contains('\''),
        !s.contains('"'),
    ensures
        sanitized_url(s) == s,
{
    let e = Seq::<char>::empty();
    lemma_replace_absent(s, ' ', encoded_space());
    lemma_replace_absent(s, '\'', e);
    lemma_replace_absent(s, '"', e);
}

/// Sanitising a URL twice gives what sanitising it once gives.
pub proof fn lemma_sanitize_url_idempotent(s: Seq<char>)
    ensures
        sanitized_url(sanitized_url(s)) == sanitized_url(s),
{
    lemma_sanitized_url_is_clean(s);
    lemma_sanitized_url_keeps_clean(sanitized_url(s));
}

/// Sanitising a concatenation of two texts gives the concatenation of their
/// sanitised forms.
pub proof fn lemma_sanitize_url_concat(a: Seq<char>, b: Seq<char>)
    ensures
        sanitized_url(a + b) == sanitized_url(a) + sanitized_url(b),
{
    let e = Seq::<char>::empty();
    lemma_replace_concat(a, b, ' ', encoded_space());
    let a1 = replace_char(a, ' ', encoded_space());
    let b1 = replace_char(b, ' ', encoded_space());
    lemma_replace_concat(a1, b1, '\'', e);
    let a2 = replace_char(a1, '\'', e);
    let b2 = replace_char(b1, '\'', e);
    lemma_replace_concat(a2, b2, '"', e);
}

/// A sanitised file name holds no double quote and no space.
pub proof fn lemma_sanitized_filename_is_clean(s: Seq<char>)
    ensures
        !sanitized_filename(s).contains('"'),
        !sanitized_filename(s).contains(' '),
{
    let e = Seq::<char>::empty();
    let a = replace_char(s, '"', e);
    assert(!seq!['_'].contains('"') && !seq!['_'].contains(' ')) by {
        if seq!['_'].contains('"') || seq!['_'].contains(' ') {
            assert(seq!['_'][0] == '_');
        }
    }
    assert(!e.contains('"'));
    lemma_replace_keeps_absent(s, '"', e, '"');
    lemma_replace_keeps_absent(a, ' ', seq!['_'], '"');
    lemma_replace_keeps_absent(a, ' ', seq!['_'], ' ');
}

/// Sanitising a file name twice gives what sanitising it once gives.
pub proof fn lemma_sanitize_filename_idempotent(s: Seq<char>)
    ensures
        sanitized_filename(sanitized_filename(s)) == sanitized_filename(s),
{
    let t = sanitized_filename(s);
    lemma_sanitized_filename_is_clean(s);
    lemma_replace_absent(t, '"', Seq::<char>::empty());
    lemma_replace_absent(t, ' ', seq!['_']);
}

/// Trimming the last character of a non-empty string and putting it back
/// gives the string again.
pub proof fn lemma_trim_last_char_restores(s: Seq<char>)
    requires
        s.len() > 0,
    ensures
        without_last_char(s).len() == s.len() - 1,
        without_last_char(s).push(s.last()) == s,
{
    assert(s.drop_last().push(s.last()) =~= s);
}

/// Sanitising a concatenation as a file name gives the concatenation of the
/// sanitised parts.
pub proof fn lemma_sanitize_filename_concat(a: Seq<char>, b: Seq<char>)
    ensures
        sanitized_filename(a + b) == sanitized_filename(a) + sanitized_filename(b),
{
    let e = Seq::<char>::empty();
    lemma_replace_concat(a, b, '"', e);
    lemma_replace_concat(replace_char(a, '"', e), replace_char(b, '"', e), ' ', seq!['_']);
}

/// The download file name is made of three sanitised parts: the query, an
/// underscore, the date text, a dot and the file type. A date text that
/// holds a space and a colon leaves an underscore and a colon in its part,
/// so the part between the query and the type is never empty.
pub proof fn lemma_filename_parts(query: Seq<char>, date: Seq<char>, filetype: Seq<char>)
    ensures
        filename_for(query, date, filetype) == sanitized_filename(query) + seq!['_']
            + sanitized_filename(date) + seq!['.'] + sanitized_filename(filetype),
        date.contains(' ') ==> sanitized_filename(date).contains('_'),
        date.contains(':') ==> sanitized_filename(date).contains(':'),
{
    let u = seq!['_'];
    let d = seq!['.'];
    let e = Seq::<char>::empty();
    lemma_sanitize_filename_concat(query + u + date + d, filetype);
    lemma_sanitize_filename_concat(query + u + date, d);
    lemma_sanitize_filename_concat(query + u, date);
    lemma_sanitize_filename_concat(query, u);
    assert(u.drop_last() =~= e);
    assert(d.drop_last() =~= e);
    assert(replace_char(e, '"', e) == e);
    assert(replace_char(e, ' ', u) == e);
    assert(replace_char(u, '"', e) =~= u);
    assert(replace_char(u, ' ', u) =~= u);
    assert(replace_char(d, '"', e) =~= d);
    assert(replace_char(d, ' ', u) =~= d);
    assert(sanitized_filename(u) == u);
    assert(sanitized_filename(d) == d);
    assert(u.contains('_')) by {
        assert(u[0] == '_');
    }
    if date.contains(' ') {
        assert(replace_char(date, '"', e).contains(' ')) by {
            lemma_replace_keeps_present(date, '"', e, ' ');
        }
        lemma_replace_inserts(replace_char(date, '"', e), ' ', u, '_');
    }
    if date.contains(':') {
        lemma_replace_keeps_present(date, '"', e, ':');
        lemma_replace_keeps_present(replace_char(date, '"', e), ' ', u, ':');
    }
}

/// A URL that holds `flac` anywhere is a `flac` stream; one that holds
/// `mp4` and not `flac` is an `mp4` stream; any other is `.mp4`.
pub proof fn lemma_filetype_by_mention(before: Seq<char>, after: Seq<char>, url: Seq<char>)
    ensures
        filetype_of(before + seq!['f', 'l', 'a', 'c'] + after) == seq!['f', 'l', 'a', 'c'],
        (forall|i: int| 0 <= i <= url.len() - 4 ==> #[trigger] url.subrange(i, i + 4) != seq!['f', 'l', 'a', 'c'])
            && (exists|i: int| 0 <= i <= url.len() - 3 && #[trigger] url.subrange(i, i + 3) == seq!['m', 'p', '4'])
            ==> filetype_of(url) == seq!['m', 'p', '4'],
        (forall|i: int| 0 <= i <= url.len() - 4 ==> #[trigger] url.subrange(i, i + 4) != seq!['f', 'l', 'a', 'c'])
            && (forall|i: int| 0 <= i <= url.len() - 3 ==> #[trigger] url.subrange(i, i + 3) != seq!['m', 'p', '4'])
            ==> filetype_of(url) == seq!['.', 'm', 'p', '4'],
{
    let flac = seq!['f', 'l', 'a', 'c'];
    let whole = before + flac + after;
    assert(whole.subrange(before.len() as int, before.len() as int + 4) =~= flac);
    assert(has_substring(whole, flac));
}

} // verus!
