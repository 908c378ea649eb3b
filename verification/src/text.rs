//! Character-level helpers for the textual paths this crate works with.

use vstd::prelude::*;

verus! {

/// Segments of `s` between occurrences of `sep`, in order. A text without
/// `sep` is its own single segment; two adjacent separators enclose an empty
/// segment.
pub open spec fn split(s: Seq<char>, sep: char) -> Seq<Seq<char>>
    decreases s.len(),
{
    if s.len() == 0 {
        seq![Seq::empty()]
    } else {
        let init = split(s.drop_last(), sep);
        if s.last() == sep {
            init.push(Seq::empty())
        } else {
            init.drop_last().push(init.last().push(s.last()))
        }
    }
}

/// The text that remains of `s` once every quote character and line feed is
/// taken out.
pub open spec fn unquoted(s: Seq<char>) -> Seq<char>
    decreases s.len(),
{
    if s.len() == 0 {
        s
    } else if s.last() == '\'' || s.last() == '\n' {
        unquoted(s.drop_last())
    } else {
        unquoted(s.drop_last()).push(s.last())
    }
}

/// A position that holds `c` and has no `c` after it is the last position of `c`.
pub proof fn lemma_last_index(s: Seq<char>, c: char, i: int)
    requires
        0 <= i < s.len(),
        s[i] == c,
        forall|j: int| i < j < s.len() ==> s[j] != c,
    ensures
        s.index_of_last(c) == Some(i),
{
    s.index_of_last_ensures(c);
    assert(s.contains(c));
}

/// A text that holds no `c` has no last position of `c`.
pub proof fn lemma_no_last_index(s: Seq<char>, c: char)
    requires
        forall|j: int| 0 <= j < s.len() ==> s[j] != c,
    ensures
        s.index_of_last(c) is None,
{
    s.index_of_last_ensures(c);
}

/// The characters of `s`, in order.
pub fn chars_of(s: &str) -> (out: Vec<char>)
    ensures
        out@ == s@,
{
    let mut out: Vec<char> = Vec::new();
    for c in it: s.chars()
        invariant
            it.seq() == s@,
            out@ == s@.take(it.index() as int),
    {
        out.push(c);
        assert(s@.take(it.index() + 1) == s@.take(it.index() as int).push(c));
    }
    out
}

/// Position of the last `c` at or after `from`, counted from the start of
/// `chars`.
pub(crate) fn last_index_from(chars: &Vec<char>, from: usize, c: char) -> (found: Option<usize>)
    requires
        from <= chars.len(),
    ensures
        match found {
            Some(i) => from <= i < chars.len() && chars@.subrange(
                from as int,
                chars.len() as int,
            ).index_of_last(c) == Some(i - from),
            None => chars@.subrange(from as int, chars.len() as int).index_of_last(c) is None,
        },
{
    let ghost tail = chars@.subrange(from as int, chars.len() as int);
    let mut i: usize = chars.len();
    while i > from
        invariant
            from <= i <= chars.len(),
            tail == chars@.subrange(from as int, chars.len() as int),
            forall|j: int| i - from <= j < tail.len() ==> tail[j] != c,
        decreases i,
    {
        i -= 1;
        if chars[i] == c {
            proof {
                lemma_last_index(tail, c, i - from);
            }
            return Some(i);
        }
    }
    proof {
        lemma_no_last_index(tail, c);
    }
    None
}

/// Whether the characters of `chars` from `from` up to `to` spell `word`.
pub(crate) fn range_spells(chars: &Vec<char>, from: usize, to: usize, word: &str) -> (same: bool)
    requires
        from <= to <= chars.len(),
    ensures
        same == (chars@.subrange(from as int, to as int) == word@),
{
    let ghost piece = chars@.subrange(from as int, to as int);
    let n = word.unicode_len();
    if n != to - from {
        return false;
    }
    let mut k: usize = 0;
    while k < n
        invariant
            from <= to <= chars.len(),
            n == to - from,
            n == word@.len(),
            k <= n,
            piece == chars@.subrange(from as int, to as int),
            forall|j: int| 0 <= j < k ==> piece[j] == word@[j],
        decreases n - k,
    {
        if chars[from + k] != word.get_char(k) {
            assert(piece[k as int] != word@[k as int]);
            return false;
        }
        k += 1;
    }
    assert(piece =~= word@);
    true
}

/// The segments of `s` between occurrences of `sep`.
pub fn split_text(s: &str, sep: char) -> (segments: Vec<String>)
    ensures
        segments.deep_view() == split(s@, sep),
{
    let chars = chars_of(s);
    let mut done: Vec<String> = Vec::new();
    let mut start: usize = 0;
    let mut i: usize = 0;
    assert(s@.take(0) =~= Seq::<char>::empty());
    assert(s@.subrange(0, 0) =~= Seq::<char>::empty());
    assert(done.deep_view().push(s@.subrange(0, 0)) =~= split(s@.take(0), sep));
    while i < chars.len()
        invariant
            chars@ == s@,
            start <= i <= chars.len(),
            split(s@.take(i as int), sep) == done.deep_view().push(
                s@.subrange(start as int, i as int),
            ),
        decreases chars.len() - i,
    {
        let ghost before = done.deep_view();
        let ghost prefix = s@.take(i as int + 1);
        assert(prefix.drop_last() =~= s@.take(i as int));
        assert(prefix.last() == s@[i as int]);
        if chars[i] == sep {
            done.push(s.substring_char(start, i).to_owned());
            assert(done.deep_view() =~= before.push(s@.subrange(start as int, i as int)));
            start = i + 1;
            assert(s@.subrange(start as int, start as int) =~= Seq::<char>::empty());
        } else {
            let ghost init = split(s@.take(i as int), sep);
            assert(init.drop_last() =~= before);
            assert(init.last().push(s@[i as int]) =~= s@.subrange(start as int, i as int + 1));
        }
        i += 1;
    }
    assert(s@.take(i as int) =~= s@);
    let ghost before = done.deep_view();
    done.push(s.substring_char(start, i).to_owned());
    assert(done.deep_view() =~= before.push(s@.subrange(start as int, i as int)));
    done
}

/// `s` without its quote characters and line feeds.
pub fn strip_quotes(s: &str) -> (out: String)
    ensures
        out@ == unquoted(s@),
{
    let chars = chars_of(s);
    let mut out = String::new();
    let mut i: usize = 0;
    assert(s@.take(0) =~= Seq::<char>::empty());
    while i < chars.len()
        invariant
            chars@ == s@,
            i <= chars.len(),
            out@ == unquoted(s@.take(i as int)),
        decreases chars.len() - i,
    {
        let ghost prefix = s@.take(i as int + 1);
        assert(prefix.drop_last() =~= s@.take(i as int));
        assert(prefix.last() == s@[i as int]);
        if chars[i] != '\'' && chars[i] != '\n' {
            out.append(s.substring_char(i, i + 1));
            assert(s@.subrange(i as int, i as int + 1) =~= seq![s@[i as int]]);
            assert(out@ =~= unquoted(s@.take(i as int)).push(s@[i as int]));
        }
        i += 1;
    }
    assert(s@.take(i as int) =~= s@);
    out
}

} // verus!
