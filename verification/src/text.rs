//! Scanning primitives over character sequences: first-match pattern search,
//! single-character and whitespace scans, and range trimming. Every command
//! output and configuration file this tool reads is processed with these.

use vstd::prelude::*;
use vstd::std_specs::iter::IteratorSpec;

verus! {

/// Whitespace as the scanners recognize it: the characters that separate
/// tokens in configuration files and command output.
pub open spec fn is_space(c: char) -> bool {
    c == ' ' || c == '\t' || c == '\r' || c == '\n'
}

/// `pat` occurs in `text` starting exactly at index `i`.
pub open spec fn matches_at(text: Seq<char>, pat: Seq<char>, i: int) -> bool {
    &&& 0 <= i
    &&& i + pat.len() <= text.len()
    &&& text.subrange(i, i + pat.len() as int) == pat
}

/// Index of the first occurrence of `pat` in `text` at or after `i`, if any.
pub open spec fn find_at(text: Seq<char>, pat: Seq<char>, i: int) -> Option<int>
    decreases text.len() - i
        when 0 <= i <= text.len()
{
    if i >= text.len() {
        if pat.len() == 0 {
            Some(i)
        } else {
            None
        }
    } else if matches_at(text, pat, i) {
        Some(i)
    } else {
        find_at(text, pat, i + 1)
    }
}

/// `text` contains `pat` somewhere.
pub open spec fn contains_pat(text: Seq<char>, pat: Seq<char>) -> bool {
    find_at(text, pat, 0) is Some
}

/// What `find_at` returns: the first match at or after `i`, or a guarantee
/// that no position from `i` on matches.
pub proof fn lemma_find_at_props(text: Seq<char>, pat: Seq<char>, i: int)
    requires
        0 <= i <= text.len(),
    ensures
        match find_at(text, pat, i) {
            Some(j) => i <= j && matches_at(text, pat, j) && (forall|k: int|
                i <= k < j ==> !matches_at(text, pat, k)),
            None => forall|k: int| i <= k ==> !matches_at(text, pat, k),
        },
    decreases text.len() - i,
{
    if i >= text.len() {
        if pat.len() == 0 {
            assert(text.subrange(i, i) =~= pat);
        } else {
            assert forall|k: int| i <= k implies !matches_at(text, pat, k) by {
                assert(k + pat.len() > text.len());
            }
        }
    } else if matches_at(text, pat, i) {
    } else {
        lemma_find_at_props(text, pat, i + 1);
    }
}

/// `find_at` is pinned down by a witness: a match at `j` with no match
/// before it is the first match.
pub proof fn lemma_find_at_stops(text: Seq<char>, pat: Seq<char>, i: int, j: int)
    requires
        0 <= i <= j,
        matches_at(text, pat, j),
        forall|k: int| i <= k < j ==> !matches_at(text, pat, k),
    ensures
        find_at(text, pat, i) == Some(j),
    decreases j - i,
{
    if i >= text.len() {
        assert(j + pat.len() <= text.len());
        assert(i == j && pat.len() == 0);
    } else if matches_at(text, pat, i) {
        assert(i == j);
    } else {
        assert(i < j);
        lemma_find_at_stops(text, pat, i + 1, j);
    }
}

/// True exactly when `pat` stands at position `i` of `text`.
fn match_here(text: &Vec<char>, pat: &Vec<char>, i: usize) -> (b: bool)
    requires
        i + pat@.len() <= text@.len(),
    ensures
        b == matches_at(text@, pat@, i as int),
{
    let tlen = text.len();
    let mut j: usize = 0;
    while j < pat.len()
        invariant
            j <= pat@.len(),
            tlen == text@.len(),
            i + pat@.len() <= text@.len(),
            forall|k: int| 0 <= k < j ==> text@[i + k] == pat@[k],
        decreases pat@.len() - j,
    {
        proof {
            assert(i + j < text@.len());
        }
        if text[i + j] != pat[j] {
            proof {
                if matches_at(text@, pat@, i as int) {
                    assert(text@.subrange(i as int, i + pat@.len() as int)[j as int]
                        == text@[i + j]);
                }
            }
            return false;
        }
        j += 1;
    }
    proof {
        assert(text@.subrange(i as int, i + pat@.len() as int) =~= pat@);
    }
    true
}

/// Whether `pat` stands at position `i` of `text`, bounds included.
pub fn has_pattern_at(text: &Vec<char>, pat: &Vec<char>, i: usize) -> (b: bool)
    ensures
        b == matches_at(text@, pat@, i as int),
{
    if pat.len() <= text.len() && i <= text.len() - pat.len() {
        match_here(text, pat, i)
    } else {
        false
    }
}

/// First occurrence of `pat` in `text` at or after `from`, scanning forward.
pub fn find_from(text: &Vec<char>, pat: &Vec<char>, from: usize) -> (r: Option<usize>)
    requires
        from <= text@.len(),
    ensures
        match r {
            Some(j) => from <= j && j + pat@.len() <= text@.len()
                && find_at(text@, pat@, from as int) == Some(j as int),
            None => find_at(text@, pat@, from as int) is None,
        },
{
    let mut i: usize = from;
    while text.len() - i >= pat.len()
        invariant
            from <= i <= text@.len(),
            find_at(text@, pat@, from as int) == find_at(text@, pat@, i as int),
        decreases text@.len() - i,
    {
        if match_here(text, pat, i) {
            return Some(i);
        }
        proof {
            if pat@.len() == 0 {
                assert(text@.subrange(i as int, i as int) =~= pat@);
            }
        }
        i += 1;
    }
    proof {
        lemma_find_at_props(text@, pat@, i as int);
    }
    None
}

/// Whether `pat` occurs anywhere in `text`.
pub fn contains_pattern(text: &Vec<char>, pat: &Vec<char>) -> (b: bool)
    ensures
        b == contains_pat(text@, pat@),
{
    let r = find_from(text, pat, 0);
    r.is_some()
}

/// Index of the first occurrence of `c` in `text[i..end]`, or `end` if none.
pub open spec fn scan_char(text: Seq<char>, c: char, i: int, end: int) -> int
    decreases end - i
        when 0 <= i <= end <= text.len()
{
    if i >= end {
        end
    } else if text[i] == c {
        i
    } else {
        scan_char(text, c, i + 1, end)
    }
}

/// `scan_char` stays in range, skips nothing equal to `c`, and stops on `c`.
pub proof fn lemma_scan_char_props(text: Seq<char>, c: char, i: int, end: int)
    requires
        0 <= i <= end <= text.len(),
    ensures
        i <= scan_char(text, c, i, end) <= end,
        forall|k: int| i <= k < scan_char(text, c, i, end) ==> text[k] != c,
        scan_char(text, c, i, end) < end ==> text[scan_char(text, c, i, end)] == c,
    decreases end - i,
{
    if i >= end {
    } else if text[i] == c {
    } else {
        lemma_scan_char_props(text, c, i + 1, end);
    }
}

/// `scan_char` is pinned down by a witness: an occurrence of `c` at `k`
/// with none before it is where the scan stops.
pub proof fn lemma_scan_char_stops(text: Seq<char>, c: char, i: int, end: int, k: int)
    requires
        0 <= i <= k < end <= text.len(),
        text[k] == c,
        forall|m: int| i <= m < k ==> text[m] != c,
    ensures
        scan_char(text, c, i, end) == k,
    decreases k - i,
{
    if text[i] == c {
        assert(i == k);
    } else {
        lemma_scan_char_stops(text, c, i + 1, end, k);
    }
}

/// Executable form of `scan_char`.
pub fn find_char_in(text: &Vec<char>, c: char, from: usize, end: usize) -> (r: usize)
    requires
        from <= end <= text@.len(),
    ensures
        r as int == scan_char(text@, c, from as int, end as int),
{
    let mut i: usize = from;
    while i < end
        invariant
            from <= i <= end <= text@.len(),
            scan_char(text@, c, from as int, end as int) == scan_char(
                text@,
                c,
                i as int,
                end as int,
            ),
        decreases end - i,
    {
        if text[i] == c {
            return i;
        }
        i += 1;
    }
    end
}

/// Index of the first non-whitespace character in `text[i..end]`, or `end`.
pub open spec fn scan_nonspace(text: Seq<char>, i: int, end: int) -> int
    decreases end - i
        when 0 <= i <= end <= text.len()
{
    if i >= end {
        end
    } else if is_space(text[i]) {
        scan_nonspace(text, i + 1, end)
    } else {
        i
    }
}

/// `scan_nonspace` stays in range, skips only whitespace, and stops on none.
pub proof fn lemma_scan_nonspace_props(text: Seq<char>, i: int, end: int)
    requires
        0 <= i <= end <= text.len(),
    ensures
        i <= scan_nonspace(text, i, end) <= end,
        forall|k: int| i <= k < scan_nonspace(text, i, end) ==> is_space(text[k]),
        scan_nonspace(text, i, end) < end ==> !is_space(text[scan_nonspace(text, i, end)]),
    decreases end - i,
{
    if i >= end {
    } else if is_space(text[i]) {
        lemma_scan_nonspace_props(text, i + 1, end);
    } else {
    }
}

/// `scan_nonspace` reads only the scanned range: two texts that agree there
/// scan alike.
pub proof fn lemma_scan_nonspace_agrees(a: Seq<char>, b: Seq<char>, i: int, end: int)
    requires
        0 <= i <= end <= a.len(),
        end <= b.len(),
        forall|p: int| i <= p < end ==> #[trigger] a[p] == b[p],
    ensures
        scan_nonspace(a, i, end) == scan_nonspace(b, i, end),
    decreases end - i,
{
    if i >= end {
    } else {
        if is_space(a[i]) {
            lemma_scan_nonspace_agrees(a, b, i + 1, end);
        }
    }
}

/// Whether `c` is whitespace.
pub fn is_space_char(c: char) -> (b: bool)
    ensures
        b == is_space(c),
{
    c == ' ' || c == '\t' || c == '\r' || c == '\n'
}

/// Executable form of `scan_nonspace`.
pub fn find_nonspace_in(text: &Vec<char>, from: usize, end: usize) -> (r: usize)
    requires
        from <= end <= text@.len(),
    ensures
        r as int == scan_nonspace(text@, from as int, end as int),
{
    let mut i: usize = from;
    while i < end
        invariant
            from <= i <= end <= text@.len(),
            scan_nonspace(text@, from as int, end as int) == scan_nonspace(
                text@,
                i as int,
                end as int,
            ),
        decreases end - i,
    {
        if !is_space_char(text[i]) {
            return i;
        }
        i += 1;
    }
    end
}

/// Index of the first whitespace character in `text[i..end]`, or `end`.
pub open spec fn scan_space(text: Seq<char>, i: int, end: int) -> int
    decreases end - i
        when 0 <= i <= end <= text.len()
{
    if i >= end {
        end
    } else if is_space(text[i]) {
        i
    } else {
        scan_space(text, i + 1, end)
    }
}

/// `scan_space` stays within the scanned range.
pub proof fn lemma_scan_space_props(text: Seq<char>, i: int, end: int)
    requires
        0 <= i <= end <= text.len(),
    ensures
        i <= scan_space(text, i, end) <= end,
    decreases end - i,
{
    if i >= end {
    } else if is_space(text[i]) {
    } else {
        lemma_scan_space_props(text, i + 1, end);
    }
}

/// Executable form of `scan_space`.
pub fn find_space_in(text: &Vec<char>, from: usize, end: usize) -> (r: usize)
    requires
        from <= end <= text@.len(),
    ensures
        r as int == scan_space(text@, from as int, end as int),
{
    let mut i: usize = from;
    while i < end
        invariant
            from <= i <= end <= text@.len(),
            scan_space(text@, from as int, end as int) == scan_space(
                text@,
                i as int,
                end as int,
            ),
        decreases end - i,
    {
        if is_space_char(text[i]) {
            return i;
        }
        i += 1;
    }
    end
}

/// Start of the line containing index `i`: the position right after the
/// previous newline, or the start of the text.
pub open spec fn line_start(text: Seq<char>, i: int) -> int
    decreases i
        when 0 <= i <= text.len()
{
    if i == 0 {
        0
    } else if text[i - 1] == '\n' {
        i
    } else {
        line_start(text, i - 1)
    }
}

/// `line_start` stays within the text, at or before the given position.
pub proof fn lemma_line_start_props(text: Seq<char>, i: int)
    requires
        0 <= i <= text.len(),
    ensures
        0 <= line_start(text, i) <= i,
    decreases i,
{
    if i == 0 {
    } else if text[i - 1] == '\n' {
    } else {
        lemma_line_start_props(text, i - 1);
    }
}

/// Executable form of `line_start`.
pub fn find_line_start(text: &Vec<char>, at: usize) -> (r: usize)
    requires
        at <= text@.len(),
    ensures
        r as int == line_start(text@, at as int),
{
    let mut i: usize = at;
    while i > 0
        invariant
            0 <= i <= at <= text@.len(),
            line_start(text@, at as int) == line_start(text@, i as int),
        decreases i,
    {
        if text[i - 1] == '\n' {
            return i;
        }
        i -= 1;
    }
    0
}

/// End of `text[i..end]` once trailing whitespace is dropped: the least
/// `e` with `i <= e <= end` such that everything in `text[e..end]` is
/// whitespace and `text[e - 1]` (if inside the range) is not.
pub open spec fn scan_trim_end(text: Seq<char>, i: int, end: int) -> int
    decreases end - i
        when 0 <= i <= end <= text.len()
{
    if end <= i {
        i
    } else if is_space(text[end - 1]) {
        scan_trim_end(text, i, end - 1)
    } else {
        end
    }
}

/// `scan_trim_end` reads only the scanned range: two texts that agree there
/// trim alike.
pub proof fn lemma_scan_trim_end_agrees(a: Seq<char>, b: Seq<char>, i: int, end: int)
    requires
        0 <= i <= end <= a.len(),
        end <= b.len(),
        forall|p: int| i <= p < end ==> #[trigger] a[p] == b[p],
    ensures
        scan_trim_end(a, i, end) == scan_trim_end(b, i, end),
    decreases end - i,
{
    if end <= i {
    } else {
        if is_space(a[end - 1]) {
            lemma_scan_trim_end_agrees(a, b, i, end - 1);
        }
    }
}

/// Executable form of `scan_trim_end`.
pub fn find_trim_end(text: &Vec<char>, from: usize, end: usize) -> (r: usize)
    requires
        from <= end <= text@.len(),
    ensures
        r as int == scan_trim_end(text@, from as int, end as int),
{
    let mut e: usize = end;
    while e > from
        invariant
            from <= e <= end <= text@.len(),
            scan_trim_end(text@, from as int, end as int) == scan_trim_end(
                text@,
                from as int,
                e as int,
            ),
        decreases e,
    {
        if !is_space_char(text[e - 1]) {
            return e;
        }
        e -= 1;
    }
    from
}

/// `text` with leading and trailing whitespace removed.
pub open spec fn trimmed(text: Seq<char>) -> Seq<char> {
    let m = scan_nonspace(text, 0, text.len() as int);
    let e = scan_trim_end(text, m, text.len() as int);
    text.subrange(m, e)
}

/// The characters of `text[from..end]`, as a fresh vector.
pub fn copy_range(text: &Vec<char>, from: usize, end: usize) -> (r: Vec<char>)
    requires
        from <= end <= text@.len(),
    ensures
        r@ == text@.subrange(from as int, end as int),
{
    let mut r: Vec<char> = Vec::new();
    let mut i: usize = from;
    while i < end
        invariant
            from <= i <= end <= text@.len(),
            r@ == text@.subrange(from as int, i as int),
        decreases end - i,
    {
        r.push(text[i]);
        proof {
            assert(r@ =~= text@.subrange(from as int, i + 1));
        }
        i += 1;
    }
    r
}

/// `text` with leading and trailing whitespace removed, as a fresh vector.
pub fn trim_chars(text: &Vec<char>) -> (r: Vec<char>)
    ensures
        r@ == trimmed(text@),
{
    let m = find_nonspace_in(text, 0, text.len());
    proof {
        lemma_scan_nonspace_props(text@, 0, text@.len() as int);
    }
    let e = find_trim_end(text, m, text.len());
    proof {
        lemma_scan_trim_end_props(text@, m as int, text@.len() as int);
    }
    copy_range(text, m, e)
}

/// `scan_trim_end` stays within the scanned range.
pub proof fn lemma_scan_trim_end_props(text: Seq<char>, i: int, end: int)
    requires
        0 <= i <= end <= text.len(),
    ensures
        i <= scan_trim_end(text, i, end) <= end,
    decreases end - i,
{
    if end <= i {
    } else if is_space(text[end - 1]) {
        lemma_scan_trim_end_props(text, i, end - 1);
    } else {
    }
}

/// Appends all characters of `src` to `dst`.
pub fn append_chars(dst: &mut Vec<char>, src: &Vec<char>)
    ensures
        final(dst)@ == old(dst)@ + src@,
{
    proof {
        assert(dst@ =~= dst@ + src@.subrange(0, 0));
    }
    let mut i: usize = 0;
    while i < src.len()
        invariant
            i <= src@.len(),
            dst@ == old(dst)@ + src@.subrange(0, i as int),
        decreases src@.len() - i,
    {
        dst.push(src[i]);
        proof {
            assert(dst@ =~= old(dst)@ + src@.subrange(0, i + 1));
        }
        i += 1;
    }
    proof {
        assert(old(dst)@ + src@.subrange(0, src@.len() as int) =~= old(dst)@ + src@);
    }
}

/// A character vector's deep view is its view: characters are their own
/// abstraction.
pub proof fn lemma_chars_deep_view(v: &Vec<char>)
    ensures
        v.deep_view() == v@,
{
    assert(v.deep_view() =~= v@);
}

/// The characters of a string slice, as a vector.
pub fn str_chars(s: &str) -> (r: Vec<char>)
    ensures
        r@ == s@,
{
    broadcast use vstd::string::axiom_spec_iter, vstd::string::next_postcondition;

    let mut it = s.chars();
    let mut r: Vec<char> = Vec::new();
    loop
        invariant
            r@ + it.remaining() == s@,
            it.decrease() is Some,
        decreases it.decrease()->0,
    {
        let ghost prev = it.remaining();
        let ghost done = r@;
        match it.next() {
            Some(c) => {
                r.push(c);
                proof {
                    assert(r@ + it.remaining() =~= done + prev);
                }
            },
            None => {
                proof {
                    assert(r@ =~= s@);
                }
                return r;
            },
        }
    }
}

} // verus!
