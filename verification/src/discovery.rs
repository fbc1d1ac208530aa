//! Configuration discovery: which files of a directory listing are eligible
//! configuration candidates, how an operator's 1-based selection is read and
//! checked, and how the launch arguments are extracted from a chosen file.

use vstd::prelude::*;
use vstd::arithmetic::div_mod::lemma_fundamental_div_mod;
use crate::text::{
    copy_range, find_at, find_char_in, find_from, find_nonspace_in, find_trim_end,
    has_pattern_at, lemma_chars_deep_view, lemma_find_at_props, lemma_find_at_stops,
    lemma_scan_char_props, lemma_scan_char_stops, lemma_scan_nonspace_agrees,
    lemma_scan_nonspace_props, lemma_scan_trim_end_agrees, lemma_scan_trim_end_props, matches_at,
    scan_char, scan_nonspace, scan_trim_end, trim_chars, trimmed,
};

verus! {

/// The file extension that marks a configuration candidate.
pub open spec fn config_extension() -> Seq<char> {
    seq!['.', 'b', 'a', 't']
}

/// The reserved file-name prefix of the tool's own generated artifacts;
/// files carrying it are never offered as configuration candidates.
pub open spec fn reserved_prefix() -> Seq<char> {
    seq!['s', 'e', 'r', 'v', 'i', 'c', 'e']
}

/// The configuration extension, as a vector.
pub fn config_extension_chars() -> (r: Vec<char>)
    ensures
        r@ == config_extension(),
{
    let mut r: Vec<char> = Vec::new();
    r.push('.');
    r.push('b');
    r.push('a');
    r.push('t');
    proof {
        assert(r@ =~= config_extension());
    }
    r
}

/// The reserved prefix, as a vector.
pub fn reserved_prefix_chars() -> (r: Vec<char>)
    ensures
        r@ == reserved_prefix(),
{
    let mut r: Vec<char> = Vec::new();
    r.push('s');
    r.push('e');
    r.push('r');
    r.push('v');
    r.push('i');
    r.push('c');
    r.push('e');
    proof {
        assert(r@ =~= reserved_prefix());
    }
    r
}

/// The name ends in the configuration extension, with a nonempty stem
/// before it.
pub open spec fn has_config_extension(name: Seq<char>) -> bool {
    &&& name.len() > config_extension().len()
    &&& matches_at(name, config_extension(), name.len() - config_extension().len())
}

/// The name starts with the reserved prefix.
pub open spec fn starts_with_reserved(name: Seq<char>) -> bool {
    matches_at(name, reserved_prefix(), 0)
}

/// A file name that discovery offers as a configuration candidate.
pub open spec fn eligible_config(name: Seq<char>) -> bool {
    has_config_extension(name) && !starts_with_reserved(name)
}

/// The candidates a directory listing yields: the eligible names, in the
/// order the listing gave them.
pub open spec fn candidates_spec(names: Seq<Seq<char>>) -> Seq<Seq<char>>
    decreases names.len(),
{
    if names.len() == 0 {
        Seq::empty()
    } else {
        let rest = candidates_spec(names.drop_last());
        if eligible_config(names.last()) {
            rest.push(names.last())
        } else {
            rest
        }
    }
}

/// Whether one file name is an eligible configuration candidate.
pub fn is_eligible_config(name: &Vec<char>) -> (b: bool)
    ensures
        b == eligible_config(name@),
{
    let ext = config_extension_chars();
    let pre = reserved_prefix_chars();
    if name.len() <= ext.len() {
        return false;
    }
    let at = name.len() - ext.len();
    let has_ext = has_pattern_at(name, &ext, at);
    let reserved = has_pattern_at(name, &pre, 0);
    has_ext && !reserved
}

/// Filters a directory listing down to the eligible configuration
/// candidates, keeping the listing's order.
pub fn filter_candidates(names: &Vec<Vec<char>>) -> (r: Vec<Vec<char>>)
    ensures
        r.deep_view() == candidates_spec(names.deep_view()),
{
    let mut r: Vec<Vec<char>> = Vec::new();
    let mut i: usize = 0;
    while i < names.len()
        invariant
            i <= names@.len(),
            r.deep_view() == candidates_spec(names.deep_view().subrange(0, i as int)),
        decreases names@.len() - i,
    {
        proof {
            let prefix = names.deep_view().subrange(0, i as int);
            let next = names.deep_view().subrange(0, i + 1);
            assert(next.drop_last() =~= prefix);
            assert(next.last() == names.deep_view()[i as int]);
            lemma_chars_deep_view(&names@[i as int]);
            assert(names.deep_view()[i as int] == names@[i as int]@);
        }
        if is_eligible_config(&names[i]) {
            let copied = copy_range(&names[i], 0, names[i].len());
            proof {
                lemma_chars_deep_view(&copied);
                assert(copied.deep_view() =~= names.deep_view()[i as int]);
            }
            r.push(copied);
            proof {
                assert(r.deep_view() =~= candidates_spec(names.deep_view().subrange(0, i + 1)));
            }
        } else {
            proof {
                assert(r.deep_view() =~= candidates_spec(names.deep_view().subrange(0, i + 1)));
            }
        }
        i += 1;
    }
    proof {
        assert(names.deep_view().subrange(0, names.deep_view().len() as int) =~= names.deep_view());
    }
    r
}

/// Every candidate is eligible: it carries the configuration extension and
/// does not start with the reserved prefix.
pub proof fn lemma_candidates_only_eligible(names: Seq<Seq<char>>, k: int)
    requires
        0 <= k < candidates_spec(names).len(),
    ensures
        eligible_config(candidates_spec(names)[k]),
    decreases names.len(),
{
    if names.len() > 0 {
        let rest = candidates_spec(names.drop_last());
        if eligible_config(names.last()) {
            if k < rest.len() {
                lemma_candidates_only_eligible(names.drop_last(), k);
            }
        } else {
            lemma_candidates_only_eligible(names.drop_last(), k);
        }
    }
}

/// Discovery never lists a file whose name starts with the reserved prefix,
/// whatever its extension and wherever the listing put it.
pub proof fn lemma_candidates_never_reserved(names: Seq<Seq<char>>, k: int)
    requires
        0 <= k < candidates_spec(names).len(),
    ensures
        !starts_with_reserved(candidates_spec(names)[k]),
{
    lemma_candidates_only_eligible(names, k);
}

/// A listing with no eligible name yields no candidate at all.
pub proof fn lemma_no_eligible_no_candidates(names: Seq<Seq<char>>)
    requires
        forall|i: int| 0 <= i < names.len() ==> !eligible_config(#[trigger] names[i]),
    ensures
        candidates_spec(names).len() == 0,
    decreases names.len(),
{
    if names.len() > 0 {
        assert(forall|i: int| 0 <= i < names.drop_last().len() ==> #[trigger] names.drop_last()[i]
            == names[i]);
        lemma_no_eligible_no_candidates(names.drop_last());
    }
}

/// Checks an operator's 1-based selection against the candidate count:
/// `Some` with the 0-based index exactly when the selection is in range,
/// `None` for 0 or anything past the count.
pub fn validate_selection(choice: usize, count: usize) -> (r: Option<usize>)
    ensures
        1 <= choice <= count ==> r == Some((choice - 1) as usize),
        !(1 <= choice <= count) ==> r is None,
{
    if 1 <= choice && choice <= count {
        Some(choice - 1)
    } else {
        None
    }
}

/// A decimal digit.
pub open spec fn is_digit(c: char) -> bool {
    0x30 <= c as u32 <= 0x39
}

/// The numeric value of a decimal digit.
pub open spec fn digit_val(c: char) -> int {
    c as u32 - 0x30
}

/// All characters are decimal digits.
pub open spec fn all_digits(s: Seq<char>) -> bool {
    forall|i: int| 0 <= i < s.len() ==> is_digit(#[trigger] s[i])
}

/// The number a digit string denotes, most significant digit first.
pub open spec fn dec_value(s: Seq<char>) -> int
    decreases s.len(),
{
    if s.len() == 0 {
        0
    } else {
        dec_value(s.drop_last()) * 10 + digit_val(s.last())
    }
}

/// A digit string denotes a nonnegative number.
pub proof fn lemma_dec_value_nonneg(s: Seq<char>)
    requires
        all_digits(s),
    ensures
        dec_value(s) >= 0,
    decreases s.len(),
{
    if s.len() > 0 {
        assert(forall|i: int| 0 <= i < s.drop_last().len() ==> #[trigger] s.drop_last()[i]
            == s[i]);
        lemma_dec_value_nonneg(s.drop_last());
    }
}

/// Reading more digits never shrinks the denoted number.
pub proof fn lemma_dec_value_extend(s: Seq<char>, j: int)
    requires
        0 <= j <= s.len(),
        all_digits(s),
    ensures
        dec_value(s.subrange(0, j)) <= dec_value(s),
    decreases s.len() - j,
{
    if j == s.len() {
        assert(s.subrange(0, j) =~= s);
    } else {
        let shorter = s.subrange(0, j);
        let longer = s.subrange(0, j + 1);
        assert(longer.drop_last() =~= shorter);
        assert(forall|i: int| 0 <= i < longer.len() ==> #[trigger] longer[i] == s[i]);
        assert(forall|i: int| 0 <= i < shorter.len() ==> #[trigger] shorter[i] == s[i]);
        lemma_dec_value_nonneg(shorter);
        assert(dec_value(longer) == dec_value(shorter) * 10 + digit_val(s[j]));
        lemma_dec_value_extend(s, j + 1);
    }
}

/// A number may carry one leading plus sign; this is what remains once it
/// is stripped.
pub open spec fn unsigned_digits(t: Seq<char>) -> Seq<char> {
    if t.len() > 0 && t[0] == '+' {
        t.drop_first()
    } else {
        t
    }
}

/// The 1-based selection a raw input line stands for: its trimmed text read
/// as a decimal number, one leading plus sign allowed. Anything unreadable —
/// empty, a stray character, or a number too large for the machine — counts
/// as 0, which no candidate list accepts.
pub open spec fn selection_spec(input: Seq<char>) -> int {
    let t = unsigned_digits(trimmed(input));
    if t.len() > 0 && all_digits(t) && dec_value(t) <= usize::MAX {
        dec_value(t)
    } else {
        0
    }
}

/// Reads an operator's selection line as a decimal number, with 0 standing
/// for anything unreadable.
pub fn parse_selection(input: &Vec<char>) -> (n: usize)
    ensures
        n as int == selection_spec(input@),
{
    let trimmed_input = trim_chars(input);
    let t: Vec<char> = if trimmed_input.len() > 0 && trimmed_input[0] == '+' {
        let rest = copy_range(&trimmed_input, 1, trimmed_input.len());
        proof {
            assert(rest@ =~= unsigned_digits(trimmed(input@)));
        }
        rest
    } else {
        trimmed_input
    };
    if t.len() == 0 {
        return 0;
    }
    let mut acc: usize = 0;
    let mut i: usize = 0;
    while i < t.len()
        invariant
            i <= t@.len(),
            t@ == unsigned_digits(trimmed(input@)),
            t@.len() > 0,
            all_digits(t@.subrange(0, i as int)),
            acc as int == dec_value(t@.subrange(0, i as int)),
        decreases t@.len() - i,
    {
        let c = t[i];
        let u: u32 = c as u32;
        proof {
            let prefix = t@.subrange(0, i as int);
            let next = t@.subrange(0, i + 1);
            assert(next.drop_last() =~= prefix);
            assert(next.last() == t@[i as int]);
        }
        if u < 0x30 || u > 0x39 {
            proof {
                assert(!is_digit(t@[i as int]));
            }
            return 0;
        }
        let d: usize = (u - 0x30) as usize;
        if acc > (usize::MAX - d) / 10 {
            proof {
                lemma_fundamental_div_mod((usize::MAX - d) as int, 10);
                assert(acc * 10 + d > usize::MAX);
                assert(dec_value(t@.subrange(0, i + 1)) == acc * 10 + d);
                if all_digits(t@) {
                    lemma_dec_value_extend(t@, i + 1);
                    assert(dec_value(t@) > usize::MAX);
                }
            }
            return 0;
        }
        proof {
            lemma_fundamental_div_mod((usize::MAX - d) as int, 10);
            assert(acc * 10 + d <= usize::MAX);
        }
        acc = acc * 10 + d;
        i += 1;
    }
    proof {
        assert(t@.subrange(0, t@.len() as int) =~= t@);
    }
    acc
}

/// What extraction yields from a configuration file: on the first occurrence
/// of the invocation keyword, the text that follows the keyword's trailing
/// whitespace run up to the end of that line, with trailing whitespace
/// removed; the empty string when the keyword never occurs.
pub open spec fn extract_args_spec(text: Seq<char>, kw: Seq<char>) -> Seq<char> {
    match find_at(text, kw, 0) {
        None => Seq::empty(),
        Some(i) => {
            let j = i + kw.len() as int;
            let k = scan_char(text, '\n', j, text.len() as int);
            let m = scan_nonspace(text, j, k);
            text.subrange(m, scan_trim_end(text, m, k))
        },
    }
}

/// Only the first invocation counts: once a file holds the keyword on a
/// newline-terminated line, whatever stands after that line — a second
/// occurrence of the keyword included — never changes what extraction
/// yields.
pub proof fn lemma_extraction_ignores_later_text(
    text: Seq<char>,
    extra: Seq<char>,
    kw: Seq<char>,
    i: int,
)
    requires
        find_at(text, kw, 0) == Some(i),
        scan_char(text, '\n', i + kw.len(), text.len() as int) < text.len(),
    ensures
        extract_args_spec(text + extra, kw) == extract_args_spec(text, kw),
{
    let l = kw.len() as int;
    let j = i + l;
    let n = text.len() as int;
    let ext = text + extra;
    lemma_find_at_props(text, kw, 0);
    assert(matches_at(ext, kw, i)) by {
        assert(ext.subrange(i, i + l) =~= text.subrange(i, i + l));
    }
    assert forall|p: int| 0 <= p < i implies !matches_at(ext, kw, p) by {
        if matches_at(ext, kw, p) {
            if p + l <= n {
                assert(ext.subrange(p, p + l) =~= text.subrange(p, p + l));
                assert(matches_at(text, kw, p));
            }
        }
    }
    lemma_find_at_stops(ext, kw, 0, i);
    let k = scan_char(text, '\n', j, n);
    lemma_scan_char_props(text, '\n', j, n);
    assert forall|m: int| j <= m < k implies ext[m] != '\n' by {
        assert(text[m] != '\n');
    }
    lemma_scan_char_stops(ext, '\n', j, ext.len() as int, k);
    lemma_scan_nonspace_agrees(text, ext, j, k);
    let m = scan_nonspace(text, j, k);
    lemma_scan_nonspace_props(text, j, k);
    lemma_scan_trim_end_agrees(text, ext, m, k);
    lemma_scan_trim_end_props(text, m, k);
    let e = scan_trim_end(text, m, k);
    assert(ext.subrange(m, e) =~= text.subrange(m, e));
}

/// Extracts the launch-argument substring from a configuration file's text:
/// the arguments on the first line that invokes the worker binary. Only that
/// first occurrence counts; later ones are ignored. A file without the
/// invocation keyword yields the empty argument string — absence is the
/// documented recoverable fallback, reported by the caller, never a failure.
pub fn extract_arguments(text: &Vec<char>, keyword: &Vec<char>) -> (r: Vec<char>)
    ensures
        r@ == extract_args_spec(text@, keyword@),
{
    let n = text.len();
    let found = find_from(text, keyword, 0);
    match found {
        None => Vec::new(),
        Some(i) => {
            proof {
                assert(i + keyword@.len() <= n);
            }
            let j = i + keyword.len();
            let k = find_char_in(text, '\n', j, text.len());
            proof {
                lemma_scan_char_props(text@, '\n', j as int, text@.len() as int);
            }
            let m = find_nonspace_in(text, j, k);
            proof {
                lemma_scan_nonspace_props(text@, j as int, k as int);
            }
            let e = find_trim_end(text, m, k);
            proof {
                lemma_scan_trim_end_props(text@, m as int, k as int);
            }
            copy_range(text, m, e)
        },
    }
}

} // verus!
