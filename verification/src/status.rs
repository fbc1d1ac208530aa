//! Normalization of the service manager's raw answers into a small stable
//! status model. The manager's query output is free text whose only contract
//! is a `STATE` field holding a numeric code, or no `STATE` field at all when
//! the service does not exist.

use vstd::prelude::*;
use crate::text::{
    contains_pat, copy_range, find_char_in, find_from, find_line_start, find_nonspace_in,
    find_space_in, find_at, lemma_find_at_props, lemma_line_start_props, lemma_scan_char_props,
    lemma_scan_nonspace_props, lemma_scan_space_props, line_start, scan_char, scan_nonspace,
    scan_space, str_chars,
};

verus! {

/// The abstract value of a normalized service status. An unrecognized state
/// code is never discarded: `Unknown` carries it verbatim.
pub enum StatusView {
    NotFound,
    Stopped,
    StartPending,
    StopPending,
    Running,
    Unknown(Seq<char>),
}

/// A service's state as normalized from the service manager's raw answer.
/// `NotFound` means the manager reported no such service at all, which is
/// distinct from a registered-but-stopped service.
#[derive(Debug, PartialEq, Eq)]
pub enum ServiceStatus {
    NotFound,
    Stopped,
    StartPending,
    StopPending,
    Running,
    Unknown(Vec<char>),
}

impl View for ServiceStatus {
    type V = StatusView;

    open spec fn view(&self) -> StatusView {
        match self {
            ServiceStatus::NotFound => StatusView::NotFound,
            ServiceStatus::Stopped => StatusView::Stopped,
            ServiceStatus::StartPending => StatusView::StartPending,
            ServiceStatus::StopPending => StatusView::StopPending,
            ServiceStatus::Running => StatusView::Running,
            ServiceStatus::Unknown(raw) => StatusView::Unknown(raw@),
        }
    }
}

/// The normalized status a raw state token stands for: codes 1 to 4 have
/// documented meanings, and every other token is kept as `Unknown`.
pub open spec fn translate_token_spec(tok: Seq<char>) -> StatusView {
    if tok == seq!['1'] {
        StatusView::Stopped
    } else if tok == seq!['2'] {
        StatusView::StartPending
    } else if tok == seq!['3'] {
        StatusView::StopPending
    } else if tok == seq!['4'] {
        StatusView::Running
    } else {
        StatusView::Unknown(tok)
    }
}

/// Whether `tok` is exactly the one-character token `c`.
pub fn token_is(tok: &Vec<char>, c: char) -> (b: bool)
    ensures
        b == (tok@ == seq![c]),
{
    if tok.len() == 1 && tok[0] == c {
        proof {
            assert(tok@ =~= seq![c]);
        }
        true
    } else {
        proof {
            if tok@ == seq![c] {
                assert(tok@.len() == 1);
            }
        }
        false
    }
}

/// Translates one raw state token. Total: every token maps to a status, and
/// an unrecognized token is carried through unchanged.
pub fn translate_token(tok: Vec<char>) -> (s: ServiceStatus)
    ensures
        s@ == translate_token_spec(tok@),
{
    if token_is(&tok, '1') {
        ServiceStatus::Stopped
    } else if token_is(&tok, '2') {
        ServiceStatus::StartPending
    } else if token_is(&tok, '3') {
        ServiceStatus::StopPending
    } else if token_is(&tok, '4') {
        ServiceStatus::Running
    } else {
        ServiceStatus::Unknown(tok)
    }
}

/// The field label that a service-manager query answer carries its state
/// code under.
pub open spec fn state_label() -> Seq<char> {
    seq!['S', 'T', 'A', 'T', 'E']
}

/// The state-field label, as a vector.
pub fn state_label_chars() -> (r: Vec<char>)
    ensures
        r@ == state_label(),
{
    let mut r: Vec<char> = Vec::new();
    r.push('S');
    r.push('T');
    r.push('A');
    r.push('T');
    r.push('E');
    proof {
        assert(r@ =~= state_label());
    }
    r
}

/// What a raw query answer normalizes to. The first line carrying the state
/// label is read: the text between the line's first colon and its second
/// colon (or line end) is trimmed of leading whitespace and cut at the next
/// whitespace; that token is translated. An answer without the label means
/// the service does not exist; a label line without a colon yields `Unknown`
/// with an empty token.
pub open spec fn parse_query_spec(out: Seq<char>) -> StatusView {
    match find_at(out, state_label(), 0) {
        None => StatusView::NotFound,
        Some(i) => {
            let s = line_start(out, i);
            let e = scan_char(out, '\n', i, out.len() as int);
            let c1 = scan_char(out, ':', s, e);
            if c1 >= e {
                StatusView::Unknown(Seq::empty())
            } else {
                let c2 = scan_char(out, ':', c1 + 1, e);
                let m = scan_nonspace(out, c1 + 1, c2);
                let t = scan_space(out, m, c2);
                translate_token_spec(out.subrange(m, t))
            }
        },
    }
}

/// Normalizes one raw service-manager query answer.
pub fn parse_query_output(out: &Vec<char>) -> (s: ServiceStatus)
    ensures
        s@ == parse_query_spec(out@),
{
    let label = state_label_chars();
    let found = find_from(out, &label, 0);
    match found {
        None => ServiceStatus::NotFound,
        Some(i) => {
            let s0 = find_line_start(out, i);
            proof {
                lemma_line_start_props(out@, i as int);
            }
            let e = find_char_in(out, '\n', i, out.len());
            proof {
                lemma_scan_char_props(out@, '\n', i as int, out@.len() as int);
            }
            let c1 = find_char_in(out, ':', s0, e);
            proof {
                lemma_scan_char_props(out@, ':', s0 as int, e as int);
            }
            if c1 >= e {
                ServiceStatus::Unknown(Vec::new())
            } else {
                let c2 = find_char_in(out, ':', c1 + 1, e);
                proof {
                    lemma_scan_char_props(out@, ':', c1 + 1, e as int);
                }
                let m = find_nonspace_in(out, c1 + 1, c2);
                proof {
                    lemma_scan_nonspace_props(out@, c1 + 1, c2 as int);
                }
                let t = find_space_in(out, m, c2);
                proof {
                    lemma_scan_space_props(out@, m as int, c2 as int);
                }
                let tok = copy_range(out, m, t);
                translate_token(tok)
            }
        },
    }
}

/// The raw text a normalized status shows in diagnostic listings: the
/// documented state names, or the unrecognized state code verbatim, so that
/// no code is ever hidden from the operator.
pub open spec fn status_text_spec(s: StatusView) -> Seq<char> {
    match s {
        StatusView::NotFound => "NOT_FOUND"@,
        StatusView::Stopped => "STOPPED"@,
        StatusView::StartPending => "START_PENDING"@,
        StatusView::StopPending => "STOP_PENDING"@,
        StatusView::Running => "RUNNING"@,
        StatusView::Unknown(tok) => tok,
    }
}

/// Renders a status for a diagnostic listing; an unrecognized state code is
/// shown verbatim.
pub fn status_text(s: &ServiceStatus) -> (r: Vec<char>)
    ensures
        r@ == status_text_spec(s@),
{
    match s {
        ServiceStatus::NotFound => str_chars("NOT_FOUND"),
        ServiceStatus::Stopped => str_chars("STOPPED"),
        ServiceStatus::StartPending => str_chars("START_PENDING"),
        ServiceStatus::StopPending => str_chars("STOP_PENDING"),
        ServiceStatus::Running => str_chars("RUNNING"),
        ServiceStatus::Unknown(tok) => copy_range(tok, 0, tok.len()),
    }
}

/// Clones a status value, field for field.
pub fn clone_status(s: &ServiceStatus) -> (r: ServiceStatus)
    ensures
        r@ == s@,
{
    match s {
        ServiceStatus::NotFound => ServiceStatus::NotFound,
        ServiceStatus::Stopped => ServiceStatus::Stopped,
        ServiceStatus::StartPending => ServiceStatus::StartPending,
        ServiceStatus::StopPending => ServiceStatus::StopPending,
        ServiceStatus::Running => ServiceStatus::Running,
        ServiceStatus::Unknown(tok) => {
            let copied = copy_range(tok, 0, tok.len());
            proof {
                assert(copied@ =~= tok@);
            }
            ServiceStatus::Unknown(copied)
        },
    }
}

/// Every token in 1 to 4 is translated to its documented status; every other
/// token comes back as `Unknown` carrying exactly that token.
pub proof fn lemma_translator_documented(tok: Seq<char>)
    ensures
        tok == seq!['1'] ==> translate_token_spec(tok) == StatusView::Stopped,
        tok == seq!['2'] ==> translate_token_spec(tok) == StatusView::StartPending,
        tok == seq!['3'] ==> translate_token_spec(tok) == StatusView::StopPending,
        tok == seq!['4'] ==> translate_token_spec(tok) == StatusView::Running,
        tok != seq!['1'] && tok != seq!['2'] && tok != seq!['3'] && tok != seq!['4']
            ==> translate_token_spec(tok) == StatusView::Unknown(tok),
{
    assert(seq!['1'][0] == '1');
    assert(seq!['2'][0] == '2');
    assert(seq!['3'][0] == '3');
    assert(seq!['4'][0] == '4');
}

/// An answer that carries no state label anywhere always normalizes to
/// `NotFound`.
pub proof fn lemma_no_state_label_means_not_found(out: Seq<char>)
    requires
        !contains_pat(out, state_label()),
    ensures
        parse_query_spec(out) == StatusView::NotFound,
{
}

} // verus!
