//! Escape sequences of the frame stream: CSI, OSC, and the OSC 8 hyperlink.

use crate::shared::{link_text, shared_str};
use crate::text::{find_char, first_at, is_control, is_control_char, string_of};
use std::rc::Rc;
use vstd::prelude::*;
use vstd::slice::slice_subrange;

verus! {

/// A CSI sequence is recognised within this many characters.
pub const CSI_MAX: usize = 64;

// ---------------------------------------------------------------------------
// CSI

/// A recognised CSI sequence: its parameter bytes, its final byte, and how
/// many characters it takes up.
pub struct Csi {
    pub params: Seq<char>,
    pub last: char,
    pub len: int,
}

/// Parameter bytes: digits and `:;<=>?`.
pub open spec fn is_param(c: char) -> bool {
    '\u{30}' <= c <= '\u{3f}'
}

/// Intermediate bytes: space and ``!"#$%&'()*+,-./``.
pub open spec fn is_intermediate(c: char) -> bool {
    '\u{20}' <= c <= '\u{2f}'
}

/// Final bytes: letters and ``@[\]^_`{|}~``.
pub open spec fn is_final(c: char) -> bool {
    '\u{40}' <= c <= '\u{7e}'
}

/// The first place at or after `i` that holds no parameter byte.
pub open spec fn params_end(s: Seq<char>, i: int) -> int
    decreases s.len() - i,
{
    if i < s.len() && is_param(s[i]) {
        params_end(s, i + 1)
    } else {
        i
    }
}

/// The first place at or after `i` that holds no intermediate byte.
pub open spec fn intermediates_end(s: Seq<char>, i: int) -> int
    decreases s.len() - i,
{
    if i < s.len() && is_intermediate(s[i]) {
        intermediates_end(s, i + 1)
    } else {
        i
    }
}

/// The CSI sequence that a text begins with: `ESC [`, parameter bytes,
/// intermediate bytes, and one final byte.
pub open spec fn csi(s: Seq<char>) -> Option<Csi> {
    let m = params_end(s, 2);
    let k = intermediates_end(s, m);
    if s.len() >= 2 && s[0] == '\u{1b}' && s[1] == '[' && k < s.len() && k < CSI_MAX && is_final(
        s[k],
    ) {
        Some(Csi { params: s.subrange(2, m), last: s[k], len: k + 1 })
    } else {
        None
    }
}

proof fn lemma_params_end(s: Seq<char>, i: int)
    requires
        0 <= i <= s.len(),
    ensures
        i <= params_end(s, i) <= s.len(),
        forall|j: int| i <= j < params_end(s, i) ==> is_param(#[trigger] s[j]),
        params_end(s, i) < s.len() ==> !is_param(s[params_end(s, i)]),
    decreases s.len() - i,
{
    if i < s.len() && is_param(s[i]) {
        lemma_params_end(s, i + 1);
    }
}

proof fn lemma_intermediates_end(s: Seq<char>, i: int)
    requires
        0 <= i <= s.len(),
    ensures
        i <= intermediates_end(s, i) <= s.len(),
        forall|j: int| i <= j < intermediates_end(s, i) ==> is_intermediate(#[trigger] s[j]),
        intermediates_end(s, i) < s.len() ==> !is_intermediate(s[intermediates_end(s, i)]),
    decreases s.len() - i,
{
    if i < s.len() && is_intermediate(s[i]) {
        lemma_intermediates_end(s, i + 1);
    }
}

/// A recognised CSI sequence has at least three characters, at most
/// [`CSI_MAX`], and lies within the text.
pub proof fn lemma_csi_len(s: Seq<char>)
    ensures
        csi(s) matches Some(c) ==> 3 <= c.len <= CSI_MAX && c.len <= s.len() && c.last == s[c.len
            - 1] && s[0] == '\u{1b}',
{
    if s.len() >= 2 {
        lemma_params_end(s, 2);
        lemma_intermediates_end(s, params_end(s, 2));
    }
}

/// Reads the CSI sequence that a text begins with: its parameter bytes, its
/// final byte, and its length.
pub fn parse_csi(chars: &[char]) -> (r: Option<(String, char, usize)>)
    ensures
        match r {
            Some((params, last, len)) => csi(chars@) == Some(
                (Csi { params: params@, last, len: len as int }),
            ),
            None => csi(chars@) is None,
        },
{
    if chars.len() < 3 || chars[0] != '\u{1b}' || chars[1] != '[' {
        proof {
            if chars@.len() >= 2 {
                lemma_params_end(chars@, 2);
                lemma_intermediates_end(chars@, params_end(chars@, 2));
            }
        }
        return None;
    }
    proof {
        lemma_params_end(chars@, 2);
        lemma_intermediates_end(chars@, params_end(chars@, 2));
    }
    let mut m: usize = 2;
    while m < chars.len() && m < CSI_MAX && '\u{30}' <= chars[m] && chars[m] <= '\u{3f}'
        invariant
            2 <= m <= chars@.len(),
            params_end(chars@, m as int) == params_end(chars@, 2),
        decreases chars@.len() - m,
    {
        m += 1;
    }
    if m >= CSI_MAX {
        proof {
            lemma_params_end(chars@, m as int);
            lemma_intermediates_end(chars@, params_end(chars@, m as int));
        }
        return None;
    }
    let mut k: usize = m;
    while k < chars.len() && k < CSI_MAX && '\u{20}' <= chars[k] && chars[k] <= '\u{2f}'
        invariant
            m <= k <= chars@.len(),
            intermediates_end(chars@, k as int) == intermediates_end(chars@, m as int),
        decreases chars@.len() - k,
    {
        k += 1;
    }
    proof {
        lemma_intermediates_end(chars@, k as int);
    }
    if k < chars.len() && k < CSI_MAX && '\u{40}' <= chars[k] && chars[k] <= '\u{7e}' {
        let params = string_of(slice_subrange(chars, 2, m));
        Some((params, chars[k], k + 1))
    } else {
        None
    }
}

// ---------------------------------------------------------------------------
// OSC

/// The first place at or after `i` that holds a BEL or an ESC.
pub open spec fn osc_stop(s: Seq<char>, i: int) -> int
    decreases s.len() - i,
{
    if i < s.len() && s[i] != '\u{7}' && s[i] != '\u{1b}' {
        osc_stop(s, i + 1)
    } else {
        i
    }
}

/// The length of the OSC sequence that a text begins with: `ESC ]`, characters
/// other than BEL and ESC, then BEL or `ESC \`.
pub open spec fn osc(s: Seq<char>) -> Option<int> {
    let k = osc_stop(s, 2);
    if s.len() < 2 || s[0] != '\u{1b}' || s[1] != ']' || k >= s.len() {
        None
    } else if s[k] == '\u{7}' {
        Some(k + 1)
    } else if k + 1 < s.len() && s[k + 1] == '\\' {
        Some(k + 2)
    } else {
        None
    }
}

proof fn lemma_osc_stop(s: Seq<char>, i: int)
    requires
        0 <= i <= s.len(),
    ensures
        i <= osc_stop(s, i) <= s.len(),
        forall|j: int| i <= j < osc_stop(s, i) ==> s[j] != '\u{7}' && s[j] != '\u{1b}',
        osc_stop(s, i) < s.len() ==> s[osc_stop(s, i)] == '\u{7}' || s[osc_stop(s, i)] == '\u{1b}',
    decreases s.len() - i,
{
    if i < s.len() && s[i] != '\u{7}' && s[i] != '\u{1b}' {
        lemma_osc_stop(s, i + 1);
    }
}

/// A recognised OSC sequence has at least three characters and lies within the text.
pub proof fn lemma_osc_len(s: Seq<char>)
    ensures
        osc(s) matches Some(len) ==> 3 <= len <= s.len() && s[0] == '\u{1b}',
{
    if s.len() >= 2 {
        lemma_osc_stop(s, 2);
    }
}

/// Reads the OSC sequence that a text begins with: its length.
pub fn parse_osc(chars: &[char]) -> (r: Option<usize>)
    ensures
        match r {
            Some(len) => osc(chars@) == Some(len as int),
            None => osc(chars@) is None,
        },
{
    if chars.len() < 2 || chars[0] != '\u{1b}' || chars[1] != ']' {
        return None;
    }
    let mut i: usize = 2;
    while i < chars.len()
        invariant
            2 <= i <= chars@.len(),
            chars@[0] == '\u{1b}',
            chars@[1] == ']',
            osc_stop(chars@, i as int) == osc_stop(chars@, 2),
        decreases chars@.len() - i,
    {
        if chars[i] == '\u{7}' {
            return Some(i + 1);
        }
        if chars[i] == '\u{1b}' {
            if i + 1 < chars.len() && chars[i + 1] == '\\' {
                return Some(i + 2);
            }
            return None;
        }
        i += 1;
    }
    None
}

// ---------------------------------------------------------------------------
// OSC 8

/// What an OSC sequence carries between its introducer and its terminator.
pub open spec fn osc_body(s: Seq<char>) -> Option<Seq<char>> {
    if s.len() < 2 || s[0] != '\u{1b}' || s[1] != ']' {
        None
    } else {
        let body = s.skip(2);
        let n = body.len();
        if n >= 1 && body[n - 1] == '\u{7}' {
            Some(body.take(n - 1))
        } else if n >= 2 && body[n - 2] == '\u{1b}' && body[n - 1] == '\\' {
            Some(body.take(n - 2))
        } else {
            None
        }
    }
}

/// A text without its control characters.
pub open spec fn without_controls(s: Seq<char>) -> Seq<char>
    decreases s.len(),
{
    if s.len() == 0 {
        s
    } else if is_control_char(s.last()) {
        without_controls(s.drop_last())
    } else {
        without_controls(s.drop_last()).push(s.last())
    }
}

/// The link that a hyperlink sequence leaves open, given what follows `8;`:
/// what comes after the next semicolon, without control characters. None of
/// that is left, or no semicolon is there, and the link is closed.
pub open spec fn hyperlink_target(rest: Seq<char>) -> Option<Seq<char>> {
    let k = first_at(rest, ';', 0);
    let uri = if 0 <= k < rest.len() {
        without_controls(rest.skip(k + 1))
    } else {
        Seq::empty()
    };
    if uri.len() == 0 {
        None
    } else {
        Some(uri)
    }
}

/// Reads an OSC 8 hyperlink: `None` for another sequence, `Some(None)` where it
/// closes the link, and `Some(Some(uri))` where it opens one.
pub open spec fn osc8(s: Seq<char>) -> Option<Option<Seq<char>>> {
    match osc_body(s) {
        Some(body) => if body.len() >= 2 && body[0] == '8' && body[1] == ';' {
            Some(hyperlink_target(body.skip(2)))
        } else {
            None
        },
        None => None,
    }
}

fn strip_controls(chars: &[char]) -> (r: Vec<char>)
    ensures
        r@ == without_controls(chars@),
{
    let mut r: Vec<char> = Vec::new();
    let mut i: usize = 0;
    assert(chars@.take(0) =~= Seq::<char>::empty());
    while i < chars.len()
        invariant
            i <= chars@.len(),
            r@ == without_controls(chars@.take(i as int)),
        decreases chars@.len() - i,
    {
        assert(chars@.take(i + 1).drop_last() =~= chars@.take(i as int));
        if !is_control(chars[i]) {
            r.push(chars[i]);
        }
        i += 1;
    }
    assert(chars@.take(i as int) =~= chars@);
    r
}

pub fn parse_osc8(seq: &[char]) -> (r: Option<Option<Rc<str>>>)
    ensures
        match r {
            Some(link) => osc8(seq@) == Some(link_text(link)),
            None => osc8(seq@) is None,
        },
{
    let n = seq.len();
    if n < 3 || seq[0] != '\u{1b}' || seq[1] != ']' {
        return None;
    }
    let end: usize = if seq[n - 1] == '\u{7}' {
        n - 1
    } else if n >= 4 && seq[n - 2] == '\u{1b}' && seq[n - 1] == '\\' {
        n - 2
    } else {
        return None;
    };
    let body = slice_subrange(seq, 2, end);
    assert(osc_body(seq@) == Some(body@)) by {
        assert(seq@.skip(2).take(end - 2) =~= body@);
    }
    if body.len() < 2 || body[0] != '8' || body[1] != ';' {
        return None;
    }
    let rest = slice_subrange(body, 2, body.len());
    assert(rest@ =~= body@.skip(2));
    let k = find_char(rest, ';', 0);
    if k == rest.len() {
        return Some(None);
    }
    let target = slice_subrange(rest, k + 1, rest.len());
    assert(target@ =~= rest@.skip(k + 1));
    let uri = strip_controls(target);
    if uri.len() == 0 {
        Some(None)
    } else {
        let text = string_of(uri.as_slice());
        Some(Some(shared_str(text.as_str())))
    }
}

} // verus!
