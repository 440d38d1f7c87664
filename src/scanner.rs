//! The slide XML text scanner: a left-to-right pass over a restricted OOXML
//! dialect (`a:t` runs, `a:p` paragraphs, `a:br` breaks) that tolerates
//! malformed markup, followed by a single-pass entity decode.
use vstd::prelude::*;
use crate::text::{string_from_chars, to_chars};

verus! {

/// Scanner state: the text so far, whether a run is open, and the run's
/// pending characters.
pub struct ScanState {
    pub text: Seq<char>,
    pub in_run: bool,
    pub run: Seq<char>,
}

pub open spec fn initial_scan() -> ScanState {
    ScanState { text: Seq::empty(), in_run: false, run: Seq::empty() }
}

/// Index of the first `>` at or after `i`, or `s.len()` when there is none.
pub open spec fn tag_end(s: Seq<char>, i: int) -> int
    decreases s.len() - i,
{
    if i >= s.len() {
        s.len() as int
    } else if s[i] == '>' {
        i
    } else {
        tag_end(s, i + 1)
    }
}

/// `a:t`, with or without attributes.
pub open spec fn is_run_open(t: Seq<char>) -> bool {
    &&& t.len() >= 3
    &&& t[0] == 'a'
    &&& t[1] == ':'
    &&& t[2] == 't'
    &&& (t.len() == 3 || t[3] == ' ')
}

/// `/a:t`.
pub open spec fn is_run_close(t: Seq<char>) -> bool {
    t == seq!['/', 'a', ':', 't']
}

/// `/a:p`, `a:br` or `a:br/`.
pub open spec fn is_break(t: Seq<char>) -> bool {
    t == seq!['/', 'a', ':', 'p'] || t == seq!['a', ':', 'b', 'r'] || t == seq![
        'a',
        ':',
        'b',
        'r',
        '/',
    ]
}

/// The effect of one complete tag on the scanner state.
pub open spec fn apply_tag(st: ScanState, t: Seq<char>) -> ScanState {
    if is_run_open(t) {
        ScanState { text: st.text, in_run: true, run: Seq::empty() }
    } else if is_run_close(t) {
        if st.in_run && st.run.len() > 0 {
            ScanState { text: st.text + st.run.push(' '), in_run: false, run: Seq::empty() }
        } else {
            ScanState { text: st.text, in_run: false, run: Seq::empty() }
        }
    } else if is_break(t) {
        if st.text.len() == 0 || st.text.last() != '\n' {
            ScanState { text: st.text.push('\n'), in_run: st.in_run, run: st.run }
        } else {
            st
        }
    } else {
        st
    }
}

/// Runs the scanner from position `i` of `s` in state `st`. A `<` with no
/// closing `>` ends the scan: the partial tag is dropped.
pub open spec fn scan_from(s: Seq<char>, i: int, st: ScanState) -> ScanState
    decreases s.len() - i,
{
    if i < 0 || i >= s.len() {
        st
    } else if s[i] == '<' {
        let j = tag_end(s, i + 1);
        if j <= i || j >= s.len() {
            st
        } else {
            scan_from(s, j + 1, apply_tag(st, s.subrange(i + 1, j)))
        }
    } else if st.in_run {
        scan_from(s, i + 1, ScanState { text: st.text, in_run: true, run: st.run.push(s[i]) })
    } else {
        scan_from(s, i + 1, st)
    }
}

pub open spec fn amp_entity() -> Seq<char> {
    seq!['&', 'a', 'm', 'p', ';']
}

pub open spec fn lt_entity() -> Seq<char> {
    seq!['&', 'l', 't', ';']
}

pub open spec fn gt_entity() -> Seq<char> {
    seq!['&', 'g', 't', ';']
}

pub open spec fn quot_entity() -> Seq<char> {
    seq!['&', 'q', 'u', 'o', 't', ';']
}

pub open spec fn apos_entity() -> Seq<char> {
    seq!['&', 'a', 'p', 'o', 's', ';']
}

pub open spec fn num39_entity() -> Seq<char> {
    seq!['&', '#', '3', '9', ';']
}

pub open spec fn starts_with(s: Seq<char>, p: Seq<char>) -> bool {
    p.len() <= s.len() && s.subrange(0, p.len() as int) == p
}

/// The entity that `s` starts with, as its length and the character it
/// stands for.
pub open spec fn entity_at(s: Seq<char>) -> Option<(nat, char)> {
    if starts_with(s, amp_entity()) {
        Some((5, '&'))
    } else if starts_with(s, lt_entity()) {
        Some((4, '<'))
    } else if starts_with(s, gt_entity()) {
        Some((4, '>'))
    } else if starts_with(s, quot_entity()) {
        Some((6, '"'))
    } else if starts_with(s, apos_entity()) {
        Some((6, '\''))
    } else if starts_with(s, num39_entity()) {
        Some((5, '\''))
    } else {
        None
    }
}

/// Decodes the six entities in one pass, left to right: the characters an
/// entity produces are never decoded again.
pub open spec fn decode_entities(s: Seq<char>) -> Seq<char>
    decreases s.len(),
{
    if s.len() == 0 {
        s
    } else {
        match entity_at(s) {
            Some((n, c)) => if 0 < n <= s.len() {
                seq![c] + decode_entities(s.subrange(n as int, s.len() as int))
            } else {
                s
            },
            None => seq![s[0]] + decode_entities(s.drop_first()),
        }
    }
}

/// The plain text of a slide's XML.
pub open spec fn slide_xml_text(xml: Seq<char>) -> Seq<char> {
    decode_entities(scan_from(xml, 0, initial_scan()).text)
}

fn tag_is_run_open(t: &Vec<char>) -> (r: bool)
    ensures
        r == is_run_open(t@),
{
    t.len() >= 3 && t[0] == 'a' && t[1] == ':' && t[2] == 't' && (t.len() == 3 || t[3] == ' ')
}

fn tag_is_run_close(t: &Vec<char>) -> (r: bool)
    ensures
        r == is_run_close(t@),
{
    let r = t.len() == 4 && t[0] == '/' && t[1] == 'a' && t[2] == ':' && t[3] == 't';
    proof {
        if r {
            assert(t@ =~= seq!['/', 'a', ':', 't']);
        }
    }
    r
}

fn tag_is_break(t: &Vec<char>) -> (r: bool)
    ensures
        r == is_break(t@),
{
    let p = t.len() == 4 && t[0] == '/' && t[1] == 'a' && t[2] == ':' && t[3] == 'p';
    let b = t.len() >= 4 && t[0] == 'a' && t[1] == ':' && t[2] == 'b' && t[3] == 'r';
    let r = p || (b && (t.len() == 4 || (t.len() == 5 && t[4] == '/')));
    proof {
        if p {
            assert(t@ =~= seq!['/', 'a', ':', 'p']);
        }
        if b && t.len() == 4 {
            assert(t@ =~= seq!['a', ':', 'b', 'r']);
        }
        if b && t.len() == 5 && t[4] == '/' {
            assert(t@ =~= seq!['a', ':', 'b', 'r', '/']);
        }
    }
    r
}


/// Whether the pattern `p` occurs in `s` at position `i`.
pub(crate) fn matches_at(s: &Vec<char>, i: usize, p: &Vec<char>) -> (r: bool)
    requires
        i <= s.len(),
    ensures
        r == starts_with(s@.subrange(i as int, s.len() as int), p@),
{
    let ghost rest = s@.subrange(i as int, s.len() as int);
    if p.len() > s.len() - i {
        return false;
    }
    let mut k: usize = 0;
    while k < p.len()
        invariant
            i + p.len() <= s.len(),
            rest == s@.subrange(i as int, s.len() as int),
            k <= p.len(),
            forall|m: int| 0 <= m < k ==> s@[i + m] == p@[m],
        decreases p.len() - k,
    {
        if s[i + k] != p[k] {
            assert(rest.subrange(0, p.len() as int)[k as int] != p@[k as int]);
            return false;
        }
        k = k + 1;
    }
    assert(rest.subrange(0, p.len() as int) =~= p@);
    true
}

/// The entity at position `i` of `s`, if any, as its length and character.
fn entity_at_pos(s: &Vec<char>, i: usize) -> (r: Option<(usize, char)>)
    requires
        i <= s.len(),
    ensures
        match r {
            Some((n, c)) => entity_at(s@.subrange(i as int, s.len() as int)) == Some((n as nat, c)),
            None => entity_at(s@.subrange(i as int, s.len() as int)) is None,
        },
{
    let amp = vec!['&', 'a', 'm', 'p', ';'];
    let lt = vec!['&', 'l', 't', ';'];
    let gt = vec!['&', 'g', 't', ';'];
    let quot = vec!['&', 'q', 'u', 'o', 't', ';'];
    let apos = vec!['&', 'a', 'p', 'o', 's', ';'];
    let num39 = vec!['&', '#', '3', '9', ';'];
    assert(amp@ =~= amp_entity());
    assert(lt@ =~= lt_entity());
    assert(gt@ =~= gt_entity());
    assert(quot@ =~= quot_entity());
    assert(apos@ =~= apos_entity());
    assert(num39@ =~= num39_entity());
    if matches_at(s, i, &amp) {
        Some((5, '&'))
    } else if matches_at(s, i, &lt) {
        Some((4, '<'))
    } else if matches_at(s, i, &gt) {
        Some((4, '>'))
    } else if matches_at(s, i, &quot) {
        Some((6, '"'))
    } else if matches_at(s, i, &apos) {
        Some((6, '\''))
    } else if matches_at(s, i, &num39) {
        Some((5, '\''))
    } else {
        None
    }
}

/// Decodes `&amp;`, `&lt;`, `&gt;`, `&quot;`, `&apos;` and `&#39;` in one pass.
pub fn decode_entity_chars(s: &Vec<char>) -> (r: Vec<char>)
    ensures
        r@ == decode_entities(s@),
{
    let n = s.len();
    let mut out: Vec<char> = Vec::new();
    let mut i: usize = 0;
    assert(s@.subrange(0, n as int) =~= s@);
    while i < n
        invariant
            n == s.len(),
            i <= n,
            decode_entities(s@) == out@ + decode_entities(s@.subrange(i as int, n as int)),
        decreases n - i,
    {
        let ghost rest = s@.subrange(i as int, n as int);
        match entity_at_pos(s, i) {
            Some((k, c)) => {
                assert(k <= rest.len());
                assert(rest.subrange(k as int, rest.len() as int) =~= s@.subrange(
                    i + k,
                    n as int,
                ));
                out.push(c);
                i = i + k;
            },
            None => {
                assert(rest.drop_first() =~= s@.subrange(i + 1, n as int));
                out.push(s[i]);
                i = i + 1;
            },
        }
        assert(decode_entities(s@) =~= out@ + decode_entities(s@.subrange(i as int, n as int)));
    }
    out
}

/// Extracts the plain text of a slide's XML: the content of each `a:t` run
/// followed by a space, a newline at each paragraph end or line break, and
/// entities decoded. Markup that does not fit the dialect is skipped, never
/// rejected.
pub fn extract_text_from_xml(xml: &str) -> (r: String)
    ensures
        r@ == slide_xml_text(xml@),
{
    let s = to_chars(xml);
    let n = s.len();
    let mut text: Vec<char> = Vec::new();
    let mut in_run = false;
    let mut run: Vec<char> = Vec::new();
    let mut i: usize = 0;
    while i < n
        invariant
            n == s.len(),
            s@ == xml@,
            i <= n,
            scan_from(s@, i as int, ScanState { text: text@, in_run, run: run@ }) == scan_from(
                s@,
                0,
                initial_scan(),
            ),
        decreases n - i,
    {
        let ghost st = ScanState { text: text@, in_run, run: run@ };
        let c = s[i];
        if c == '<' {
            let mut tag: Vec<char> = Vec::new();
            let mut j: usize = i + 1;
            assert(tag@ =~= s@.subrange(i + 1, j as int));
            while j < n && s[j] != '>'
                invariant
                    n == s.len(),
                    i < n,
                    i + 1 <= j <= n,
                    tag@ == s@.subrange(i + 1, j as int),
                    tag_end(s@, j as int) == tag_end(s@, i + 1),
                decreases n - j,
            {
                tag.push(s[j]);
                j = j + 1;
                assert(tag@ =~= s@.subrange(i + 1, j as int));
            }
            if j >= n {
                i = n;
            } else {
                if tag_is_run_open(&tag) {
                    in_run = true;
                    run = Vec::new();
                } else if tag_is_run_close(&tag) {
                    if in_run && run.len() > 0 {
                        text.append(&mut run);
                        text.push(' ');
                    }
                    run = Vec::new();
                    in_run = false;
                } else if tag_is_break(&tag) {
                    if text.len() == 0 || text[text.len() - 1] != '\n' {
                        text.push('\n');
                    }
                }
                proof {
                    assert(apply_tag(st, tag@).text =~= text@);
                    assert(apply_tag(st, tag@).run =~= run@);
                }
                i = j + 1;
            }
        } else {
            if in_run {
                run.push(c);
            }
            i = i + 1;
        }
    }
    let decoded = decode_entity_chars(&text);
    string_from_chars(&decoded)
}

} // verus!
