//! Slide parts of a package: which entry names are slides, the ordinal in a
//! slide's file name, the order slides are read in, and how their texts are
//! joined under slide markers.
use vstd::prelude::*;
use crate::scanner::starts_with;
use crate::text::{chars_blank, decimal, is_blank, push_decimal, to_chars};

verus! {

/// The views of a list of strings.
pub open spec fn views(v: Seq<String>) -> Seq<Seq<char>> {
    v.map_values(|s: String| s@)
}

/// `ppt/slides/slide`.
pub open spec fn slide_dir_prefix() -> Seq<char> {
    seq!['p', 'p', 't', '/', 's', 'l', 'i', 'd', 'e', 's', '/', 's', 'l', 'i', 'd', 'e']
}

pub open spec fn xml_suffix() -> Seq<char> {
    seq!['.', 'x', 'm', 'l']
}

pub open spec fn ends_with(s: Seq<char>, p: Seq<char>) -> bool {
    p.len() <= s.len() && s.subrange(s.len() - p.len(), s.len() as int) == p
}

/// A slide part: a file directly in `ppt/slides/` whose name starts with
/// `slide` and ends with `.xml`.
pub open spec fn is_slide_name(n: Seq<char>) -> bool {
    &&& starts_with(n, slide_dir_prefix())
    &&& ends_with(n, xml_suffix())
    &&& forall|i: int| 11 <= i < n.len() ==> #[trigger] n[i] != '/'
}

/// Index of the last `/` before position `i`, or -1.
pub open spec fn last_slash(s: Seq<char>, i: int) -> int
    decreases i,
{
    if i <= 0 {
        -1
    } else if s[i - 1] == '/' {
        i - 1
    } else {
        last_slash(s, i - 1)
    }
}

/// The final path segment.
pub open spec fn file_name(s: Seq<char>) -> Seq<char> {
    s.subrange(last_slash(s, s.len() as int) + 1, s.len() as int)
}

pub open spec fn is_digit(c: char) -> bool {
    '0' <= c <= '9'
}

pub open spec fn digits_value(d: Seq<char>) -> int
    decreases d.len(),
{
    if d.len() == 0 {
        0
    } else {
        digits_value(d.drop_last()) * 10 + ((d.last() as u32) as int - 48)
    }
}

/// `t` without its leading `+`, if it has one.
pub open spec fn unsigned_digits(t: Seq<char>) -> Seq<char> {
    if t.len() > 0 && t[0] == '+' {
        t.drop_first()
    } else {
        t
    }
}

/// A decimal `u32` with an optional leading `+`, as `str::parse::<u32>`
/// accepts it.
pub open spec fn parse_u32(t: Seq<char>) -> Option<u32> {
    let d = unsigned_digits(t);
    if d.len() > 0 && (forall|i: int| 0 <= i < d.len() ==> is_digit(#[trigger] d[i]))
        && digits_value(d) <= u32::MAX {
        Some(digits_value(d) as u32)
    } else {
        None
    }
}

/// The number between `slide` and `.xml` in the final path segment.
pub open spec fn slide_number(name: Seq<char>) -> Option<u32> {
    let f = file_name(name);
    if f.len() >= 9 && starts_with(f, seq!['s', 'l', 'i', 'd', 'e']) && ends_with(
        f,
        xml_suffix(),
    ) {
        parse_u32(f.subrange(5, f.len() - 4))
    } else {
        None
    }
}

/// The key slides are ordered by: their number, or 0 when there is none.
pub open spec fn slide_key(name: Seq<char>) -> u32 {
    match slide_number(name) {
        Some(k) => k,
        None => 0,
    }
}

/// `s` with `x` inserted after every trailing entry whose key is larger.
pub open spec fn insert_by_key(s: Seq<Seq<char>>, x: Seq<char>) -> Seq<Seq<char>>
    decreases s.len(),
{
    if s.len() == 0 {
        seq![x]
    } else if slide_key(s.last()) <= slide_key(x) {
        s.push(x)
    } else {
        insert_by_key(s.drop_last(), x).push(s.last())
    }
}

/// The slide parts among `names`, by ascending key; parts with equal keys
/// keep their order in `names`.
pub open spec fn slide_order(names: Seq<Seq<char>>) -> Seq<Seq<char>>
    decreases names.len(),
{
    if names.len() == 0 {
        Seq::empty()
    } else {
        let r = slide_order(names.drop_last());
        if is_slide_name(names.last()) {
            insert_by_key(r, names.last())
        } else {
            r
        }
    }
}

pub open spec fn keys_sorted(s: Seq<Seq<char>>) -> bool {
    forall|i: int, j: int|
        0 <= i < j < s.len() ==> slide_key(#[trigger] s[i]) <= slide_key(#[trigger] s[j])
}

/// `--- Slide n ---` and a newline.
pub open spec fn slide_header(n: nat) -> Seq<char> {
    seq!['-', '-', '-', ' ', 'S', 'l', 'i', 'd', 'e', ' '] + decimal(n) + seq![
        ' ',
        '-',
        '-',
        '-',
        '\n',
    ]
}

/// What closes a slide's block so that it ends with one blank line: a
/// newline when the text already ends with one, else two.
pub open spec fn block_end(text: Seq<char>) -> Seq<char> {
    if text.len() > 0 && text.last() == '\n' {
        seq!['\n']
    } else {
        seq!['\n', '\n']
    }
}

/// How many of `texts` are not blank.
pub open spec fn count_shown(texts: Seq<Seq<char>>) -> nat
    decreases texts.len(),
{
    if texts.len() == 0 {
        0
    } else {
        count_shown(texts.drop_last()) + if is_blank(texts.last()) {
            0nat
        } else {
            1nat
        }
    }
}

/// The slide texts joined: each text that is not blank follows a header with
/// its position among the texts shown, and its block ends with one blank
/// line.
pub open spec fn slides_text(texts: Seq<Seq<char>>) -> Seq<char>
    decreases texts.len(),
{
    if texts.len() == 0 {
        Seq::empty()
    } else {
        let prev = slides_text(texts.drop_last());
        if is_blank(texts.last()) {
            prev
        } else {
            prev + slide_header(count_shown(texts.drop_last()) + 1) + texts.last()
                + block_end(texts.last())
        }
    }
}


/// Parses `s[a..b]` as `str::parse::<u32>` does.
fn parse_u32_range(s: &Vec<char>, a: usize, b: usize) -> (r: Option<u32>)
    requires
        a <= b <= s.len(),
    ensures
        r == parse_u32(s@.subrange(a as int, b as int)),
{
    let ghost t = s@.subrange(a as int, b as int);
    let start: usize = if a < b && s[a] == '+' {
        a + 1
    } else {
        a
    };
    let ghost d = unsigned_digits(t);
    assert(d =~= s@.subrange(start as int, b as int));
    if start == b {
        return None;
    }
    let mut val: u64 = 0;
    let mut big = false;
    let mut k: usize = start;
    assert(s@.subrange(start as int, k as int) =~= Seq::<char>::empty());
    while k < b
        invariant
            a <= start < b <= s.len(),
            start <= k <= b,
            d == s@.subrange(start as int, b as int),
            t == s@.subrange(a as int, b as int),
            d == unsigned_digits(t),
            forall|m: int| start <= m < k ==> is_digit(#[trigger] s@[m]),
            big ==> digits_value(s@.subrange(start as int, k as int)) > u32::MAX,
            !big ==> val == digits_value(s@.subrange(start as int, k as int)) && val
                <= u32::MAX,
            digits_value(s@.subrange(start as int, k as int)) >= 0,
        decreases b - k,
    {
        let c = s[k];
        if !('0' <= c && c <= '9') {
            assert(!is_digit(d[k - start]));
            assert(!(forall|i: int| 0 <= i < d.len() ==> is_digit(#[trigger] d[i])));
            return None;
        }
        let ghost prev = s@.subrange(start as int, k as int);
        assert(s@.subrange(start as int, k + 1).drop_last() =~= prev);
        if !big {
            let nv = val * 10 + (c as u64 - 48);
            if nv > 0xffff_ffff {
                big = true;
            } else {
                val = nv;
            }
        }
        k = k + 1;
    }
    if big {
        None
    } else {
        Some(val as u32)
    }
}

/// The number between `slide` and `.xml` in the final path segment of
/// `name` (`ppt/slides/slide12.xml` gives 12).
pub fn extract_slide_number(name: &str) -> (r: Option<u32>)
    ensures
        r == slide_number(name@),
{
    let s = to_chars(name);
    let n = s.len();
    let mut j: usize = n;
    while j > 0 && s[j - 1] != '/'
        invariant
            j <= n == s.len(),
            last_slash(s@, j as int) == last_slash(s@, n as int),
        decreases j,
    {
        j = j - 1;
    }
    // `j` is one past the last slash.
    let ghost f = file_name(s@);
    assert(f =~= s@.subrange(j as int, n as int));
    if n - j < 9 {
        return None;
    }
    let pre = s[j] == 's' && s[j + 1] == 'l' && s[j + 2] == 'i' && s[j + 3] == 'd' && s[j + 4]
        == 'e';
    let suf = s[n - 4] == '.' && s[n - 3] == 'x' && s[n - 2] == 'm' && s[n - 1] == 'l';
    proof {
        if pre {
            assert(f.subrange(0, 5) =~= seq!['s', 'l', 'i', 'd', 'e']);
        }
        if suf {
            assert(f.subrange(f.len() - 4, f.len() as int) =~= xml_suffix());
        }
    }
    if !pre {
        assert(f.subrange(0, 5) != seq!['s', 'l', 'i', 'd', 'e']) by {
            if s@[j as int] != 's' {
                assert(f.subrange(0, 5)[0] != seq!['s', 'l', 'i', 'd', 'e'][0]);
            } else if s@[j + 1] != 'l' {
                assert(f.subrange(0, 5)[1] != seq!['s', 'l', 'i', 'd', 'e'][1]);
            } else if s@[j + 2] != 'i' {
                assert(f.subrange(0, 5)[2] != seq!['s', 'l', 'i', 'd', 'e'][2]);
            } else if s@[j + 3] != 'd' {
                assert(f.subrange(0, 5)[3] != seq!['s', 'l', 'i', 'd', 'e'][3]);
            } else {
                assert(f.subrange(0, 5)[4] != seq!['s', 'l', 'i', 'd', 'e'][4]);
            }
        }
        return None;
    }
    if !suf {
        let ghost tail = f.subrange(f.len() - 4, f.len() as int);
        assert(tail != xml_suffix()) by {
            if s@[n - 4] != '.' {
                assert(tail[0] != xml_suffix()[0]);
            } else if s@[n - 3] != 'x' {
                assert(tail[1] != xml_suffix()[1]);
            } else if s@[n - 2] != 'm' {
                assert(tail[2] != xml_suffix()[2]);
            } else {
                assert(tail[3] != xml_suffix()[3]);
            }
        }
        return None;
    }
    assert(f.subrange(5, f.len() - 4) =~= s@.subrange(j + 5, n - 4));
    parse_u32_range(&s, j + 5, n - 4)
}


/// Whether `name` is a slide part.
pub fn is_slide_entry(name: &str) -> (r: bool)
    ensures
        r == is_slide_name(name@),
{
    let s = to_chars(name);
    let n = s.len();
    let prefix = vec!['p', 'p', 't', '/', 's', 'l', 'i', 'd', 'e', 's', '/', 's', 'l', 'i', 'd', 'e'];
    let suffix = vec!['.', 'x', 'm', 'l'];
    assert(prefix@ =~= slide_dir_prefix());
    assert(suffix@ =~= xml_suffix());
    assert(s@.subrange(0, n as int) =~= s@);
    if !crate::scanner::matches_at(&s, 0, &prefix) {
        return false;
    }
    let ghost tail = s@.subrange(n - 4, n as int);
    let mut k: usize = 0;
    while k < 4
        invariant
            n == s.len() >= 16,
            s@ == name@,
            tail == s@.subrange(n - 4, n as int),
            suffix@ == xml_suffix(),
            k <= 4,
            forall|m: int| 0 <= m < k ==> s@[n - 4 + m] == suffix@[m],
        decreases 4 - k,
    {
        if s[n - 4 + k] != suffix[k] {
            assert(tail[k as int] != xml_suffix()[k as int]);
            return false;
        }
        k = k + 1;
    }
    assert(tail =~= xml_suffix());
    let mut i: usize = 11;
    while i < n
        invariant
            n == s.len(),
            s@ == name@,
            11 <= i <= n,
            forall|m: int| 11 <= m < i ==> #[trigger] s@[m] != '/',
        decreases n - i,
    {
        if s[i] == '/' {
            return false;
        }
        i = i + 1;
    }
    true
}

proof fn lemma_insert_by_key_at(s: Seq<Seq<char>>, x: Seq<char>, j: int)
    requires
        0 <= j <= s.len(),
        forall|m: int| j <= m < s.len() ==> slide_key(#[trigger] s[m]) > slide_key(x),
        j == 0 || slide_key(s[j - 1]) <= slide_key(x),
    ensures
        insert_by_key(s, x) == s.insert(j, x),
    decreases s.len(),
{
    if s.len() == 0 {
        assert(s.insert(j, x) =~= seq![x]);
    } else if j == s.len() {
        assert(s.insert(j, x) =~= s.push(x));
    } else {
        assert(slide_key(s[s.len() - 1]) > slide_key(x));
        lemma_insert_by_key_at(s.drop_last(), x, j);
        assert(s.insert(j, x) =~= s.drop_last().insert(j, x).push(s.last()));
    }
}

proof fn lemma_insert_by_key_bounded(s: Seq<Seq<char>>, x: Seq<char>, b: u32)
    requires
        forall|m: int| 0 <= m < s.len() ==> slide_key(#[trigger] s[m]) <= b,
        slide_key(x) <= b,
    ensures
        insert_by_key(s, x).len() == s.len() + 1,
        forall|m: int|
            0 <= m < insert_by_key(s, x).len() ==> slide_key(#[trigger] insert_by_key(s, x)[m])
                <= b,
    decreases s.len(),
{
    if s.len() > 0 && slide_key(s.last()) > slide_key(x) {
        lemma_insert_by_key_bounded(s.drop_last(), x, b);
    }
}

proof fn lemma_insert_by_key_sorted(s: Seq<Seq<char>>, x: Seq<char>)
    requires
        keys_sorted(s),
    ensures
        keys_sorted(insert_by_key(s, x)),
    decreases s.len(),
{
    if s.len() > 0 && slide_key(s.last()) > slide_key(x) {
        let d = s.drop_last();
        lemma_insert_by_key_sorted(d, x);
        assert forall|m: int| 0 <= m < d.len() implies slide_key(#[trigger] d[m]) <= slide_key(
            s.last(),
        ) by {
            assert(d[m] == s[m]);
        }
        lemma_insert_by_key_bounded(d, x, slide_key(s.last()));
    }
}

/// Slides come out in ascending order of their number: `slide2.xml`,
/// `slide10.xml`, `slide1.xml` are read as 1, 2, 10.
pub proof fn lemma_slide_order_sorted(names: Seq<Seq<char>>)
    ensures
        keys_sorted(slide_order(names)),
    decreases names.len(),
{
    if names.len() > 0 {
        lemma_slide_order_sorted(names.drop_last());
        if is_slide_name(names.last()) {
            lemma_insert_by_key_sorted(slide_order(names.drop_last()), names.last());
        }
    }
}

/// The slide parts among `names`, in the order they are read: ascending
/// slide number (0 when there is none), ties in archive order.
pub fn order_slides(names: &Vec<String>) -> (r: Vec<String>)
    ensures
        views(r@) == slide_order(views(names@)),
{
    let mut sorted: Vec<String> = Vec::new();
    let mut keys: Vec<u32> = Vec::new();
    let mut i: usize = 0;
    while i < names.len()
        invariant
            i <= names.len(),
            keys.len() == sorted.len(),
            views(sorted@) == slide_order(views(names@.take(i as int))),
            forall|m: int| 0 <= m < keys.len() ==> keys@[m] == slide_key(#[trigger] sorted@[m]@),
        decreases names.len() - i,
    {
        let ghost before = names@.take(i as int);
        assert(views(names@.take(i + 1)).drop_last() =~= views(before));
        assert(views(names@.take(i + 1)).last() == names@[i as int]@);
        let name = &names[i];
        if is_slide_entry(name.as_str()) {
            let key: u32 = match extract_slide_number(name.as_str()) {
                Some(k) => k,
                None => 0,
            };
            let mut j: usize = sorted.len();
            while j > 0 && keys[j - 1] > key
                invariant
                    j <= sorted.len() == keys.len(),
                    forall|m: int| j <= m < keys.len() ==> keys@[m] > key,
                decreases j,
            {
                j = j - 1;
            }
            proof {
                let vs = views(sorted@);
                assert forall|m: int| j <= m < vs.len() implies slide_key(#[trigger] vs[m])
                    > slide_key(name@) by {
                    assert(keys@[m] == slide_key(sorted@[m]@));
                }
                if j > 0 {
                    assert(keys@[j - 1] == slide_key(sorted@[j - 1]@));
                }
                lemma_insert_by_key_at(vs, name@, j as int);
            }
            let ghost old_sorted = sorted@;
            sorted.insert(j, name.clone());
            keys.insert(j, key);
            assert(views(sorted@) =~= views(old_sorted).insert(j as int, name@));
            assert forall|m: int| 0 <= m < keys.len() implies keys@[m] == slide_key(
                #[trigger] sorted@[m]@,
            ) by {
                if m < j {
                    assert(sorted@[m] == old_sorted[m]);
                } else if m > j {
                    assert(sorted@[m] == old_sorted[m - 1]);
                }
            }
        }
        i = i + 1;
    }
    assert(names@.take(names.len() as int) =~= names@);
    sorted
}


/// The joined text of the slides whose XML parts are `xmls`, in order.
pub open spec fn slides_from_xml(xmls: Seq<Seq<char>>) -> Seq<char> {
    slides_text(xmls.map_values(|x: Seq<char>| crate::scanner::slide_xml_text(x)))
}

/// Appends `text` as the next slide block, unless it is blank.
pub fn push_slide_block(out: &mut Vec<char>, shown: &mut usize, text: &Vec<char>)
    requires
        *old(shown) < usize::MAX,
    ensures
        is_blank(text@) ==> final(out)@ == old(out)@ && *final(shown) == *old(shown),
        !is_blank(text@) ==> final(out)@ == old(out)@ + slide_header(*old(shown) as nat + 1)
            + text@ + block_end(text@) && *final(shown) == *old(shown) + 1,
{
    if chars_blank(text) {
        return;
    }
    *shown = *shown + 1;
    let mut head = vec!['-', '-', '-', ' ', 'S', 'l', 'i', 'd', 'e', ' '];
    let mut tail = vec![' ', '-', '-', '-', '\n'];
    let mut body = text.clone();
    assert(body@ =~= text@);
    let mut end = if text.len() > 0 && text[text.len() - 1] == '\n' {
        vec!['\n']
    } else {
        vec!['\n', '\n']
    };
    assert(end@ =~= block_end(text@));
    let ghost start = out@;
    let ghost tail_view = tail@;
    out.append(&mut head);
    push_decimal(out, *shown as u64);
    out.append(&mut tail);
    out.append(&mut body);
    out.append(&mut end);
    assert(out@ =~= start + slide_header(*shown as nat) + text@ + block_end(text@));
}

/// Joins the texts of the slides whose XML parts are `xmls`: each slide
/// with text gets a `--- Slide n ---` header numbered among the slides shown,
/// and its block ends with one blank line.
pub fn collect_slide_text(xmls: &Vec<String>) -> (r: String)
    ensures
        r@ == slides_from_xml(views(xmls@)),
{
    let mut out: Vec<char> = Vec::new();
    let mut shown: usize = 0;
    let mut i: usize = 0;
    while i < xmls.len()
        invariant
            i <= xmls.len(),
            shown <= i,
            out@ == slides_from_xml(views(xmls@.take(i as int))),
            shown == count_shown(
                views(xmls@.take(i as int)).map_values(
                    |x: Seq<char>| crate::scanner::slide_xml_text(x),
                ),
            ),
        decreases xmls.len() - i,
    {
        let t = crate::scanner::extract_text_from_xml(xmls[i].as_str());
        let tc = to_chars(t.as_str());
        let ghost prev = views(xmls@.take(i as int)).map_values(
            |x: Seq<char>| crate::scanner::slide_xml_text(x),
        );
        let ghost next = views(xmls@.take(i + 1)).map_values(
            |x: Seq<char>| crate::scanner::slide_xml_text(x),
        );
        assert(next.drop_last() =~= prev);
        assert(next.last() == tc@);
        push_slide_block(&mut out, &mut shown, &tc);
        i = i + 1;
    }
    assert(xmls@.take(xmls.len() as int) =~= xmls@);
    crate::text::string_from_chars(&out)
}


} // verus!
