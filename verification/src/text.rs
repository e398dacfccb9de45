//! Text helpers: trimming, searching and comparison.
use vstd::prelude::*;

verus! {

pub open spec fn text_option(text: Option<String>) -> Option<Seq<char>> {
    match text {
        Some(t) => Some(t@),
        None => None,
    }
}

pub open spec fn str_option(text: Option<&str>) -> Option<Seq<char>> {
    match text {
        Some(t) => Some(t@),
        None => None,
    }
}

/// The characters with the Unicode property `White_Space`.
pub open spec fn is_white_space(c: char) -> bool {
    let u = c as u32;
    ||| 0x09 <= u <= 0x0d
    ||| u == 0x20
    ||| u == 0x85
    ||| u == 0xa0
    ||| u == 0x1680
    ||| 0x2000 <= u <= 0x200a
    ||| u == 0x2028
    ||| u == 0x2029
    ||| u == 0x202f
    ||| u == 0x205f
    ||| u == 0x3000
}

/// `s` without the white space at its two ends.
pub open spec fn trimmed(s: Seq<char>) -> Seq<char>
    decreases s.len(),
{
    if s.len() > 0 && is_white_space(s.first()) {
        trimmed(s.drop_first())
    } else if s.len() > 0 && is_white_space(s.last()) {
        trimmed(s.drop_last())
    } else {
        s
    }
}

/// The characters of a text.
fn characters(s: &str) -> (r: Vec<char>)
    ensures
        r@ == s@,
{
    broadcast use vstd::string::axiom_spec_iter;

    let mut r: Vec<char> = Vec::new();
    for c in it: s.chars()
        invariant
            it.seq() == s@,
            r@ == s@.take(it.index() as int),
    {
        r.push(c);
        assert(r@ =~= s@.take(it.index() + 1));
    }
    assert(s@.take(s@.len() as int) =~= s@);
    r
}

/// Whether a character is white space.
fn white_space(c: char) -> (r: bool)
    ensures
        r == is_white_space(c),
{
    let u: u32 = c as u32;
    (0x09 <= u && u <= 0x0d) || u == 0x20 || u == 0x85 || u == 0xa0 || u == 0x1680 || (0x2000 <= u
        && u <= 0x200a) || u == 0x2028 || u == 0x2029 || u == 0x202f || u == 0x205f || u == 0x3000
}

proof fn lemma_trimmed_front(s: Seq<char>, n: int)
    requires
        0 <= n <= s.len(),
        forall|i: int| 0 <= i < n ==> is_white_space(#[trigger] s[i]),
    ensures
        trimmed(s) == trimmed(s.skip(n)),
    decreases n,
{
    if n == 0 {
        assert(s.skip(0) =~= s);
    } else {
        assert(is_white_space(s[0]));
        lemma_trimmed_front(s.drop_first(), n - 1);
        assert(s.drop_first().skip(n - 1) =~= s.skip(n));
    }
}

proof fn lemma_trimmed_back(s: Seq<char>, n: int)
    requires
        0 < n <= s.len(),
        !is_white_space(s.first()),
        !is_white_space(s[n - 1]),
        forall|i: int| n <= i < s.len() ==> is_white_space(#[trigger] s[i]),
    ensures
        trimmed(s) == s.take(n),
    decreases s.len(),
{
    if n == s.len() {
        assert(s.take(n) =~= s);
    } else {
        assert(is_white_space(s[s.len() - 1]));
        lemma_trimmed_back(s.drop_last(), n);
        assert(s.drop_last().take(n) =~= s.take(n));
    }
}

/// The text without the white space at its two ends.
pub(crate) fn trim(s: &str) -> (r: &str)
    ensures
        r@ == trimmed(s@),
{
    let chars: Vec<char> = characters(s);
    let mut start: usize = 0;
    while start < chars.len() && white_space(chars[start])
        invariant
            start <= chars@.len(),
            forall|i: int| 0 <= i < start ==> is_white_space(#[trigger] chars@[i]),
        decreases chars@.len() - start,
    {
        start = start + 1;
    }
    let mut end: usize = chars.len();
    while end > start && white_space(chars[end - 1])
        invariant
            start <= end <= chars@.len(),
            forall|i: int| end <= i < chars@.len() ==> is_white_space(#[trigger] chars@[i]),
        decreases end,
    {
        end = end - 1;
    }
    proof {
        lemma_trimmed_front(s@, start as int);
        let rest = s@.skip(start as int);
        if start < end {
            lemma_trimmed_back(rest, end - start);
            assert(rest.take(end - start) =~= s@.subrange(start as int, end as int));
        } else {
            assert(rest.len() == 0);
            assert(s@.subrange(start as int, end as int) =~= rest);
        }
    }
    s.substring_char(start, end)
}

/// `part` occurs somewhere in `s`.
pub open spec fn has_part(s: Seq<char>, part: Seq<char>) -> bool {
    exists|i: int|
        0 <= i <= s.len() - part.len() && #[trigger] s.subrange(i, i + part.len()) == part
}

/// Whether `part` stands in `chars` at the place `at`.
fn stands_at(chars: &Vec<char>, part: &Vec<char>, at: usize) -> (r: bool)
    requires
        at + part@.len() <= chars@.len(),
    ensures
        r == (chars@.subrange(at as int, at + part@.len()) == part@),
{
    let len: usize = chars.len();
    let mut i: usize = 0;
    while i < part.len()
        invariant
            i <= part@.len(),
            at + part@.len() <= chars@.len(),
            chars@.len() == len,
            forall|j: int| 0 <= j < i ==> chars@[at + j] == #[trigger] part@[j],
        decreases part@.len() - i,
    {
        if chars[at + i] != part[i] {
            assert(chars@.subrange(at as int, at + part@.len())[i as int] == chars@[at + i]);
            return false;
        }
        i = i + 1;
    }
    assert(chars@.subrange(at as int, at + part@.len()) =~= part@);
    true
}

/// Whether `part` occurs somewhere in the text.
pub(crate) fn contains(s: &str, part: &str) -> (r: bool)
    ensures
        r == has_part(s@, part@),
{
    let chars: Vec<char> = characters(s);
    let wanted: Vec<char> = characters(part);
    if wanted.len() > chars.len() {
        return false;
    }
    let last: usize = chars.len() - wanted.len();
    let mut at: usize = 0;
    while at < last
        invariant
            at <= last,
            last == chars@.len() - wanted@.len(),
            chars@ == s@,
            wanted@ == part@,
            forall|i: int| 0 <= i < at ==> #[trigger] s@.subrange(i, i + part@.len()) != part@,
        decreases last - at,
    {
        if stands_at(&chars, &wanted, at) {
            return true;
        }
        at = at + 1;
    }
    stands_at(&chars, &wanted, last)
}

/// Compares two texts character by character.
pub(crate) fn same_text(a: &str, b: &str) -> (r: bool)
    ensures
        r == (a@ == b@),
{
    let left: String = a.to_string();
    let right: String = b.to_string();
    left == right
}

/// `a` followed by `b`.
pub(crate) fn join(a: &str, b: &str) -> (r: String)
    ensures
        r@ == a@ + b@,
{
    let mut text: String = a.to_string();
    text.append(b);
    text
}

/// Trimming a second time changes nothing.
pub proof fn trimmed_is_stable(s: Seq<char>)
    ensures
        trimmed(trimmed(s)) == trimmed(s),
    decreases s.len(),
{
    if s.len() > 0 && is_white_space(s.first()) {
        trimmed_is_stable(s.drop_first());
    } else if s.len() > 0 && is_white_space(s.last()) {
        trimmed_is_stable(s.drop_last());
    }
}

/// The white space is these twenty-five characters and no other.
pub proof fn white_space_is_a_fixed_set(c: char)
    ensures
        is_white_space(c) <==> set![
            '\t', '\n', '\u{b}', '\u{c}', '\r', ' ', '\u{85}', '\u{a0}', '\u{1680}', '\u{2000}',
            '\u{2001}', '\u{2002}', '\u{2003}', '\u{2004}', '\u{2005}', '\u{2006}', '\u{2007}',
            '\u{2008}', '\u{2009}', '\u{200a}', '\u{2028}', '\u{2029}', '\u{202f}', '\u{205f}',
            '\u{3000}'
        ].contains(c),
{
}

/// Trimming cuts off white space at the two ends, and as much of it as there is: the text is the
/// white space in front, the trimmed text and the white space behind, and the trimmed text neither
/// begins nor ends with white space.
pub proof fn trimming_cuts_off_white_space_only(s: Seq<char>) -> (parts: (Seq<char>, Seq<char>))
    ensures
        s == parts.0 + trimmed(s) + parts.1,
        forall|i: int| 0 <= i < parts.0.len() ==> is_white_space(#[trigger] parts.0[i]),
        forall|i: int| 0 <= i < parts.1.len() ==> is_white_space(#[trigger] parts.1[i]),
        trimmed(s).len() > 0 ==> !is_white_space(trimmed(s).first()) && !is_white_space(
            trimmed(s).last(),
        ),
    decreases s.len(),
{
    if s.len() > 0 && is_white_space(s.first()) {
        let (front, back) = trimming_cuts_off_white_space_only(s.drop_first());
        let parts = (seq![s.first()] + front, back);
        assert(s =~= seq![s.first()] + s.drop_first());
        assert(s =~= parts.0 + trimmed(s) + parts.1);
        parts
    } else if s.len() > 0 && is_white_space(s.last()) {
        let (front, back) = trimming_cuts_off_white_space_only(s.drop_last());
        let parts = (front, back + seq![s.last()]);
        assert(s =~= s.drop_last() + seq![s.last()]);
        assert(s =~= parts.0 + trimmed(s) + parts.1);
        parts
    } else {
        let parts = (Seq::<char>::empty(), Seq::<char>::empty());
        assert(s =~= parts.0 + s + parts.1);
        parts
    }
}

/// White space around a text makes no difference to what is left of it.
pub proof fn surrounding_white_space_is_trimmed(front: Seq<char>, s: Seq<char>, back: Seq<char>)
    requires
        forall|i: int| 0 <= i < front.len() ==> is_white_space(#[trigger] front[i]),
        forall|i: int| 0 <= i < back.len() ==> is_white_space(#[trigger] back[i]),
        s.len() > 0 ==> !is_white_space(s.first()) && !is_white_space(s.last()),
    ensures
        trimmed(front + s + back) == s,
{
    let all = front + s + back;
    assert forall|i: int| 0 <= i < front.len() implies is_white_space(#[trigger] all[i]) by {
        assert(all[i] == front[i]);
    }
    lemma_trimmed_front(all, front.len() as int);
    let rest = all.skip(front.len() as int);
    assert(rest =~= s + back);
    if s.len() > 0 {
        assert forall|i: int| s.len() <= i < rest.len() implies is_white_space(#[trigger] rest[i]) by {
            assert(rest[i] == back[i - s.len()]);
        }
        lemma_trimmed_back(rest, s.len() as int);
        assert(rest.take(s.len() as int) =~= s);
    } else {
        assert forall|i: int| 0 <= i < rest.len() implies is_white_space(#[trigger] rest[i]) by {
            assert(rest[i] == back[i]);
        }
        lemma_trimmed_front(rest, rest.len() as int);
        assert(rest.skip(rest.len() as int) =~= s);
    }
}

/// A part stands somewhere in a text exactly if the text is something, the part, and something
/// more.
pub proof fn parts_stand_between_the_rest(s: Seq<char>, part: Seq<char>)
    ensures
        has_part(s, part) <==> exists|front: Seq<char>, back: Seq<char>|
            s == #[trigger] ((front + part) + back),
{
    if has_part(s, part) {
        let i = choose|i: int|
            0 <= i <= s.len() - part.len() && #[trigger] s.subrange(i, i + part.len()) == part;
        let front = s.take(i);
        let back = s.skip(i + part.len());
        assert forall|k: int| 0 <= k < part.len() implies s[i + k] == part[k] by {
            assert(s.subrange(i, i + part.len())[k] == s[i + k]);
        }
        assert(s =~= (front + part) + back);
    }
    if exists|front: Seq<char>, back: Seq<char>| s == #[trigger] ((front + part) + back) {
        let (front, back) = choose|front: Seq<char>, back: Seq<char>|
            s == #[trigger] ((front + part) + back);
        let at = front.len() as int;
        assert(s.subrange(at, at + part.len()) =~= part);
    }
}

} // verus!
