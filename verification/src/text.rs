//! Text as characters: lower case, substrings and dictionary order.

use vstd::prelude::*;

verus! {

/// What `str::to_lowercase` makes of a text.
pub uninterp spec fn lowercase(text: Seq<char>) -> Seq<char>;

/// The text has ASCII characters only.
pub open spec fn is_ascii_text(text: Seq<char>) -> bool {
    forall|i: int| 0 <= i < text.len() ==> (#[trigger] text[i] as int) < 0x80
}

/// The lower case form of an ASCII letter, and any other character as it is.
pub open spec fn ascii_lower(c: char) -> char {
    if 'A' <= c && c <= 'Z' {
        (c as int + 0x20) as char
    } else {
        c
    }
}

/// The upper case form of an ASCII letter, and any other character as it is.
pub open spec fn ascii_upper(c: char) -> char {
    if 'a' <= c && c <= 'z' {
        (c as int - 0x20) as char
    } else {
        c
    }
}

/// A text with its ASCII letters in lower case.
pub open spec fn ascii_lowercase(text: Seq<char>) -> Seq<char> {
    Seq::new(text.len(), |i: int| ascii_lower(text[i]))
}

/// A text with its ASCII letters in upper case.
pub open spec fn ascii_uppercase(text: Seq<char>) -> Seq<char> {
    Seq::new(text.len(), |i: int| ascii_upper(text[i]))
}

/// If the text is ASCII, its lower case form is that of its letters.
pub open spec fn lowers_as_ascii(text: Seq<char>) -> bool {
    is_ascii_text(text) ==> lowercase(text) == ascii_lowercase(text)
}

/// `str::to_lowercase`: the lower case equivalent of a text by the Unicode
/// rules, which depends on the text alone. Of ASCII characters, `A` to `Z`
/// become `a` to `z` and the others stay.
#[verifier::external_body]
pub(crate) fn to_lowercase(text: &str) -> (lower: String)
    ensures
        lower@ == lowercase(text@),
        is_ascii_text(text@) ==> lower@ == ascii_lowercase(text@),
{
    text.to_lowercase()
}

/// The characters of a text, in order.
pub fn chars_of(text: &str) -> (chars: Vec<char>)
    ensures
        chars@ == text@,
{
    let mut chars: Vec<char> = Vec::new();
    for c in it: text.chars()
        invariant
            it.seq() == text@,
            chars@ == text@.take(it.index() as int),
    {
        chars.push(c);
    }
    assert(text@.take(text@.len() as int) =~= text@);
    chars
}

/// The lower case form of a text, as characters.
pub fn lowercase_chars(text: &str) -> (chars: Vec<char>)
    ensures
        chars@ == lowercase(text@),
        lowers_as_ascii(text@),
{
    let lower = to_lowercase(text);
    chars_of(lower.as_str())
}

/// `needle` stands in `hay` from position `at` on.
pub open spec fn occurs_at(needle: Seq<char>, hay: Seq<char>, at: int) -> bool {
    &&& 0 <= at
    &&& at + needle.len() <= hay.len()
    &&& hay.subrange(at, at + needle.len()) == needle
}

/// `needle` stands somewhere in `hay`.
pub open spec fn is_substring(needle: Seq<char>, hay: Seq<char>) -> bool {
    exists|at: int| occurs_at(needle, hay, at)
}

/// Does `needle` stand in `hay` from position `at` on?
fn occurs(needle: &Vec<char>, hay: &Vec<char>, at: usize) -> (found: bool)
    requires
        at + needle@.len() <= hay@.len(),
    ensures
        found == occurs_at(needle@, hay@, at as int),
{
    let end: usize = hay.len();
    let mut i: usize = 0;
    while i < needle.len()
        invariant
            i <= needle@.len(),
            end == hay@.len(),
            at + needle@.len() <= end,
            forall|j: int| 0 <= j < i ==> needle@[j] == hay@[at + j],
        decreases needle@.len() - i,
    {
        if needle[i] != hay[at + i] {
            assert(hay@.subrange(at as int, at + needle@.len())[i as int] != needle@[i as int]);
            return false;
        }
        i += 1;
    }
    assert(hay@.subrange(at as int, at + needle@.len()) =~= needle@);
    true
}

/// Does `needle` stand somewhere in `hay`?
pub fn contains_chars(needle: &Vec<char>, hay: &Vec<char>) -> (found: bool)
    ensures
        found == is_substring(needle@, hay@),
{
    if needle.len() > hay.len() {
        return false;
    }
    let last: usize = hay.len() - needle.len();
    let mut at: usize = 0;
    while at <= last
        invariant
            last == hay@.len() - needle@.len(),
            at <= last + 1,
            forall|j: int| 0 <= j < at ==> !occurs_at(needle@, hay@, j),
        decreases last + 1 - at,
    {
        if occurs(needle, hay, at) {
            return true;
        }
        if at == last {
            return false;
        }
        at += 1;
    }
    false
}

/// `a` comes before `b` in dictionary order: behind `k` characters that they
/// share, `a` ends and `b` goes on, or `a` has the smaller character.
pub open spec fn precedes_at(a: Seq<char>, b: Seq<char>, k: int) -> bool {
    &&& 0 <= k <= a.len()
    &&& k < b.len()
    &&& a.take(k) == b.take(k)
    &&& k < a.len() ==> a[k] < b[k]
}

/// `a` comes before `b` in dictionary order.
pub open spec fn text_precedes(a: Seq<char>, b: Seq<char>) -> bool {
    exists|k: int| precedes_at(a, b, k)
}

/// No text comes before itself.
pub proof fn text_precedes_irreflexive(a: Seq<char>)
    ensures
        !text_precedes(a, a),
{
}

/// The dictionary order is transitive.
pub proof fn text_precedes_transitive(a: Seq<char>, b: Seq<char>, c: Seq<char>)
    requires
        text_precedes(a, b),
        text_precedes(b, c),
    ensures
        text_precedes(a, c),
{
    let j = choose|k: int| precedes_at(a, b, k);
    let k = choose|k: int| precedes_at(b, c, k);
    let m = if j <= k {
        j
    } else {
        k
    };
    assert(a.take(m) =~= c.take(m)) by {
        assert forall|i: int| 0 <= i < m implies a[i] == c[i] by {
            assert(a.take(j)[i] == b.take(j)[i]);
            assert(b.take(k)[i] == c.take(k)[i]);
        }
    }
    if j < k {
        assert(b.take(k)[j] == c.take(k)[j]);
    } else if k < j {
        assert(a.take(j)[k] == b.take(j)[k]);
    }
    assert(precedes_at(a, c, m));
}

/// Of two different texts one comes before the other.
pub proof fn text_precedes_total(a: Seq<char>, b: Seq<char>)
    ensures
        a == b || text_precedes(a, b) || text_precedes(b, a),
{
    assert(a.take(0) =~= b.take(0));
    first_difference(a, b, 0);
}

proof fn first_difference(a: Seq<char>, b: Seq<char>, k: int)
    requires
        0 <= k <= a.len(),
        k <= b.len(),
        a.take(k) == b.take(k),
    ensures
        a == b || text_precedes(a, b) || text_precedes(b, a),
    decreases a.len() - k,
{
    if k == a.len() && k == b.len() {
        assert(a.take(k) =~= a);
        assert(b.take(k) =~= b);
    } else if k == a.len() {
        assert(precedes_at(a, b, k));
    } else if k == b.len() {
        assert(precedes_at(b, a, k));
    } else if a[k] < b[k] {
        assert(precedes_at(a, b, k));
    } else if b[k] < a[k] {
        assert(precedes_at(b, a, k));
    } else {
        assert(a.take(k + 1) =~= a.take(k).push(a[k]));
        assert(b.take(k + 1) =~= b.take(k).push(b[k]));
        first_difference(a, b, k + 1);
    }
}

/// Where two texts stand to each other in dictionary order.
#[derive(Clone, Copy, Debug, PartialEq, Eq, Structural)]
pub enum TextOrder {
    Before,
    Same,
    After,
}

/// Compares two texts in dictionary order.
pub fn order_of(a: &Vec<char>, b: &Vec<char>) -> (order: TextOrder)
    ensures
        order is Before <==> text_precedes(a@, b@),
        order is Same <==> a@ == b@,
        order is After <==> text_precedes(b@, a@),
{
    proof {
        text_precedes_irreflexive(a@);
        if text_precedes(a@, b@) && text_precedes(b@, a@) {
            text_precedes_transitive(a@, b@, a@);
        }
        if a@ == b@ {
            text_precedes_irreflexive(b@);
        }
    }
    let mut k: usize = 0;
    while k < a.len() && k < b.len()
        invariant
            k <= a@.len(),
            k <= b@.len(),
            a@.take(k as int) == b@.take(k as int),
            !(text_precedes(a@, b@) && text_precedes(b@, a@)),
            a@ == b@ ==> !text_precedes(a@, b@),
            a@ == b@ ==> !text_precedes(b@, a@),
        decreases a@.len() - k,
    {
        if a[k] < b[k] {
            assert(precedes_at(a@, b@, k as int));
            return TextOrder::Before;
        }
        if b[k] < a[k] {
            assert(precedes_at(b@, a@, k as int));
            return TextOrder::After;
        }
        assert(a@.take(k + 1) =~= a@.take(k as int).push(a@[k as int]));
        assert(b@.take(k + 1) =~= b@.take(k as int).push(b@[k as int]));
        k += 1;
    }
    assert(a@.take(a@.len() as int) =~= a@);
    assert(b@.take(b@.len() as int) =~= b@);
    if k < b.len() {
        assert(precedes_at(a@, b@, k as int));
        TextOrder::Before
    } else if k < a.len() {
        assert(precedes_at(b@, a@, k as int));
        TextOrder::After
    } else {
        TextOrder::Same
    }
}

} // verus!
