//! Character and string primitives, stated over the character sequence that
//! a string holds.
use vstd::prelude::*;

verus! {

/// The Unicode `White_Space` characters, which `char::is_whitespace` and
/// `str::trim` go by.
pub open spec fn is_ws(c: char) -> bool {
    ||| ('\u{9}' <= c && c <= '\u{d}')
    ||| c == ' '
    ||| c == '\u{85}'
    ||| c == '\u{a0}'
    ||| c == '\u{1680}'
    ||| ('\u{2000}' <= c && c <= '\u{200a}')
    ||| c == '\u{2028}'
    ||| c == '\u{2029}'
    ||| c == '\u{202f}'
    ||| c == '\u{205f}'
    ||| c == '\u{3000}'
}

/// `s` without its leading white space.
pub open spec fn trim_front(s: Seq<char>) -> Seq<char>
    decreases s.len(),
{
    if s.len() > 0 && is_ws(s[0]) {
        trim_front(s.drop_first())
    } else {
        s
    }
}

/// `s` without its trailing white space.
pub open spec fn trim_back(s: Seq<char>) -> Seq<char>
    decreases s.len(),
{
    if s.len() > 0 && is_ws(s.last()) {
        trim_back(s.drop_last())
    } else {
        s
    }
}

/// What `str::trim` gives: `s` without leading and trailing white space.
pub open spec fn trim(s: Seq<char>) -> Seq<char> {
    trim_back(trim_front(s))
}

/// `s.trim().is_empty()`: `s` holds only white space.
pub open spec fn is_blank(s: Seq<char>) -> bool {
    forall|i: int| 0 <= i < s.len() ==> is_ws(#[trigger] s[i])
}

/// `c` occurs in `s`.
pub open spec fn has_char(s: Seq<char>, c: char) -> bool {
    exists|i: int| 0 <= i < s.len() && s[i] == c
}

/// `needle` occurs in `s` at position `i`.
pub open spec fn occurs_at(s: Seq<char>, needle: Seq<char>, i: int) -> bool {
    0 <= i && i + needle.len() <= s.len() && s.subrange(i, i + needle.len()) == needle
}

/// `str::contains` with a string pattern: `needle` occurs somewhere in `s`.
pub open spec fn contains_seq(s: Seq<char>, needle: Seq<char>) -> bool {
    exists|i: int| occurs_at(s, needle, i)
}

/// `str::starts_with` with a string pattern.
pub open spec fn starts_with(s: Seq<char>, prefix: Seq<char>) -> bool {
    prefix.len() <= s.len() && s.subrange(0, prefix.len() as int) == prefix
}

/// `c.is_ascii_digit()`.
pub open spec fn is_ascii_digit(c: char) -> bool {
    '0' <= c && c <= '9'
}

/// `c.is_ascii_alphabetic()`.
pub open spec fn is_ascii_alpha(c: char) -> bool {
    ('a' <= c && c <= 'z') || ('A' <= c && c <= 'Z')
}

/// `c.is_ascii_alphanumeric()`.
pub open spec fn is_ascii_alnum(c: char) -> bool {
    is_ascii_alpha(c) || is_ascii_digit(c)
}

/// `c.to_ascii_uppercase()`.
pub open spec fn ascii_upper(c: char) -> char {
    if 'a' <= c && c <= 'z' {
        ((c as int) - 32) as char
    } else {
        c
    }
}

/// What `str::to_lowercase` gives for a string: its full Unicode lowercase
/// mapping.
pub uninterp spec fn lowercase(s: Seq<char>) -> Seq<char>;

/// What `char::to_uppercase` gives for a character, collected into a string:
/// its full Unicode uppercase mapping.
pub uninterp spec fn char_uppercase(c: char) -> Seq<char>;

/// `String::push`: appends one character.
#[verifier::external_body]
pub fn push_char(s: &mut String, c: char)
    ensures
        final(s)@ == old(s)@.push(c),
{
    s.push(c);
}

/// `str::to_lowercase`, whose result the name `lowercase` stands for.  It
/// maps each character to its Unicode lowercase mapping, and a character
/// without one (as every white-space character is) to itself; so text of
/// white space alone, the empty text among it, comes back unchanged.
#[verifier::external_body]
pub fn to_lowercase(s: &str) -> (r: String)
    ensures
        r@ == lowercase(s@),
        is_blank(s@) ==> r@ == s@,
{
    s.to_lowercase()
}

/// `char::to_uppercase`, collected into a string; the name `char_uppercase`
/// stands for the result.
#[verifier::external_body]
pub fn char_to_uppercase(c: char) -> (r: String)
    ensures
        r@ == char_uppercase(c),
{
    c.to_uppercase().collect()
}

/// The characters of `s`, in order.
pub fn chars_of(s: &str) -> (r: Vec<char>)
    ensures
        r@ == s@,
{
    let mut v: Vec<char> = Vec::new();
    for c in it: s.chars()
        invariant
            v@ == it.seq().take(it.index() as int),
            it.seq() == s@,
    {
        v.push(c);
    }
    v
}

/// A string holding the characters of `v`.
pub fn string_of(v: &Vec<char>) -> (r: String)
    ensures
        r@ == v@,
{
    let mut s = String::new();
    let mut i: usize = 0;
    while i < v.len()
        invariant
            0 <= i <= v.len(),
            s@ == v@.subrange(0, i as int),
        decreases v.len() - i,
    {
        push_char(&mut s, v[i]);
        proof {
            assert(v@.subrange(0, i + 1) =~= v@.subrange(0, i as int).push(v@[i as int]));
        }
        i = i + 1;
    }
    proof {
        assert(v@.subrange(0, v.len() as int) =~= v@);
    }
    s
}

/// A string holding the characters of `a` followed by those of `b`.
pub fn concat2(a: &str, b: &str) -> (r: String)
    ensures
        r@ == a@ + b@,
{
    let mut s = String::from_str(a);
    s.append(b);
    s
}

/// A string holding the characters of `a`, `b` and `c` in turn.
pub fn concat3(a: &str, b: &str, c: &str) -> (r: String)
    ensures
        r@ == a@ + b@ + c@,
{
    let mut s = String::from_str(a);
    s.append(b);
    s.append(c);
    s
}

/// A string holding the characters of the four parts in turn.
pub fn concat4(a: &str, b: &str, c: &str, d: &str) -> (r: String)
    ensures
        r@ == a@ + b@ + c@ + d@,
{
    let mut s = String::from_str(a);
    s.append(b);
    s.append(c);
    s.append(d);
    s
}

/// A copy of `s`.
pub fn owned(s: &str) -> (r: String)
    ensures
        r@ == s@,
{
    String::from_str(s)
}

/// `char::is_whitespace`.
pub fn is_whitespace(c: char) -> (b: bool)
    ensures
        b == is_ws(c),
{
    ('\u{9}' <= c && c <= '\u{d}') || c == ' ' || c == '\u{85}' || c == '\u{a0}' || c == '\u{1680}'
        || ('\u{2000}' <= c && c <= '\u{200a}') || c == '\u{2028}' || c == '\u{2029}' || c
        == '\u{202f}' || c == '\u{205f}' || c == '\u{3000}'
}

proof fn lemma_trim_front_skip(s: Seq<char>, i: int)
    requires
        0 <= i <= s.len(),
        forall|k: int| 0 <= k < i ==> is_ws(#[trigger] s[k]),
    ensures
        trim_front(s) == trim_front(s.subrange(i, s.len() as int)),
    decreases i,
{
    if i > 0 {
        assert(s.drop_first() =~= s.subrange(1, s.len() as int));
        let t = s.drop_first();
        assert forall|k: int| 0 <= k < i - 1 implies is_ws(#[trigger] t[k]) by {
            assert(t[k] == s[k + 1]);
        }
        lemma_trim_front_skip(t, i - 1);
        assert(t.subrange(i - 1, t.len() as int) =~= s.subrange(i, s.len() as int));
    } else {
        assert(s.subrange(0, s.len() as int) =~= s);
    }
}

proof fn lemma_trim_back_skip(s: Seq<char>, j: int)
    requires
        0 <= j <= s.len(),
        forall|k: int| j <= k < s.len() ==> is_ws(#[trigger] s[k]),
    ensures
        trim_back(s) == trim_back(s.subrange(0, j)),
    decreases s.len() - j,
{
    if j < s.len() {
        let t = s.drop_last();
        assert(t =~= s.subrange(0, s.len() - 1));
        assert forall|k: int| j <= k < t.len() implies is_ws(#[trigger] t[k]) by {
            assert(t[k] == s[k]);
        }
        lemma_trim_back_skip(t, j);
        assert(t.subrange(0, j) =~= s.subrange(0, j));
    } else {
        assert(s.subrange(0, j) =~= s);
    }
}

/// The characters of `str::trim` applied to the characters `s`.
pub fn trim_chars(s: &Vec<char>) -> (r: Vec<char>)
    ensures
        r@ == trim(s@),
{
    let n = s.len();
    let mut i: usize = 0;
    while i < n && is_whitespace(s[i])
        invariant
            0 <= i <= n,
            n == s.len(),
            forall|k: int| 0 <= k < i ==> is_ws(#[trigger] s@[k]),
        decreases n - i,
    {
        i = i + 1;
    }
    let mut j: usize = n;
    while j > i && is_whitespace(s[j - 1])
        invariant
            i <= j <= n,
            n == s.len(),
            forall|k: int| j <= k < n ==> is_ws(#[trigger] s@[k]),
        decreases j,
    {
        j = j - 1;
    }
    let mut out: Vec<char> = Vec::new();
    let mut k: usize = i;
    while k < j
        invariant
            i <= k <= j,
            j <= n,
            n == s.len(),
            out@ == s@.subrange(i as int, k as int),
        decreases j - k,
    {
        out.push(s[k]);
        proof {
            assert(s@.subrange(i as int, k + 1) =~= s@.subrange(i as int, k as int).push(s@[k as int]));
        }
        k = k + 1;
    }
    proof {
        lemma_trim_front_skip(s@, i as int);
        let f = s@.subrange(i as int, n as int);
        if i < n {
            assert(!is_ws(s@[i as int]));
            assert(f[0] == s@[i as int]);
            assert(trim_front(f) == f);
        } else {
            assert(f.len() == 0);
        }
        assert forall|k2: int| j - i <= k2 < f.len() implies is_ws(#[trigger] f[k2]) by {
            assert(f[k2] == s@[k2 + i]);
        }
        lemma_trim_back_skip(f, j - i);
        let g = f.subrange(0, j - i);
        assert(g =~= s@.subrange(i as int, j as int));
        if j > i {
            assert(g.last() == s@[j - 1]);
            assert(!is_ws(s@[j - 1]));
        }
        assert(trim_back(g) == g);
    }
    out
}

/// `s.trim().to_string()`.
pub fn trim_str(s: &str) -> (r: String)
    ensures
        r@ == trim(s@),
{
    let cs = chars_of(s);
    let t = trim_chars(&cs);
    string_of(&t)
}

/// `s.trim().is_empty()`.
pub fn blank(s: &str) -> (b: bool)
    ensures
        b == is_blank(s@),
{
    let cs = chars_of(s);
    let mut i: usize = 0;
    while i < cs.len()
        invariant
            0 <= i <= cs.len(),
            cs@ == s@,
            forall|k: int| 0 <= k < i ==> is_ws(#[trigger] cs@[k]),
        decreases cs.len() - i,
    {
        if !is_whitespace(cs[i]) {
            return false;
        }
        i = i + 1;
    }
    true
}

/// Trimming leaves nothing exactly when the string is blank.
pub proof fn lemma_trim_empty_iff_blank(s: Seq<char>)
    ensures
        (trim(s).len() == 0) == is_blank(s),
{
    lemma_trim_front_blank(s);
    let f = trim_front(s);
    lemma_trim_front_suffix(s);
    if f.len() > 0 {
        assert(!is_ws(f[0]));
        lemma_trim_back_keeps_first(f);
    }
}

proof fn lemma_trim_front_blank(s: Seq<char>)
    ensures
        (trim_front(s).len() == 0) == is_blank(s),
    decreases s.len(),
{
    if s.len() > 0 {
        if is_ws(s[0]) {
            lemma_trim_front_blank(s.drop_first());
            if is_blank(s.drop_first()) {
                assert forall|i: int| 0 <= i < s.len() implies is_ws(#[trigger] s[i]) by {
                    if i > 0 {
                        assert(s[i] == s.drop_first()[i - 1]);
                    }
                }
            } else {
                let k = choose|k: int| 0 <= k < s.drop_first().len() && !is_ws(#[trigger] s.drop_first()[k]);
                assert(s[k + 1] == s.drop_first()[k]);
            }
        } else {
            assert(!is_ws(s[0]));
        }
    }
}

proof fn lemma_trim_front_suffix(s: Seq<char>)
    ensures
        trim_front(s).len() > 0 ==> !is_ws(trim_front(s)[0]),
    decreases s.len(),
{
    if s.len() > 0 && is_ws(s[0]) {
        lemma_trim_front_suffix(s.drop_first());
    }
}

proof fn lemma_trim_back_keeps_first(s: Seq<char>)
    requires
        s.len() > 0,
        !is_ws(s[0]),
    ensures
        trim_back(s).len() > 0,
    decreases s.len(),
{
    if is_ws(s.last()) {
        assert(s.len() > 1);
        assert(s.drop_last()[0] == s[0]);
        lemma_trim_back_keeps_first(s.drop_last());
    }
}

/// `s.contains(c)` for a character.
pub fn contains_char(s: &Vec<char>, c: char) -> (b: bool)
    ensures
        b == has_char(s@, c),
{
    let mut i: usize = 0;
    while i < s.len()
        invariant
            0 <= i <= s.len(),
            forall|k: int| 0 <= k < i ==> s@[k] != c,
        decreases s.len() - i,
    {
        if s[i] == c {
            return true;
        }
        i = i + 1;
    }
    false
}

/// Whether `needle` occurs in `s` at position `i`.
fn matches_at(s: &Vec<char>, needle: &Vec<char>, i: usize) -> (b: bool)
    requires
        i + needle.len() <= s.len(),
    ensures
        b == occurs_at(s@, needle@, i as int),
{
    let mut k: usize = 0;
    while k < needle.len()
        invariant
            0 <= k <= needle.len(),
            i + needle.len() <= s.len(),
            forall|m: int| 0 <= m < k ==> s@[i + m] == needle@[m],
        decreases needle.len() - k,
    {
        if s[i + k] != needle[k] {
            proof {
                assert(s@.subrange(i as int, i + needle.len())[k as int] != needle@[k as int]);
            }
            return false;
        }
        k = k + 1;
    }
    assert(s@.subrange(i as int, i + needle.len()) =~= needle@);
    true
}

/// `str::contains` with a string pattern.
pub fn contains_chars(s: &Vec<char>, needle: &Vec<char>) -> (b: bool)
    ensures
        b == contains_seq(s@, needle@),
{
    if needle.len() > s.len() {
        return false;
    }
    let last = s.len() - needle.len();
    let mut i: usize = 0;
    loop
        invariant
            0 <= i <= last,
            last + needle.len() == s.len(),
            forall|k: int| 0 <= k < i ==> !occurs_at(s@, needle@, k),
        decreases last - i,
    {
        if matches_at(s, needle, i) {
            return true;
        }
        if i == last {
            assert forall|k: int| occurs_at(s@, needle@, k) implies false by {
                assert(k <= last);
            }
            return false;
        }
        i = i + 1;
    }
}

/// `str::starts_with` with a string pattern.
pub fn starts_with_chars(s: &Vec<char>, prefix: &Vec<char>) -> (b: bool)
    ensures
        b == starts_with(s@, prefix@),
{
    if prefix.len() > s.len() {
        return false;
    }
    let b = matches_at(s, prefix, 0);
    proof {
        assert(occurs_at(s@, prefix@, 0) == starts_with(s@, prefix@));
    }
    b
}

/// String equality of two character sequences.
pub fn chars_eq(a: &Vec<char>, b: &Vec<char>) -> (r: bool)
    ensures
        r == (a@ == b@),
{
    if a.len() != b.len() {
        return false;
    }
    let mut i: usize = 0;
    while i < a.len()
        invariant
            0 <= i <= a.len(),
            a.len() == b.len(),
            forall|k: int| 0 <= k < i ==> a@[k] == b@[k],
        decreases a.len() - i,
    {
        if a[i] != b[i] {
            return false;
        }
        i = i + 1;
    }
    assert(a@ =~= b@);
    true
}

/// `a == b` for two strings.
pub fn str_eq(a: &str, b: &str) -> (r: bool)
    ensures
        r == (a@ == b@),
{
    let x = chars_of(a);
    let y = chars_of(b);
    chars_eq(&x, &y)
}

/// The characters of each string of a sequence.
pub open spec fn views(v: Seq<String>) -> Seq<Seq<char>> {
    Seq::new(v.len(), |i: int| v[i]@)
}

/// The number of bytes of the UTF-8 encoding of `s` (what `str::len` gives).
pub open spec fn byte_len(s: Seq<char>) -> nat {
    vstd::utf8::encode_utf8(s).len()
}

/// The number of bytes that UTF-8 takes for `c`.
fn utf8_width(c: char) -> (w: u128)
    ensures
        w == vstd::utf8::encode_scalar(c as u32).len(),
{
    proof {
        vstd::utf8::char_is_scalar(c);
    }
    let v = c as u32;
    if v <= 0x7F {
        1
    } else if v <= 0x7FF {
        2
    } else if v <= 0xFFFF {
        3
    } else {
        4
    }
}

/// `str::len` of the string holding `cs`: its UTF-8 length in bytes.
pub fn utf8_len(cs: &Vec<char>) -> (n: u128)
    ensures
        n == byte_len(cs@),
{
    let len = cs.len();
    let mut i: usize = len;
    let mut total: u128 = 0;
    while i > 0
        invariant
            0 <= i <= len,
            len == cs.len(),
            total == byte_len(cs@.subrange(i as int, len as int)),
            total <= 4 * (len - i),
        decreases i,
    {
        let w = utf8_width(cs[i - 1]);
        proof {
            let t = cs@.subrange(i - 1, len as int);
            assert(t.drop_first() =~= cs@.subrange(i as int, len as int));
            assert(t[0] == cs@[i - 1]);
        }
        total = total + w;
        i = i - 1;
    }
    assert(cs@.subrange(0, len as int) =~= cs@);
    total
}

/// The fields of `s` between the separator characters `seps` (as
/// `str::split` gives them: an empty field between adjacent separators and
/// at either end, one empty field for an empty string).
pub open spec fn split_fields(s: Seq<char>, seps: Seq<char>) -> Seq<Seq<char>>
    decreases s.len(),
{
    if s.len() == 0 {
        seq![Seq::<char>::empty()]
    } else {
        let p = split_fields(s.drop_last(), seps);
        if seps.contains(s.last()) {
            p.push(Seq::<char>::empty())
        } else {
            p.update(p.len() - 1, p.last().push(s.last()))
        }
    }
}

/// There is always at least one field.
pub proof fn lemma_split_nonempty(s: Seq<char>, seps: Seq<char>)
    ensures
        split_fields(s, seps).len() >= 1,
    decreases s.len(),
{
    if s.len() > 0 {
        lemma_split_nonempty(s.drop_last(), seps);
    }
}

/// Splitting a text without separators gives the text itself.
pub proof fn lemma_split_words(w: Seq<char>, seps: Seq<char>)
    requires
        forall|i: int| 0 <= i < w.len() ==> !seps.contains(#[trigger] w[i]),
    ensures
        split_fields(w, seps) == seq![w],
    decreases w.len(),
{
    if w.len() == 0 {
        assert(w =~= Seq::<char>::empty());
    } else {
        let p = w.drop_last();
        assert forall|i: int| 0 <= i < p.len() implies !seps.contains(#[trigger] p[i]) by {
            assert(p[i] == w[i]);
        }
        lemma_split_words(p, seps);
        assert(!seps.contains(w[w.len() - 1]));
        assert(p.push(w.last()) =~= w);
        assert(seq![p].update(0, w) =~= seq![w]);
    }
}

/// A trailing separator starts a new, empty field.
pub proof fn lemma_split_append_sep(s: Seq<char>, c: char, seps: Seq<char>)
    requires
        seps.contains(c),
    ensures
        split_fields(s.push(c), seps) == split_fields(s, seps).push(Seq::<char>::empty()),
{
    assert(s.push(c).drop_last() =~= s);
}

/// Appending text without separators after a trailing separator fills the
/// last, empty field.
pub proof fn lemma_split_extend(s: Seq<char>, w: Seq<char>, seps: Seq<char>)
    requires
        s.len() > 0,
        seps.contains(s.last()),
        forall|i: int| 0 <= i < w.len() ==> !seps.contains(#[trigger] w[i]),
    ensures
        split_fields(s + w, seps) == split_fields(s, seps).update(
            split_fields(s, seps).len() - 1,
            w,
        ),
    decreases w.len(),
{
    lemma_split_nonempty(s, seps);
    let p = s.drop_last();
    lemma_split_nonempty(p, seps);
    assert(split_fields(s, seps) == split_fields(p, seps).push(Seq::<char>::empty()));
    if w.len() == 0 {
        assert(s + w =~= s);
        let q = split_fields(s, seps);
        assert(q.last() =~= Seq::<char>::empty());
        assert(w =~= Seq::<char>::empty());
        assert(q.update(q.len() - 1, w) =~= q);
    } else {
        let w0 = w.drop_last();
        assert forall|i: int| 0 <= i < w0.len() implies !seps.contains(#[trigger] w0[i]) by {
            assert(w0[i] == w[i]);
        }
        lemma_split_extend(s, w0, seps);
        assert((s + w).drop_last() =~= s + w0);
        assert((s + w).last() == w[w.len() - 1]);
        assert(!seps.contains(w[w.len() - 1]));
        let q = split_fields(s, seps);
        assert(split_fields(s + w, seps) =~= q.update(q.len() - 1, w0).update(
            q.len() - 1,
            w0.push(w.last()),
        ));
        assert(w0.push(w.last()) =~= w);
        assert(q.update(q.len() - 1, w0).update(q.len() - 1, w) =~= q.update(q.len() - 1, w));
    }
}

/// The fields of `cs` between any of the characters `seps`.
pub fn split_chars(cs: &Vec<char>, seps: &Vec<char>) -> (r: Vec<Vec<char>>)
    ensures
        r@.len() == split_fields(cs@, seps@).len(),
        forall|k: int| 0 <= k < r@.len() ==> (#[trigger] r@[k])@ == split_fields(cs@, seps@)[k],
{
    let mut fields: Vec<Vec<char>> = Vec::new();
    let mut cur: Vec<char> = Vec::new();
    let mut i: usize = 0;
    while i < cs.len()
        invariant
            0 <= i <= cs.len(),
            fields@.len() + 1 == split_fields(cs@.subrange(0, i as int), seps@).len(),
            forall|k: int|
                0 <= k < fields@.len() ==> (#[trigger] fields@[k])@ == split_fields(
                    cs@.subrange(0, i as int),
                    seps@,
                )[k],
            cur@ == split_fields(cs@.subrange(0, i as int), seps@).last(),
        decreases cs.len() - i,
    {
        let c = cs[i];
        proof {
            let p = cs@.subrange(0, i as int);
            assert(cs@.subrange(0, i + 1) =~= p.push(c));
            assert(p.push(c).drop_last() =~= p);
            lemma_split_nonempty(p, seps@);
        }
        if contains_char(seps, c) {
            proof {
                assert(seps@.contains(c));
            }
            let done = cur;
            fields.push(done);
            cur = Vec::new();
        } else {
            proof {
                assert(!seps@.contains(c)) by {
                    if seps@.contains(c) {
                        let j = choose|j: int| 0 <= j < seps@.len() && seps@[j] == c;
                        assert(has_char(seps@, c));
                    }
                }
            }
            cur.push(c);
        }
        i = i + 1;
    }
    fields.push(cur);
    proof {
        assert(cs@.subrange(0, cs.len() as int) =~= cs@);
        lemma_split_nonempty(cs@, seps@);
    }
    fields
}

/// Lexicographic order of character sequences (by code point, which is
/// also the byte order of their UTF-8 encodings that `str`'s `Ord` uses):
/// `a` comes no later than `b`.
pub open spec fn lex_le(a: Seq<char>, b: Seq<char>) -> bool
    decreases a.len(),
{
    if a.len() == 0 {
        true
    } else if b.len() == 0 {
        false
    } else if a[0] != b[0] {
        (a[0] as u32) < (b[0] as u32)
    } else {
        lex_le(a.drop_first(), b.drop_first())
    }
}

/// `a <= b` for strings held as characters.
pub fn chars_le(a: &Vec<char>, b: &Vec<char>) -> (r: bool)
    ensures
        r == lex_le(a@, b@),
{
    let mut i: usize = 0;
    assert(a@.subrange(0, a.len() as int) =~= a@);
    assert(b@.subrange(0, b.len() as int) =~= b@);
    while i < a.len() && i < b.len()
        invariant
            0 <= i <= a.len(),
            i <= b.len(),
            forall|k: int| 0 <= k < i ==> a@[k] == b@[k],
            lex_le(a@, b@) == lex_le(a@.subrange(i as int, a.len() as int), b@.subrange(
                i as int,
                b.len() as int,
            )),
        decreases a.len() - i,
    {
        proof {
            let x = a@.subrange(i as int, a.len() as int);
            let y = b@.subrange(i as int, b.len() as int);
            assert(x.drop_first() =~= a@.subrange(i + 1, a.len() as int));
            assert(y.drop_first() =~= b@.subrange(i + 1, b.len() as int));
            assert(x[0] == a@[i as int]);
            assert(y[0] == b@[i as int]);
        }
        if a[i] != b[i] {
            return (a[i] as u32) < (b[i] as u32);
        }
        i = i + 1;
    }
    proof {
        let x = a@.subrange(i as int, a.len() as int);
        let y = b@.subrange(i as int, b.len() as int);
        if i == a.len() {
            assert(x.len() == 0);
        } else {
            assert(y.len() == 0);
        }
    }
    i == a.len()
}

/// `a <= b` for strings.
pub fn str_le(a: &str, b: &str) -> (r: bool)
    ensures
        r == lex_le(a@, b@),
{
    let x = chars_of(a);
    let y = chars_of(b);
    chars_le(&x, &y)
}

/// `str::replace`: every non-overlapping occurrence of `from` (not empty),
/// from left to right, replaced by `to`.
pub open spec fn replace_all(s: Seq<char>, from: Seq<char>, to: Seq<char>) -> Seq<char>
    decreases s.len(),
{
    if from.len() == 0 || s.len() == 0 {
        s
    } else if starts_with(s, from) {
        to + replace_all(s.subrange(from.len() as int, s.len() as int), from, to)
    } else {
        seq![s[0]] + replace_all(s.drop_first(), from, to)
    }
}

/// `s.replace(from, to)` for a non-empty pattern.
pub fn replace_chars(s: &Vec<char>, from: &Vec<char>, to: &Vec<char>) -> (r: Vec<char>)
    requires
        from.len() > 0,
    ensures
        r@ == replace_all(s@, from@, to@),
{
    let mut out: Vec<char> = Vec::new();
    let mut i: usize = 0;
    let n = s.len();
    assert(s@.subrange(0, n as int) =~= s@);
    assert(out@ + replace_all(s@, from@, to@) =~= replace_all(s@, from@, to@));
    while i < n
        invariant
            0 <= i <= n,
            n == s.len(),
            from.len() > 0,
            out@ + replace_all(s@.subrange(i as int, n as int), from@, to@) == replace_all(
                s@,
                from@,
                to@,
            ),
        decreases n - i,
    {
        let rest = Ghost(s@.subrange(i as int, n as int));
        if from.len() <= n - i && matches_at(s, from, i) {
            proof {
                assert(rest@.subrange(0, from.len() as int) =~= s@.subrange(i as int, i + from.len()));
                assert(starts_with(rest@, from@));
                assert(rest@.subrange(from.len() as int, rest@.len() as int) =~= s@.subrange(
                    i + from.len(),
                    n as int,
                ));
                assert(out@ + to@ + replace_all(s@.subrange(i + from.len(), n as int), from@, to@)
                    =~= out@ + (to@ + replace_all(s@.subrange(i + from.len(), n as int), from@, to@)));
            }
            crate::numbers::push_all(&mut out, to);
            i = i + from.len();
        } else {
            proof {
                if from.len() <= n - i {
                    assert(rest@.subrange(0, from.len() as int) =~= s@.subrange(i as int, i + from.len()));
                }
                assert(!starts_with(rest@, from@));
                assert(rest@.drop_first() =~= s@.subrange(i + 1, n as int));
                assert(rest@[0] == s@[i as int]);
                assert(out@.push(s@[i as int]) + replace_all(s@.subrange(i + 1, n as int), from@, to@)
                    =~= out@ + (seq![s@[i as int]] + replace_all(s@.subrange(i + 1, n as int), from@, to@)));
            }
            out.push(s[i]);
            i = i + 1;
        }
    }
    proof {
        assert(s@.subrange(n as int, n as int).len() == 0);
        assert(out@ + Seq::<char>::empty() =~= out@);
    }
    out
}

/// Any two sequences are ordered one way or the other.
pub proof fn lemma_lex_total(a: Seq<char>, b: Seq<char>)
    ensures
        lex_le(a, b) || lex_le(b, a),
    decreases a.len(),
{
    if a.len() > 0 && b.len() > 0 {
        if a[0] == b[0] {
            lemma_lex_total(a.drop_first(), b.drop_first());
        } else {
            vstd::utf8::char_u32_cast(a[0], a[0] as u32);
            vstd::utf8::char_u32_cast(b[0], b[0] as u32);
            assert((a[0] as u32) != (b[0] as u32));
        }
    }
}

/// Sequences ordered both ways are equal.
pub proof fn lemma_lex_antisym(a: Seq<char>, b: Seq<char>)
    requires
        lex_le(a, b),
        lex_le(b, a),
    ensures
        a == b,
    decreases a.len(),
{
    if a.len() == 0 {
        assert(b.len() == 0);
        assert(a =~= b);
    } else {
        assert(b.len() > 0);
        assert(a[0] == b[0]);
        lemma_lex_antisym(a.drop_first(), b.drop_first());
        assert(a =~= seq![a[0]] + a.drop_first());
        assert(b =~= seq![b[0]] + b.drop_first());
    }
}

/// The order is transitive.
pub proof fn lemma_lex_trans(a: Seq<char>, b: Seq<char>, c: Seq<char>)
    requires
        lex_le(a, b),
        lex_le(b, c),
    ensures
        lex_le(a, c),
    decreases a.len(),
{
    if a.len() > 0 {
        assert(b.len() > 0);
        assert(c.len() > 0);
        if a[0] == b[0] && b[0] == c[0] {
            lemma_lex_trans(a.drop_first(), b.drop_first(), c.drop_first());
        }
    }
}

/// Every sequence comes no later than itself.
pub proof fn lemma_lex_refl(a: Seq<char>)
    ensures
        lex_le(a, a),
    decreases a.len(),
{
    if a.len() > 0 {
        lemma_lex_refl(a.drop_first());
    }
}

} // verus!
