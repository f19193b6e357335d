//! Characters and character sequences: white space, trimming, case folding
//! and the prefix, suffix and substring tests that the search is built on.

use vstd::prelude::*;
use vstd::std_specs::iter::IteratorSpec;
use vstd::string::*;
use vstd::utf8::is_ascii_chars;

verus! {

/// The characters that Unicode classes as `White_Space`.
pub open spec fn is_white_space(c: char) -> bool {
    let n = c as u32;
    ||| 0x09 <= n <= 0x0D
    ||| n == 0x20
    ||| n == 0x85
    ||| n == 0xA0
    ||| n == 0x1680
    ||| 0x2000 <= n <= 0x200A
    ||| n == 0x2028
    ||| n == 0x2029
    ||| n == 0x202F
    ||| n == 0x205F
    ||| n == 0x3000
}

/// Tells whether `c` is white space.
pub fn white_space(c: char) -> (b: bool)
    ensures
        b == is_white_space(c),
{
    let n: u32 = c as u32;
    (0x09 <= n && n <= 0x0D) || n == 0x20 || n == 0x85 || n == 0xA0 || n == 0x1680 || (0x2000 <= n
        && n <= 0x200A) || n == 0x2028 || n == 0x2029 || n == 0x202F || n == 0x205F || n == 0x3000
}

/// The characters of `s`, in order.
pub fn chars_of(s: &str) -> (v: Vec<char>)
    ensures
        v@ == s@,
{
    let mut v: Vec<char> = Vec::new();
    for c in it: s.chars()
        invariant
            it.seq() == s@,
            v@ == s@.take(it.index() as int),
    {
        v.push(c);
    }
    v
}

/// `s` without the white space it starts with.
pub open spec fn strip_front(s: Seq<char>) -> Seq<char>
    decreases s.len(),
{
    if s.len() > 0 && is_white_space(s[0]) {
        strip_front(s.drop_first())
    } else {
        s
    }
}

/// `s` without the white space it ends with.
pub open spec fn strip_back(s: Seq<char>) -> Seq<char>
    decreases s.len(),
{
    if s.len() > 0 && is_white_space(s.last()) {
        strip_back(s.drop_last())
    } else {
        s
    }
}

/// `s` without leading and trailing white space.
pub open spec fn trimmed(s: Seq<char>) -> Seq<char> {
    strip_back(strip_front(s))
}

/// Where the trimmed text of `v[lo..hi]` lies in `v`: it is
/// `v[start..end]`, and `start` stands behind the leading white space.
pub fn trim_within(v: &Vec<char>, lo: usize, hi: usize) -> (r: (usize, usize))
    requires
        lo <= hi <= v.len(),
    ensures
        lo <= r.0 <= r.1 <= hi,
        v@.subrange(r.0 as int, r.1 as int) == trimmed(v@.subrange(lo as int, hi as int)),
        hi - r.0 == strip_front(v@.subrange(lo as int, hi as int)).len(),
{
    let mut a: usize = lo;
    while a < hi && white_space(v[a])
        invariant
            lo <= a <= hi <= v.len(),
            strip_front(v@.subrange(lo as int, hi as int)) == strip_front(
                v@.subrange(a as int, hi as int),
            ),
        decreases hi - a,
    {
        assert(v@.subrange(a as int, hi as int).drop_first() =~= v@.subrange(a + 1, hi as int));
        a += 1;
    }
    let mut b: usize = hi;
    while b > a && white_space(v[b - 1])
        invariant
            a <= b <= hi <= v.len(),
            strip_back(v@.subrange(a as int, hi as int)) == strip_back(
                v@.subrange(a as int, b as int),
            ),
        decreases b - a,
    {
        assert(v@.subrange(a as int, b as int).drop_last() =~= v@.subrange(a as int, b - 1));
        b -= 1;
    }
    (a, b)
}

/// Where the trimmed text lies in `v`: it is `v[start..end]`, and `start`
/// stands behind the leading white space.
pub fn trim_bounds(v: &Vec<char>) -> (r: (usize, usize))
    ensures
        r.0 <= r.1 <= v.len(),
        v@.subrange(r.0 as int, r.1 as int) == trimmed(v@),
        v.len() - r.0 == strip_front(v@).len(),
{
    assert(v@.subrange(0, v@.len() as int) =~= v@);
    trim_within(v, 0, v.len())
}

/// `s` with leading and trailing white space removed.
pub fn trim(s: &str) -> (r: String)
    ensures
        r@ == trimmed(s@),
{
    let v = chars_of(s);
    let (a, b) = trim_bounds(&v);
    s.substring_char(a, b).to_owned()
}

/// The upper-case form of an ASCII letter; any other character unchanged.
pub open spec fn upper_char(c: char) -> char {
    if 'a' <= c <= 'z' {
        ((c as u32) - 32) as char
    } else {
        c
    }
}

/// The lower-case form of an ASCII letter; any other character unchanged.
pub open spec fn lower_char(c: char) -> char {
    if 'A' <= c <= 'Z' {
        ((c as u32) + 32) as char
    } else {
        c
    }
}

/// `s` with its ASCII letters in upper case.
pub open spec fn ascii_upper(s: Seq<char>) -> Seq<char> {
    s.map_values(|c: char| upper_char(c))
}

/// `s` with its ASCII letters in lower case.
pub open spec fn ascii_lower(s: Seq<char>) -> Seq<char> {
    s.map_values(|c: char| lower_char(c))
}

/// The Unicode upper-case form of `s`, as `str::to_uppercase` gives it.
pub uninterp spec fn uppercase(s: Seq<char>) -> Seq<char>;

/// The upper-case form of `s`: for ASCII text the letters `a` to `z` become
/// `A` to `Z`; for any other text it is the Unicode upper-case form.
pub open spec fn upper(s: Seq<char>) -> Seq<char> {
    if is_ascii_chars(s) {
        ascii_upper(s)
    } else {
        uppercase(s)
    }
}

/// Calls `str::to_uppercase`. Trusted: on ASCII text the call turns the
/// letters `a` to `z` into `A` to `Z` and changes nothing else; on any other
/// text its result depends on the text alone.
#[verifier::external_body]
fn to_upper(s: &str) -> (r: String)
    ensures
        is_ascii_chars(s@) ==> r@ == ascii_upper(s@),
        !is_ascii_chars(s@) ==> r@ == uppercase(s@),
{
    s.to_uppercase()
}

/// The upper-case form of `s`.
pub fn upper_case(s: &str) -> (r: String)
    ensures
        r@ == upper(s@),
{
    to_upper(s)
}

/// The key under which a code is filed and looked up: the code trimmed,
/// then in upper case.
pub open spec fn code_key(code: Seq<char>) -> Seq<char> {
    upper(trimmed(code))
}

/// Trims `code` and puts it in upper case.
pub fn normalize_code(code: &str) -> (key: String)
    ensures
        key@ == code_key(code@),
{
    let t = trim(code);
    to_upper(t.as_str())
}

/// `needle` stands in `hay` at position `at`.
pub open spec fn occurs_at(needle: Seq<char>, hay: Seq<char>, at: int) -> bool {
    &&& 0 <= at
    &&& at + needle.len() <= hay.len()
    &&& hay.subrange(at, at + needle.len()) == needle
}

/// `needle` stands somewhere in `hay`.
pub open spec fn occurs_in(needle: Seq<char>, hay: Seq<char>) -> bool {
    exists|at: int| occurs_at(needle, hay, at)
}

/// Tests whether `needle` stands in `hay` at position `at`.
pub fn matches_at(hay: &Vec<char>, needle: &Vec<char>, at: usize) -> (b: bool)
    requires
        at + needle.len() <= hay.len(),
    ensures
        b == occurs_at(needle@, hay@, at as int),
{
    let m = needle.len();
    let mut j: usize = 0;
    while j < m
        invariant
            j <= m,
            m == needle.len(),
            at + m <= hay.len(),
            forall|k: int| 0 <= k < j ==> hay@[at + k] == needle@[k],
        decreases m - j,
    {
        if hay[at + j] != needle[j] {
            assert(hay@.subrange(at as int, at + m)[j as int] != needle@[j as int]);
            return false;
        }
        j += 1;
    }
    assert(hay@.subrange(at as int, at + m) =~= needle@);
    true
}

/// Tests whether `hay` begins with `needle`.
pub fn starts_with(hay: &Vec<char>, needle: &Vec<char>) -> (b: bool)
    ensures
        b == needle@.is_prefix_of(hay@),
{
    needle.len() <= hay.len() && matches_at(hay, needle, 0)
}

/// Tests whether `hay` ends with `needle`.
pub fn ends_with(hay: &Vec<char>, needle: &Vec<char>) -> (b: bool)
    ensures
        b == needle@.is_suffix_of(hay@),
{
    needle.len() <= hay.len() && matches_at(hay, needle, hay.len() - needle.len())
}

/// Tests whether `needle` stands somewhere in `hay`.
pub fn contains(hay: &Vec<char>, needle: &Vec<char>) -> (b: bool)
    ensures
        b == occurs_in(needle@, hay@),
{
    if needle.len() > hay.len() {
        return false;
    }
    let last = hay.len() - needle.len();
    let mut i: usize = 0;
    while i < last
        invariant
            i <= last,
            last == hay.len() - needle.len(),
            needle.len() <= hay.len(),
            forall|at: int| 0 <= at < i ==> !occurs_at(needle@, hay@, at),
        decreases last - i,
    {
        if matches_at(hay, needle, i) {
            return true;
        }
        i += 1;
    }
    matches_at(hay, needle, last)
}

/// Tests whether two texts hold the same characters.
pub fn same_chars(a: &Vec<char>, b: &Vec<char>) -> (r: bool)
    ensures
        r == (a@ == b@),
{
    proof {
        assert(a@.subrange(0, a@.len() as int) =~= a@);
    }
    a.len() == b.len() && matches_at(a, b, 0)
}

/// Tests whether two texts are the same.
pub fn same_text(a: &str, b: &str) -> (r: bool)
    ensures
        r == (a@ == b@),
{
    same_chars(&chars_of(a), &chars_of(b))
}

/// The lower-case form of an ASCII letter; any other character unchanged.
pub fn to_lower_char(c: char) -> (r: char)
    ensures
        r == lower_char(c),
{
    if 'A' <= c && c <= 'Z' {
        ((c as u8) + 32) as char
    } else {
        c
    }
}

/// Tests whether two texts are the same but for the case of their ASCII
/// letters.
pub fn same_text_ignoring_case(a: &str, b: &str) -> (r: bool)
    ensures
        r == (ascii_lower(a@) == ascii_lower(b@)),
{
    let x = chars_of(a);
    let y = chars_of(b);
    if x.len() != y.len() {
        assert(ascii_lower(a@).len() != ascii_lower(b@).len());
        return false;
    }
    let n = x.len();
    let mut i: usize = 0;
    while i < n
        invariant
            i <= n,
            n == x.len(),
            n == y.len(),
            x@ == a@,
            y@ == b@,
            forall|k: int| 0 <= k < i ==> ascii_lower(a@)[k] == ascii_lower(b@)[k],
        decreases n - i,
    {
        if to_lower_char(x[i]) != to_lower_char(y[i]) {
            assert(ascii_lower(a@)[i as int] != ascii_lower(b@)[i as int]);
            return false;
        }
        i += 1;
    }
    assert(ascii_lower(a@) =~= ascii_lower(b@));
    true
}

/// `c` is an ASCII letter or digit.
pub open spec fn is_alphanumeric(c: char) -> bool {
    ('0' <= c <= '9') || ('a' <= c <= 'z') || ('A' <= c <= 'Z')
}

/// Every character of `s` is an ASCII letter or digit.
pub open spec fn all_alphanumeric(s: Seq<char>) -> bool {
    forall|i: int| 0 <= i < s.len() ==> is_alphanumeric(#[trigger] s[i])
}

/// Tests whether `v` has `len` characters, each an ASCII letter or digit.
pub fn alphanumeric_of_len(v: &Vec<char>, len: usize) -> (b: bool)
    ensures
        b == (v@.len() == len && all_alphanumeric(v@)),
{
    if v.len() != len {
        return false;
    }
    let mut i: usize = 0;
    while i < v.len()
        invariant
            i <= v.len(),
            forall|k: int| 0 <= k < i ==> is_alphanumeric(#[trigger] v@[k]),
        decreases v.len() - i,
    {
        let c = v[i];
        if !(('0' <= c && c <= '9') || ('a' <= c && c <= 'z') || ('A' <= c && c <= 'Z')) {
            return false;
        }
        i += 1;
    }
    true
}

/// The parts of `s` that `sep` separates, in order: one more than `sep`
/// occurs in `s`.
pub open spec fn split(s: Seq<char>, sep: char) -> Seq<Seq<char>>
    decreases s.len(),
{
    if s.len() == 0 {
        seq![Seq::empty()]
    } else {
        let before = split(s.drop_last(), sep);
        if s.last() == sep {
            before.push(Seq::empty())
        } else {
            before.drop_last().push(before.last().push(s.last()))
        }
    }
}

/// `split` gives at least one part.
pub proof fn lemma_split_len(s: Seq<char>, sep: char)
    ensures
        split(s, sep).len() >= 1,
    decreases s.len(),
{
    if s.len() > 0 {
        lemma_split_len(s.drop_last(), sep);
    }
}

/// The views of `parts`, in order.
pub open spec fn texts(parts: Seq<String>) -> Seq<Seq<char>> {
    parts.map_values(|p: String| p@)
}

/// Splits `s` at every `sep`.
pub fn split_on(s: &str, sep: char) -> (parts: Vec<String>)
    ensures
        texts(parts@) == split(s@, sep),
{
    let v = chars_of(s);
    let n = v.len();
    let mut parts: Vec<String> = Vec::new();
    let mut start: usize = 0;
    let mut i: usize = 0;
    assert(v@.take(0) =~= Seq::<char>::empty());
    assert(v@.subrange(0, 0) =~= Seq::<char>::empty());
    assert(texts(parts@).push(Seq::empty()) =~= seq![Seq::<char>::empty()]);
    while i < n
        invariant
            start <= i <= n,
            n == v.len(),
            v@ == s@,
            texts(parts@).push(v@.subrange(start as int, i as int)) == split(v@.take(i as int), sep),
        decreases n - i,
    {
        let ghost done = texts(parts@);
        let ghost upto = v@.take(i + 1);
        assert(upto.drop_last() =~= v@.take(i as int));
        assert(upto.last() == v@[i as int]);
        if v[i] == sep {
            parts.push(s.substring_char(start, i).to_owned());
            assert(texts(parts@) =~= done.push(v@.subrange(start as int, i as int)));
            start = i + 1;
            assert(v@.subrange(start as int, i + 1) =~= Seq::<char>::empty());
        } else {
            let ghost whole = done.push(v@.subrange(start as int, i as int));
            assert(whole.drop_last() =~= done);
            assert(whole.last().push(v@[i as int]) =~= v@.subrange(start as int, i + 1));
        }
        i += 1;
    }
    assert(v@.take(n as int) =~= v@);
    let ghost done = texts(parts@);
    parts.push(s.substring_char(start, n).to_owned());
    assert(texts(parts@) =~= done.push(v@.subrange(start as int, n as int)));
    parts
}

/// Every character of `s` is white space.
pub open spec fn all_white(s: Seq<char>) -> bool {
    forall|i: int| 0 <= i < s.len() ==> is_white_space(#[trigger] s[i])
}

/// `s` neither starts nor ends with white space.
pub open spec fn is_trim(s: Seq<char>) -> bool {
    s.len() > 0 ==> !is_white_space(s[0]) && !is_white_space(s.last())
}

/// White space in front of a text does not change what stripping its front
/// leaves.
pub proof fn lemma_strip_front_skips(white: Seq<char>, s: Seq<char>)
    requires
        all_white(white),
    ensures
        strip_front(white + s) == strip_front(s),
    decreases white.len(),
{
    if white.len() == 0 {
        assert(white + s =~= s);
    } else {
        assert((white + s)[0] == white[0]);
        assert((white + s).drop_first() =~= white.drop_first() + s);
        lemma_strip_front_skips(white.drop_first(), s);
    }
}

/// White space behind a text does not change what stripping its back
/// leaves.
pub proof fn lemma_strip_back_skips(s: Seq<char>, white: Seq<char>)
    requires
        all_white(white),
    ensures
        strip_back(s + white) == strip_back(s),
    decreases white.len(),
{
    if white.len() == 0 {
        assert(s + white =~= s);
    } else {
        assert((s + white).last() == white.last());
        assert((s + white).drop_last() =~= s + white.drop_last());
        lemma_strip_back_skips(s, white.drop_last());
    }
}

/// Stripping the front of `s` takes white space off its front and leaves a
/// text that does not start with white space. The white space is returned.
pub proof fn lemma_strip_front_parts(s: Seq<char>) -> (white: Seq<char>)
    ensures
        all_white(white),
        s == white + strip_front(s),
        strip_front(s).len() > 0 ==> !is_white_space(strip_front(s)[0]),
    decreases s.len(),
{
    if s.len() > 0 && is_white_space(s[0]) {
        let rest = lemma_strip_front_parts(s.drop_first());
        let white = seq![s[0]] + rest;
        let tail = s.drop_first();
        assert(strip_front(s) == strip_front(tail));
        assert(s =~= seq![s[0]] + tail);
        assert(seq![s[0]] + (rest + strip_front(tail)) =~= white + strip_front(tail));
        white
    } else {
        assert(s =~= Seq::<char>::empty() + s);
        Seq::empty()
    }
}

/// Stripping the back of `s` takes white space off its back and leaves a
/// text that does not end with white space. The white space is returned.
pub proof fn lemma_strip_back_parts(s: Seq<char>) -> (white: Seq<char>)
    ensures
        all_white(white),
        s == strip_back(s) + white,
        strip_back(s).len() > 0 ==> !is_white_space(strip_back(s).last()),
    decreases s.len(),
{
    if s.len() > 0 && is_white_space(s.last()) {
        let rest = lemma_strip_back_parts(s.drop_last());
        let white = rest.push(s.last());
        let head = s.drop_last();
        assert(strip_back(s) == strip_back(head));
        assert(s =~= head.push(s.last()));
        assert((strip_back(head) + rest).push(s.last()) =~= strip_back(head) + white);
        white
    } else {
        assert(s =~= s + Seq::<char>::empty());
        Seq::empty()
    }
}

/// What trimming means: `s` is white space, then its trimmed text, then
/// white space, and the trimmed text neither starts nor ends with white
/// space. The two runs of white space are returned.
pub proof fn lemma_trimmed_parts(s: Seq<char>) -> (white: (Seq<char>, Seq<char>))
    ensures
        all_white(white.0),
        all_white(white.1),
        s == white.0 + trimmed(s) + white.1,
        is_trim(trimmed(s)),
{
    let front = lemma_strip_front_parts(s);
    let back = lemma_strip_back_parts(strip_front(s));
    let core = trimmed(s);
    assert(s =~= front + core + back);
    if core.len() > 0 {
        assert(core[0] == (core + back)[0]);
    }
    (front, back)
}

/// A text that neither starts nor ends with white space is what trimming
/// leaves of it, whatever white space stands around it.
pub proof fn lemma_trimmed_of_padded(front: Seq<char>, core: Seq<char>, back: Seq<char>)
    requires
        all_white(front),
        all_white(back),
        is_trim(core),
    ensures
        trimmed(front + core + back) == core,
{
    assert(front + core + back =~= front + (core + back));
    lemma_strip_front_skips(front, core + back);
    if core.len() > 0 {
        assert((core + back)[0] == core[0]);
        assert(strip_front(core + back) == core + back);
        lemma_strip_back_skips(core, back);
    } else {
        assert(core + back =~= back);
        assert(back =~= back + Seq::<char>::empty());
        lemma_strip_front_skips(back, Seq::empty());
        assert(strip_front(Seq::<char>::empty()) =~= Seq::<char>::empty());
    }
}

/// White space around a text does not change what trimming leaves of it.
pub proof fn lemma_trimmed_ignores_padding(front: Seq<char>, s: Seq<char>, back: Seq<char>)
    requires
        all_white(front),
        all_white(back),
    ensures
        trimmed(front + s + back) == trimmed(s),
{
    let inner = lemma_trimmed_parts(s);
    assert(front + s + back =~= (front + inner.0) + trimmed(s) + (inner.1 + back));
    lemma_trimmed_of_padded(front + inner.0, trimmed(s), inner.1 + back);
}

/// Trimming a text in lower case gives the trimmed text in lower case.
pub proof fn lemma_trimmed_of_lower(s: Seq<char>)
    ensures
        trimmed(ascii_lower(s)) == ascii_lower(trimmed(s)),
{
    let white = lemma_trimmed_parts(s);
    let core = trimmed(s);
    assert(ascii_lower(s) =~= ascii_lower(white.0) + ascii_lower(core) + ascii_lower(white.1));
    assert(all_white(ascii_lower(white.0))) by {
        assert forall|i: int| 0 <= i < white.0.len() implies is_white_space(
            #[trigger] ascii_lower(white.0)[i],
        ) by {
            assert(is_white_space(white.0[i]));
        }
    }
    assert(all_white(ascii_lower(white.1))) by {
        assert forall|i: int| 0 <= i < white.1.len() implies is_white_space(
            #[trigger] ascii_lower(white.1)[i],
        ) by {
            assert(is_white_space(white.1[i]));
        }
    }
    lemma_trimmed_of_padded(ascii_lower(white.0), ascii_lower(core), ascii_lower(white.1));
}

/// The upper-case form of an ASCII text does not depend on the case of its
/// letters.
pub proof fn lemma_upper_of_lower(s: Seq<char>)
    requires
        is_ascii_chars(s),
    ensures
        is_ascii_chars(ascii_lower(s)),
        upper(ascii_lower(s)) == upper(s),
{
    assert forall|i: int| 0 <= i < s.len() implies '\0' <= #[trigger] ascii_lower(s)[i]
        <= '\u{7f}' by {
        assert('\0' <= s[i] <= '\u{7f}');
    }
    assert(ascii_upper(ascii_lower(s)) =~= ascii_upper(s));
}

/// The key of a code does not depend on the case of its letters nor on
/// white space around it, for a code that is ASCII once trimmed: written in
/// lower case and padded with white space, it has the same key.
pub proof fn lemma_code_key_normalizes(front: Seq<char>, code: Seq<char>, back: Seq<char>)
    requires
        all_white(front),
        all_white(back),
        is_ascii_chars(trimmed(code)),
    ensures
        code_key(front + ascii_lower(code) + back) == code_key(code),
{
    lemma_trimmed_ignores_padding(front, ascii_lower(code), back);
    lemma_trimmed_of_lower(code);
    lemma_upper_of_lower(trimmed(code));
}

/// The key of an ASCII code is its own key: it is ASCII, as long as the
/// trimmed code, and trimming and upper-casing it again changes nothing.
pub proof fn lemma_code_key_is_normal(code: Seq<char>)
    requires
        is_ascii_chars(trimmed(code)),
    ensures
        is_ascii_chars(code_key(code)),
        code_key(code).len() == trimmed(code).len(),
        code_key(code_key(code)) == code_key(code),
{
    let t = trimmed(code);
    let key = code_key(code);
    lemma_trimmed_parts(code);
    assert forall|i: int| 0 <= i < key.len() implies '\0' <= #[trigger] key[i] <= '\u{7f}' by {
        assert('\0' <= t[i] <= '\u{7f}');
    }
    if key.len() > 0 {
        assert(key[0] == upper_char(t[0]));
        assert(key.last() == upper_char(t.last()));
    }
    assert(Seq::<char>::empty() + key + Seq::<char>::empty() =~= key);
    lemma_trimmed_of_padded(Seq::empty(), key, Seq::empty());
    assert(ascii_upper(key) =~= key);
}

} // verus!
