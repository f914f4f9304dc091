//! Small verified string helpers.

use vstd::prelude::*;
use vstd::string::*;

verus! {

/// `a` followed by `b`.
pub fn join(a: &str, b: &str) -> (r: String)
    ensures
        r@ == a@ + b@,
{
    let mut s = String::from_str(a);
    s.append(b);
    s
}

} // verus!

verus! {

/// The digit character for a value below ten.
pub open spec fn digit_char(d: nat) -> char {
    if d == 0 { '0' } else if d == 1 { '1' } else if d == 2 { '2' } else if d == 3 { '3' }
    else if d == 4 { '4' } else if d == 5 { '5' } else if d == 6 { '6' } else if d == 7 { '7' }
    else if d == 8 { '8' } else { '9' }
}

/// The decimal numeral of a natural number, without leading zeros.
pub open spec fn decimal(n: nat) -> Seq<char>
    decreases n,
{
    if n < 10 {
        seq![digit_char(n)]
    } else {
        decimal(n / 10).push(digit_char(n % 10))
    }
}

fn digit(d: u64) -> (c: char)
    requires
        d < 10,
    ensures
        c == digit_char(d as nat),
{
    if d == 0 { '0' } else if d == 1 { '1' } else if d == 2 { '2' } else if d == 3 { '3' }
    else if d == 4 { '4' } else if d == 5 { '5' } else if d == 6 { '6' } else if d == 7 { '7' }
    else if d == 8 { '8' } else { '9' }
}

/// The characters of a string.
#[verifier::external_body]
pub(crate) fn chars_of(s: &str) -> (v: Vec<char>)
    ensures
        v@ == s@,
{
    s.chars().collect()
}

/// The number of characters of a string.
pub(crate) fn char_count(s: &str) -> (n: usize)
    ensures
        n == s@.len(),
{
    let cs = chars_of(s);
    cs.len()
}

/// The string made of some characters.
#[verifier::external_body]
pub(crate) fn string_of(v: &[char]) -> (s: String)
    ensures
        s@ == v@,
{
    v.iter().collect()
}

/// The decimal numeral of a number, as `Display` writes it.
pub fn decimal_string(n: u64) -> (s: String)
    ensures
        s@ == decimal(n as nat),
{
    let mut digits: Vec<char> = Vec::new();
    let mut m: u64 = n;
    // digits holds, least significant first, the digits already taken off m
    while m >= 10
        invariant
            decimal(n as nat) == decimal(m as nat) + digits@.reverse(),
        decreases m,
    {
        let d = m % 10;
        let c = digit(d);
        proof {
            assert(decimal(m as nat) == decimal((m / 10) as nat).push(digit_char((m % 10) as nat)));
            assert(digits@.push(c).reverse() =~= seq![c] + digits@.reverse());
            assert(decimal((m / 10) as nat).push(c) + digits@.reverse()
                =~= decimal((m / 10) as nat) + (seq![c] + digits@.reverse()));
        }
        digits.push(c);
        m = m / 10;
    }
    let c = digit(m);
    digits.push(c);
    proof {
        assert(digits@.reverse() =~= seq![c] + digits@.drop_last().reverse());
    }
    let mut out: Vec<char> = Vec::new();
    let mut i: usize = digits.len();
    while i > 0
        invariant
            i <= digits@.len(),
            out@ == digits@.subrange(i as int, digits@.len() as int).reverse(),
        decreases i,
    {
        i = i - 1;
        proof {
            assert(digits@.subrange(i as int, digits@.len() as int).reverse()
                =~= digits@.subrange(i + 1, digits@.len() as int).reverse().push(digits@[i as int]));
        }
        out.push(digits[i]);
    }
    proof {
        assert(digits@.subrange(0, digits@.len() as int) =~= digits@);
    }
    string_of(out.as_slice())
}

} // verus!

verus! {

/// Whether two strings are equal (`<str as PartialEq>::eq`).
#[verifier::external_body]
pub(crate) fn str_eq(a: &str, b: &str) -> (r: bool)
    ensures
        r == (a@ == b@),
{
    a == b
}

} // verus!

verus! {

/// `needle` occurs in `hay` starting at `at`.
pub open spec fn occurs_at(hay: Seq<char>, needle: Seq<char>, at: int) -> bool {
    0 <= at && at + needle.len() <= hay.len() && hay.subrange(at, at + needle.len()) == needle
}

/// `needle` occurs somewhere in `hay`.
pub open spec fn occurs_in(hay: Seq<char>, needle: Seq<char>) -> bool {
    exists|at: int| occurs_at(hay, needle, at)
}

/// Whether `needle` occurs at position `at` of `hay`.
pub fn matches_at(hay: &Vec<char>, needle: &Vec<char>, at: usize) -> (b: bool)
    requires
        at <= hay@.len(),
    ensures
        b == occurs_at(hay@, needle@, at as int),
{
    if needle.len() > hay.len() - at {
        return false;
    }
    let mut j: usize = 0;
    while j < needle.len()
        invariant
            at + needle@.len() <= hay@.len(),
            j <= needle@.len(),
            forall|k: int| 0 <= k < j ==> hay@[at + k] == needle@[k],
        decreases needle@.len() - j,
    {
        assert(at + j < hay.len());
        if hay[at + j] != needle[j] {
            proof {
                assert(hay@.subrange(at as int, at + needle@.len())[j as int] != needle@[j as int]);
            }
            return false;
        }
        j = j + 1;
    }
    proof {
        assert(hay@.subrange(at as int, at + needle@.len()) =~= needle@);
    }
    true
}

/// Whether `needle` occurs in `hay`.
pub fn contains_chars(hay: &Vec<char>, needle: &Vec<char>) -> (b: bool)
    ensures
        b == occurs_in(hay@, needle@),
{
    let mut at: usize = 0;
    while at < hay.len()
        invariant
            at <= hay@.len(),
            forall|k: int| 0 <= k < at ==> !occurs_at(hay@, needle@, k),
        decreases hay@.len() - at,
    {
        if matches_at(hay, needle, at) {
            return true;
        }
        at = at + 1;
    }
    matches_at(hay, needle, at)
}

/// Whether `needle` occurs in the string `hay`.
pub fn str_contains(hay: &str, needle: &str) -> (b: bool)
    ensures
        b == occurs_in(hay@, needle@),
{
    let h = chars_of(hay);
    let n = chars_of(needle);
    contains_chars(&h, &n)
}

/// The lower-case form of a string, as `str::to_lowercase` gives it.
pub uninterp spec fn lowercase(s: Seq<char>) -> Seq<char>;

/// `str::to_lowercase`.
#[verifier::external_body]
pub(crate) fn to_lower(s: &str) -> (r: String)
    ensures
        r@ == lowercase(s@),
{
    s.to_lowercase()
}

} // verus!

verus! {

/// Whether a character is white space: it has the Unicode `White_Space`
/// property, the test `char::is_whitespace` makes.
pub open spec fn whitespace(c: char) -> bool {
    let v = c as u32;
    ||| 0x09 <= v <= 0x0D
    ||| v == 0x20
    ||| v == 0x85
    ||| v == 0xA0
    ||| v == 0x1680
    ||| 0x2000 <= v <= 0x200A
    ||| v == 0x2028
    ||| v == 0x2029
    ||| v == 0x202F
    ||| v == 0x205F
    ||| v == 0x3000
}

/// Whether a character is white space.
pub(crate) fn is_ws(c: char) -> (b: bool)
    ensures
        b == whitespace(c),
{
    let v = c as u32;
    (0x09 <= v && v <= 0x0D) || v == 0x20 || v == 0x85 || v == 0xA0 || v == 0x1680 || (0x2000 <= v && v <= 0x200A)
        || v == 0x2028 || v == 0x2029 || v == 0x202F || v == 0x205F || v == 0x3000
}

/// Every character is white space, so the text trims to nothing.
pub open spec fn blank(s: Seq<char>) -> bool {
    forall|i: int| 0 <= i < s.len() ==> whitespace(s[i])
}

/// Whether a string is empty once trimmed of white space.
pub fn is_blank(s: &str) -> (b: bool)
    ensures
        b == blank(s@),
{
    let cs = chars_of(s);
    let mut i: usize = 0;
    while i < cs.len()
        invariant
            cs@ == s@,
            i <= cs@.len(),
            forall|j: int| 0 <= j < i ==> whitespace(cs@[j]),
        decreases cs@.len() - i,
    {
        if !is_ws(cs[i]) {
            return false;
        }
        i = i + 1;
    }
    true
}

/// A fresh random identifier (`uuid::Uuid::new_v4`, as text).
#[verifier::external_body]
pub(crate) fn new_uuid() -> String {
    uuid::Uuid::new_v4().to_string()
}

/// The words of `s` as `str::split_whitespace` yields them, where `cur` is a
/// word already begun before `s`.
pub open spec fn words_from(s: Seq<char>, cur: Seq<char>) -> Seq<Seq<char>>
    decreases s.len(),
{
    if s.len() == 0 {
        if cur.len() > 0 { seq![cur] } else { Seq::empty() }
    } else if whitespace(s[0]) {
        (if cur.len() > 0 { seq![cur] } else { Seq::empty() }) + words_from(s.drop_first(), Seq::empty())
    } else {
        words_from(s.drop_first(), cur.push(s[0]))
    }
}

/// The maximal runs of non-white-space characters of a text, in order.
pub open spec fn words(s: Seq<char>) -> Seq<Seq<char>> {
    words_from(s, Seq::empty())
}

/// The views of a list of strings.
pub open spec fn string_views(v: Seq<String>) -> Seq<Seq<char>> {
    v.map_values(|w: String| w@)
}

/// A copy of a list of strings.
pub fn copy_strings(a: &Vec<String>) -> (r: Vec<String>)
    ensures
        string_views(r@) == string_views(a@),
{
    let mut r: Vec<String> = Vec::new();
    let mut i: usize = 0;
    while i < a.len()
        invariant
            i <= a@.len(),
            r@.len() == i,
            forall|j: int| 0 <= j < i ==> r@[j]@ == a@[j]@,
        decreases a@.len() - i,
    {
        r.push(a[i].clone());
        i = i + 1;
    }
    proof {
        assert(string_views(r@) =~= string_views(a@));
    }
    r
}

/// The words of a text, split at white space.
pub fn split_words(s: &str) -> (r: Vec<String>)
    ensures
        string_views(r@) == words(s@),
{
    let cs = chars_of(s);
    let n = cs.len();
    let mut acc: Vec<String> = Vec::new();
    let mut cur: Vec<char> = Vec::new();
    let mut i: usize = 0;
    assert(cs@.subrange(0, n as int) =~= cs@);
    assert(string_views(acc@) + words_from(cs@, cur@) =~= words_from(cs@, cur@));
    while i < n
        invariant
            n == cs@.len(),
            cs@ == s@,
            i <= n,
            string_views(acc@) + words_from(cs@.subrange(i as int, n as int), cur@) == words(s@),
        decreases n - i,
    {
        let ghost rest = cs@.subrange(i as int, n as int);
        assert(rest.drop_first() =~= cs@.subrange(i as int + 1, n as int));
        assert(rest[0] == cs@[i as int]);
        let c = cs[i];
        if is_ws(c) {
            if cur.len() > 0 {
                let w = string_of(cur.as_slice());
                let ghost before = string_views(acc@);
                acc.push(w);
                assert(string_views(acc@) =~= before.push(w@));
                assert(before.push(w@) + words_from(cs@.subrange(i as int + 1, n as int), Seq::empty())
                    =~= before + (seq![cur@] + words_from(cs@.subrange(i as int + 1, n as int), Seq::empty())));
            } else {
                assert(Seq::<Seq<char>>::empty() + words_from(cs@.subrange(i as int + 1, n as int), Seq::empty())
                    =~= words_from(cs@.subrange(i as int + 1, n as int), Seq::empty()));
            }
            cur = Vec::new();
        } else {
            cur.push(c);
        }
        i = i + 1;
    }
    assert(cs@.subrange(n as int, n as int).len() == 0);
    if cur.len() > 0 {
        let w = string_of(cur.as_slice());
        let ghost before = string_views(acc@);
        acc.push(w);
        assert(string_views(acc@) =~= before + seq![cur@]);
    } else {
        assert(string_views(acc@) + Seq::<Seq<char>>::empty() =~= string_views(acc@));
    }
    acc
}

/// Whether `s` begins with `prefix`.
pub fn str_starts_with(s: &str, prefix: &str) -> (b: bool)
    ensures
        b == occurs_at(s@, prefix@, 0),
{
    let h = chars_of(s);
    let n = chars_of(prefix);
    matches_at(&h, &n, 0)
}

/// The pieces of a text between newlines, where `cur` is a piece already
/// begun before it.
pub open spec fn pieces_from(s: Seq<char>, cur: Seq<char>) -> Seq<Seq<char>>
    decreases s.len(),
{
    if s.len() == 0 {
        seq![cur]
    } else if s[0] == '\n' {
        seq![cur] + pieces_from(s.drop_first(), Seq::empty())
    } else {
        pieces_from(s.drop_first(), cur.push(s[0]))
    }
}

/// A line without the carriage return of a `\r\n` ending.
pub open spec fn strip_cr(l: Seq<char>) -> Seq<char> {
    if l.len() > 0 && l.last() == '\r' { l.drop_last() } else { l }
}

/// Lines from the pieces between newlines: every piece that a newline ended
/// loses a carriage return before it, and an empty last piece is no line.
pub open spec fn lines_of_pieces(p: Seq<Seq<char>>) -> Seq<Seq<char>>
    decreases p.len(),
{
    if p.len() == 0 {
        Seq::empty()
    } else if p.len() == 1 {
        if p[0].len() == 0 { Seq::empty() } else { seq![p[0]] }
    } else {
        seq![strip_cr(p[0])] + lines_of_pieces(p.drop_first())
    }
}

/// The lines of a text as `str::lines` yields them.
pub open spec fn text_lines(s: Seq<char>) -> Seq<Seq<char>> {
    lines_of_pieces(pieces_from(s, Seq::empty()))
}

proof fn lemma_pieces_nonempty(s: Seq<char>, cur: Seq<char>)
    ensures
        pieces_from(s, cur).len() >= 1,
    decreases s.len(),
{
    if s.len() > 0 {
        if s[0] == '\n' {
            lemma_pieces_nonempty(s.drop_first(), Seq::empty());
        } else {
            lemma_pieces_nonempty(s.drop_first(), cur.push(s[0]));
        }
    }
}

proof fn lemma_pieces_len(s: Seq<char>, cur: Seq<char>)
    ensures
        pieces_from(s, cur).len() <= s.len() + 1,
    decreases s.len(),
{
    if s.len() > 0 {
        if s[0] == '\n' {
            lemma_pieces_len(s.drop_first(), Seq::empty());
        } else {
            lemma_pieces_len(s.drop_first(), cur.push(s[0]));
        }
    }
}

proof fn lemma_lines_len(p: Seq<Seq<char>>)
    ensures
        lines_of_pieces(p).len() <= p.len(),
    decreases p.len(),
{
    if p.len() > 1 {
        lemma_lines_len(p.drop_first());
    }
}

/// The characters `s[from..to]` as a string.
fn substring(cs: &Vec<char>, from: usize, to: usize) -> (r: String)
    requires
        from <= to <= cs@.len(),
    ensures
        r@ == cs@.subrange(from as int, to as int),
{
    let mut v: Vec<char> = Vec::new();
    let mut i: usize = from;
    while i < to
        invariant
            from <= i <= to,
            to <= cs@.len(),
            v@ == cs@.subrange(from as int, i as int),
        decreases to - i,
    {
        v.push(cs[i]);
        assert(cs@.subrange(from as int, i + 1) =~= cs@.subrange(from as int, i as int).push(cs@[i as int]));
        i = i + 1;
    }
    string_of(v.as_slice())
}

/// The lines of a text, split at newlines, without their line endings.
pub fn split_lines(s: &str) -> (r: Vec<String>)
    ensures
        string_views(r@) == text_lines(s@),
        r@.len() <= s@.len() + 1,
{
    let cs = chars_of(s);
    let n = cs.len();
    let mut acc: Vec<String> = Vec::new();
    let mut start: usize = 0;
    let mut i: usize = 0;
    proof {
        lemma_pieces_len(s@, Seq::empty());
        lemma_lines_len(pieces_from(s@, Seq::empty()));
        assert(cs@.subrange(0, n as int) =~= cs@);
        assert(cs@.subrange(0, 0) =~= Seq::<char>::empty());
        assert(string_views(acc@) + text_lines(s@) =~= text_lines(s@));
    }
    while i < n
        invariant
            n == cs@.len(),
            cs@ == s@,
            start <= i <= n,
            acc@.len() <= start,
            string_views(acc@) + lines_of_pieces(
                pieces_from(cs@.subrange(i as int, n as int), cs@.subrange(start as int, i as int)),
            ) == text_lines(s@),
        decreases n - i,
    {
        let ghost rest = cs@.subrange(i as int, n as int);
        let ghost cur = cs@.subrange(start as int, i as int);
        assert(rest.drop_first() =~= cs@.subrange(i + 1, n as int));
        assert(rest[0] == cs@[i as int]);
        if cs[i] == '\n' {
            let end = if i > start && cs[i - 1] == '\r' { i - 1 } else { i };
            let line = substring(&cs, start, end);
            proof {
                assert(line@ =~= strip_cr(cur));
                lemma_pieces_nonempty(cs@.subrange(i + 1, n as int), Seq::empty());
                let tail = pieces_from(cs@.subrange(i + 1, n as int), Seq::empty());
                assert((seq![cur] + tail).drop_first() =~= tail);
                assert((seq![cur] + tail)[0] == cur);
                assert(cs@.subrange(i + 1, i + 1) =~= Seq::<char>::empty());
            }
            let ghost before = string_views(acc@);
            acc.push(line);
            proof {
                let tail = lines_of_pieces(pieces_from(cs@.subrange(i + 1, n as int), Seq::empty()));
                assert(string_views(acc@) =~= before.push(strip_cr(cur)));
                assert(before.push(strip_cr(cur)) + tail =~= before + (seq![strip_cr(cur)] + tail));
            }
            start = i + 1;
        } else {
            assert(cur.push(cs@[i as int]) =~= cs@.subrange(start as int, i + 1));
        }
        i = i + 1;
    }
    let ghost cur = cs@.subrange(start as int, n as int);
    assert(cs@.subrange(n as int, n as int).len() == 0);
    if start < n {
        let line = substring(&cs, start, n);
        let ghost before = string_views(acc@);
        acc.push(line);
        assert(string_views(acc@) =~= before + seq![cur]);
    } else {
        assert(string_views(acc@) + Seq::<Seq<char>>::empty() =~= string_views(acc@));
    }
    acc
}

/// How many characters lead `s` from position `i` on before one that is not
/// white space: the position of that character, or the length.
pub open spec fn trim_start_at(s: Seq<char>, i: nat) -> nat
    decreases s.len() - i,
{
    if i < s.len() && whitespace(s[i as int]) { trim_start_at(s, i + 1) } else { i }
}

/// The end of `s[..j]` once trailing white space is cut.
pub open spec fn trim_end_at(s: Seq<char>, j: nat) -> nat
    decreases j,
{
    if 0 < j <= s.len() && whitespace(s[j - 1]) { trim_end_at(s, (j - 1) as nat) } else { j }
}

/// A text without leading or trailing white space, as `str::trim` gives it.
pub open spec fn trimmed(s: Seq<char>) -> Seq<char> {
    let a = trim_start_at(s, 0);
    let b = trim_end_at(s, s.len());
    if a < b { s.subrange(a as int, b as int) } else { Seq::empty() }
}

/// The text without leading or trailing white space.
pub fn trim(s: &str) -> (r: String)
    ensures
        r@ == trimmed(s@),
{
    let cs = chars_of(s);
    let n = cs.len();
    let mut i: usize = 0;
    while i < n && is_ws(cs[i])
        invariant
            n == cs@.len(),
            cs@ == s@,
            i <= n,
            trim_start_at(s@, 0) == trim_start_at(s@, i as nat),
        decreases n - i,
    {
        i = i + 1;
    }
    let mut j: usize = n;
    while j > 0 && is_ws(cs[j - 1])
        invariant
            n == cs@.len(),
            cs@ == s@,
            j <= n,
            trim_end_at(s@, n as nat) == trim_end_at(s@, j as nat),
        decreases j,
    {
        j = j - 1;
    }
    if i < j {
        substring(&cs, i, j)
    } else {
        String::new()
    }
}

/// What follows the first colon of a text, if it has one.
pub open spec fn after_colon(s: Seq<char>) -> Option<Seq<char>>
    decreases s.len(),
{
    if s.len() == 0 {
        None
    } else if s[0] == ':' {
        Some(s.drop_first())
    } else {
        after_colon(s.drop_first())
    }
}

/// A text up to its first colon.
pub open spec fn before_colon(s: Seq<char>) -> Seq<char>
    decreases s.len(),
{
    if s.len() == 0 || s[0] == ':' {
        Seq::empty()
    } else {
        seq![s[0]] + before_colon(s.drop_first())
    }
}

/// The second colon-separated field of a text, as `split(':').nth(1)`
/// gives it: the text between its first colon and the next one, if it has a
/// colon.
pub open spec fn colon_field(s: Seq<char>) -> Option<Seq<char>> {
    match after_colon(s) {
        Some(r) => Some(before_colon(r)),
        None => None,
    }
}

/// The second colon-separated field of a text, if it has a colon.
pub fn second_field(s: &str) -> (r: Option<String>)
    ensures
        match r {
            Some(f) => colon_field(s@) == Some(f@),
            None => colon_field(s@) is None,
        },
{
    let cs = chars_of(s);
    let n = cs.len();
    let mut i: usize = 0;
    assert(cs@.subrange(0, n as int) =~= cs@);
    while i < n && cs[i] != ':'
        invariant
            n == cs@.len(),
            cs@ == s@,
            i <= n,
            after_colon(s@) == after_colon(cs@.subrange(i as int, n as int)),
        decreases n - i,
    {
        assert(cs@.subrange(i as int, n as int).drop_first() =~= cs@.subrange(i + 1, n as int));
        i = i + 1;
    }
    if i == n {
        assert(cs@.subrange(n as int, n as int).len() == 0);
        return None;
    }
    assert(cs@.subrange(i as int, n as int).drop_first() =~= cs@.subrange(i + 1, n as int));
    let from = i + 1;
    let mut j: usize = from;
    assert(cs@.subrange(from as int, from as int) =~= Seq::<char>::empty());
    while j < n && cs[j] != ':'
        invariant
            n == cs@.len(),
            from <= j <= n,
            before_colon(cs@.subrange(from as int, n as int)) == cs@.subrange(from as int, j as int) + before_colon(
                cs@.subrange(j as int, n as int),
            ),
        decreases n - j,
    {
        let ghost rest = cs@.subrange(j as int, n as int);
        assert(rest.drop_first() =~= cs@.subrange(j + 1, n as int));
        assert(cs@.subrange(from as int, j as int) + (seq![cs@[j as int]] + before_colon(rest.drop_first()))
            =~= cs@.subrange(from as int, j + 1) + before_colon(rest.drop_first()));
        j = j + 1;
    }
    proof {
        if j < n {
            assert(cs@.subrange(j as int, n as int)[0] == ':');
        }
        assert(cs@.subrange(from as int, j as int) + Seq::<char>::empty() =~= cs@.subrange(from as int, j as int));
    }
    Some(substring(&cs, from, j))
}

/// A run of text is a word: non-empty, with no white space in it.
pub open spec fn is_word(w: Seq<char>) -> bool {
    w.len() > 0 && forall|j: int| 0 <= j < w.len() ==> !whitespace(#[trigger] w[j])
}

proof fn lemma_words_from(s: Seq<char>, cur: Seq<char>)
    requires
        forall|j: int| 0 <= j < cur.len() ==> !whitespace(#[trigger] cur[j]),
    ensures
        forall|k: int| 0 <= k < words_from(s, cur).len() ==> is_word(#[trigger] words_from(s, cur)[k]),
    decreases s.len(),
{
    if s.len() == 0 {
        if cur.len() > 0 {
            assert(words_from(s, cur) == seq![cur]);
            assert(words_from(s, cur)[0] == cur);
            assert(is_word(cur));
        }
    } else if whitespace(s[0]) {
        lemma_words_from(s.drop_first(), Seq::empty());
        let head: Seq<Seq<char>> = if cur.len() > 0 { seq![cur] } else { Seq::empty() };
        let tail = words_from(s.drop_first(), Seq::empty());
        assert(words_from(s, cur) == head + tail);
        assert forall|k: int| 0 <= k < (head + tail).len() implies is_word(#[trigger] (head + tail)[k]) by {
            if k < head.len() {
                assert((head + tail)[k] == cur);
            } else {
                assert((head + tail)[k] == tail[k - head.len()]);
            }
        }
    } else {
        let next = cur.push(s[0]);
        assert forall|j: int| 0 <= j < next.len() implies !whitespace(#[trigger] next[j]) by {
            if j < cur.len() {
                assert(next[j] == cur[j]);
            }
        }
        lemma_words_from(s.drop_first(), next);
        assert(words_from(s, cur) == words_from(s.drop_first(), next));
    }
}

/// Splitting at white space gives words: each is non-empty and holds no
/// white space.
pub proof fn split_words_are_words(s: Seq<char>)
    ensures
        forall|k: int| 0 <= k < words(s).len() ==> is_word(#[trigger] words(s)[k]),
{
    lemma_words_from(s, Seq::empty());
}

proof fn lemma_trim_start(s: Seq<char>, i: nat)
    requires
        i <= s.len(),
    ensures
        i <= trim_start_at(s, i) <= s.len(),
        trim_start_at(s, i) < s.len() ==> !whitespace(s[trim_start_at(s, i) as int]),
    decreases s.len() - i,
{
    if i < s.len() && whitespace(s[i as int]) {
        lemma_trim_start(s, i + 1);
    }
}

proof fn lemma_trim_end(s: Seq<char>, j: nat)
    requires
        j <= s.len(),
    ensures
        trim_end_at(s, j) <= j,
        trim_end_at(s, j) > 0 ==> !whitespace(s[trim_end_at(s, j) - 1]),
    decreases j,
{
    if 0 < j && whitespace(s[j - 1]) {
        lemma_trim_end(s, (j - 1) as nat);
    }
}

/// A trimmed text neither starts nor ends with white space, and trimming it
/// again changes nothing.
pub proof fn trim_is_idempotent(s: Seq<char>)
    ensures
        trimmed(s).len() > 0 ==> !whitespace(trimmed(s)[0]) && !whitespace(trimmed(s).last()),
        trimmed(trimmed(s)) == trimmed(s),
{
    lemma_trim_start(s, 0);
    lemma_trim_end(s, s.len());
    let t = trimmed(s);
    if t.len() > 0 {
        let a = trim_start_at(s, 0);
        let b = trim_end_at(s, s.len());
        assert(t[0] == s[a as int]);
        assert(t.last() == s[b - 1]);
        assert(trim_start_at(t, 0) == 0);
        assert(trim_end_at(t, t.len()) == t.len());
        assert(t.subrange(0, t.len() as int) =~= t);
    } else {
        assert(trim_start_at(t, 0) == 0);
        assert(trimmed(t) =~= t);
    }
}

} // verus!
