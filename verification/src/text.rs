//! Character-level helpers shared by the parsers of this crate.

use vstd::prelude::*;

verus! {

broadcast use vstd::string::group_string_axioms;

/// The characters of `s`, in order.
pub fn chars_of(s: &str) -> (out: Vec<char>)
    ensures
        out@ == s@,
{
    let mut out: Vec<char> = Vec::new();
    for c in iter: s.chars()
        invariant
            iter.seq() == s@,
            out@ == s@.take(iter.index() as int),
    {
        out.push(c);
    }
    out
}

} // verus!

verus! {

/// Appends one character to a string.
#[verifier::external_body]
pub(crate) fn push_char(s: &mut String, c: char)
    ensures
        final(s)@ == old(s)@.push(c),
{
    s.push(c);
}

/// A string holding exactly the characters of `v`.
pub fn string_from_chars(v: &Vec<char>) -> (s: String)
    ensures
        s@ == v@,
{
    let mut s = String::new();
    let n = v.len();
    for i in 0..n
        invariant
            n == v@.len(),
            s@ == v@.take(i as int),
    {
        push_char(&mut s, v[i]);
        assert(v@.take(i + 1) =~= v@.take(i as int).push(v@[i as int]));
    }
    assert(v@.take(n as int) =~= v@);
    s
}

/// The ASCII digit for a value below ten.
pub open spec fn digit_char(d: nat) -> char {
    if d == 0 { '0' } else if d == 1 { '1' } else if d == 2 { '2' } else if d == 3 { '3' }
    else if d == 4 { '4' } else if d == 5 { '5' } else if d == 6 { '6' } else if d == 7 { '7' }
    else if d == 8 { '8' } else { '9' }
}

/// The decimal representation of `n`, without sign or leading zeros.
pub open spec fn decimal(n: nat) -> Seq<char>
    decreases n,
{
    if n < 10 {
        seq![digit_char(n)]
    } else {
        decimal(n / 10).push(digit_char(n % 10))
    }
}

fn digit_of(d: u64) -> (c: char)
    requires
        d < 10,
    ensures
        c == digit_char(d as nat),
{
    if d == 0 { '0' } else if d == 1 { '1' } else if d == 2 { '2' } else if d == 3 { '3' }
    else if d == 4 { '4' } else if d == 5 { '5' } else if d == 6 { '6' } else if d == 7 { '7' }
    else if d == 8 { '8' } else { '9' }
}

fn push_decimal(out: &mut String, n: u64)
    ensures
        final(out)@ == old(out)@ + decimal(n as nat),
    decreases n,
{
    if n >= 10 {
        push_decimal(out, n / 10);
    }
    push_char(out, digit_of(n % 10));
}

/// Appends the decimal representation of `n` to `out`.
pub fn append_decimal(out: &mut String, n: u64)
    ensures
        final(out)@ == old(out)@ + decimal(n as nat),
{
    push_decimal(out, n);
}

/// Number of bytes in the UTF-8 encoding of `s`.
pub open spec fn utf8_len(s: Seq<char>) -> nat {
    vstd::utf8::encode_utf8(s).len()
}

/// Length in bytes of a string, as `String::len` reports it.
pub fn byte_len(s: &String) -> (n: usize)
    ensures
        n as nat == utf8_len(s@),
{
    let bytes = s.as_str().as_bytes();
    bytes.len()
}

/// `p` is a prefix of `s`.
pub open spec fn has_prefix(s: Seq<char>, p: Seq<char>) -> bool {
    p.len() <= s.len() && s.take(p.len() as int) == p
}

/// Whether `s` begins with `p`.
pub fn starts_with_str(s: &str, p: &str) -> (b: bool)
    ensures
        b == has_prefix(s@, p@),
{
    let sv = chars_of(s);
    let pv = chars_of(p);
    if pv.len() > sv.len() {
        return false;
    }
    let n = pv.len();
    for i in 0..n
        invariant
            n == pv@.len(),
            n <= sv@.len(),
            sv@ == s@,
            pv@ == p@,
            forall|j: int| 0 <= j < i ==> sv@[j] == pv@[j],
    {
        if sv[i] != pv[i] {
            assert(s@.take(n as int)[i as int] != p@[i as int]);
            return false;
        }
    }
    assert(s@.take(n as int) =~= p@);
    true
}

} // verus!

verus! {

/// Unicode `White_Space` characters, as `char::is_whitespace` and `str::trim` use them.
pub open spec fn is_space(c: char) -> bool {
    let v = c as u32;
    ||| 0x09 <= v <= 0x0D
    ||| v == 0x20
    ||| v == 0x85
    ||| v == 0xA0
    ||| v == 0x1680
    ||| 0x2000 <= v <= 0x200A
    ||| v == 0x2028
    ||| v == 0x2029
    ||| v == 0x202F
    ||| v == 0x205F
    ||| v == 0x3000
}

/// Classes of characters that the trimming helpers strip.
#[derive(Clone, Copy)]
pub enum CharClass {
    /// Unicode white space.
    Space,
    /// One given character.
    Exactly(char),
    /// A space or a dash.
    SpaceOrDash,
}

/// `c` belongs to `class`.
pub open spec fn in_class(class: CharClass, c: char) -> bool {
    match class {
        CharClass::Space => is_space(c),
        CharClass::Exactly(d) => c == d,
        CharClass::SpaceOrDash => c == ' ' || c == '-',
    }
}

/// Whether `c` belongs to `class`.
pub fn class_has(class: CharClass, c: char) -> (b: bool)
    ensures
        b == in_class(class, c),
{
    match class {
        CharClass::Space => {
            let v = c as u32;
            (0x09 <= v && v <= 0x0D) || v == 0x20 || v == 0x85 || v == 0xA0 || v == 0x1680
                || (0x2000 <= v && v <= 0x200A) || v == 0x2028 || v == 0x2029 || v == 0x202F
                || v == 0x205F || v == 0x3000
        },
        CharClass::Exactly(d) => c == d,
        CharClass::SpaceOrDash => c == ' ' || c == '-',
    }
}

/// `s` without its leading characters of `class`.
pub open spec fn trim_start_class(s: Seq<char>, class: CharClass) -> Seq<char>
    decreases s.len(),
{
    if s.len() > 0 && in_class(class, s[0]) {
        trim_start_class(s.drop_first(), class)
    } else {
        s
    }
}

/// `s` without its trailing characters of `class`.
pub open spec fn trim_end_class(s: Seq<char>, class: CharClass) -> Seq<char>
    decreases s.len(),
{
    if s.len() > 0 && in_class(class, s.last()) {
        trim_end_class(s.drop_last(), class)
    } else {
        s
    }
}

/// `s` without leading and trailing characters of `class`.
pub open spec fn trim_class(s: Seq<char>, class: CharClass) -> Seq<char> {
    trim_end_class(trim_start_class(s, class), class)
}

/// `s` with every leading repetition of the non-empty pattern `p` removed.
pub open spec fn trim_start_pattern(s: Seq<char>, p: Seq<char>) -> Seq<char>
    decreases s.len(),
{
    if p.len() > 0 && has_prefix(s, p) {
        trim_start_pattern(s.skip(p.len() as int), p)
    } else {
        s
    }
}

/// `s` without the prefix `p`, if it has it.
pub open spec fn strip_prefix(s: Seq<char>, p: Seq<char>) -> Option<Seq<char>> {
    if has_prefix(s, p) { Some(s.skip(p.len() as int)) } else { None }
}

/// First position at or after `i` where `p` occurs in `s`.
pub open spec fn find_from(s: Seq<char>, p: Seq<char>, i: int) -> Option<int>
    decreases s.len() + 1 - i,
{
    if i < 0 || i + p.len() > s.len() {
        None
    } else if has_prefix(s.skip(i), p) {
        Some(i)
    } else {
        find_from(s, p, i + 1)
    }
}

/// First position where `p` occurs in `s`.
pub open spec fn find(s: Seq<char>, p: Seq<char>) -> Option<int> {
    find_from(s, p, 0)
}

/// Characters of `v` in `lo..hi`.
pub fn slice_chars(v: &Vec<char>, lo: usize, hi: usize) -> (r: Vec<char>)
    requires
        lo <= hi <= v@.len(),
    ensures
        r@ == v@.subrange(lo as int, hi as int),
{
    let mut r: Vec<char> = Vec::new();
    let mut i = lo;
    while i < hi
        invariant
            lo <= i <= hi <= v@.len(),
            r@ == v@.subrange(lo as int, i as int),
        decreases hi - i,
    {
        r.push(v[i]);
        i = i + 1;
        assert(r@ =~= v@.subrange(lo as int, i as int));
    }
    r
}

proof fn lemma_trim_start_step(v: Seq<char>, i: int, hi: int, class: CharClass)
    requires
        0 <= i < hi <= v.len(),
        in_class(class, v[i]),
    ensures
        trim_start_class(v.subrange(i, hi), class) == trim_start_class(v.subrange(i + 1, hi), class),
{
    assert(v.subrange(i, hi).drop_first() =~= v.subrange(i + 1, hi));
}

/// Position of the first character in `lo..hi` outside `class` (or `hi`).
pub fn skip_class(v: &Vec<char>, lo: usize, hi: usize, class: CharClass) -> (r: usize)
    requires
        lo <= hi <= v@.len(),
    ensures
        lo <= r <= hi,
        v@.subrange(r as int, hi as int) == trim_start_class(v@.subrange(lo as int, hi as int), class),
{
    let mut i = lo;
    while i < hi && class_has(class, v[i])
        invariant
            lo <= i <= hi <= v@.len(),
            trim_start_class(v@.subrange(lo as int, hi as int), class) == trim_start_class(
                v@.subrange(i as int, hi as int),
                class,
            ),
        decreases hi - i,
    {
        proof {
            lemma_trim_start_step(v@, i as int, hi as int, class);
        }
        i = i + 1;
    }
    proof {
        let t = v@.subrange(i as int, hi as int);
        if t.len() > 0 {
            assert(t[0] == v@[i as int]);
        }
    }
    i
}

proof fn lemma_trim_end_step(v: Seq<char>, lo: int, j: int, class: CharClass)
    requires
        0 <= lo < j <= v.len(),
        in_class(class, v[j - 1]),
    ensures
        trim_end_class(v.subrange(lo, j), class) == trim_end_class(v.subrange(lo, j - 1), class),
{
    assert(v.subrange(lo, j).drop_last() =~= v.subrange(lo, j - 1));
}

/// End of `lo..hi` once trailing characters of `class` are dropped.
pub fn skip_class_back(v: &Vec<char>, lo: usize, hi: usize, class: CharClass) -> (r: usize)
    requires
        lo <= hi <= v@.len(),
    ensures
        lo <= r <= hi,
        v@.subrange(lo as int, r as int) == trim_end_class(v@.subrange(lo as int, hi as int), class),
{
    let mut j = hi;
    while j > lo && class_has(class, v[j - 1])
        invariant
            lo <= j <= hi <= v@.len(),
            trim_end_class(v@.subrange(lo as int, hi as int), class) == trim_end_class(
                v@.subrange(lo as int, j as int),
                class,
            ),
        decreases j - lo,
    {
        proof {
            lemma_trim_end_step(v@, lo as int, j as int, class);
        }
        j = j - 1;
    }
    proof {
        let t = v@.subrange(lo as int, j as int);
        if t.len() > 0 {
            assert(t.last() == v@[j - 1]);
        }
    }
    j
}

/// `v` without leading characters of `class`.
pub fn trim_start_vec(v: &Vec<char>, class: CharClass) -> (r: Vec<char>)
    ensures
        r@ == trim_start_class(v@, class),
{
    let lo = skip_class(v, 0, v.len(), class);
    assert(v@.subrange(0, v@.len() as int) =~= v@);
    slice_chars(v, lo, v.len())
}

/// `v` without leading or trailing characters of `class`.
pub fn trim_vec(v: &Vec<char>, class: CharClass) -> (r: Vec<char>)
    ensures
        r@ == trim_class(v@, class),
{
    let lo = skip_class(v, 0, v.len(), class);
    assert(v@.subrange(0, v@.len() as int) =~= v@);
    let hi = skip_class_back(v, lo, v.len(), class);
    slice_chars(v, lo, hi)
}

/// Whether `v[i..]` begins with `p`.
pub fn has_prefix_at(v: &Vec<char>, i: usize, p: &Vec<char>) -> (b: bool)
    requires
        i <= v@.len(),
    ensures
        b == has_prefix(v@.skip(i as int), p@),
{
    let n = p.len();
    let vl = v.len();
    if n > vl - i {
        return false;
    }
    let mut k: usize = 0;
    while k < n
        invariant
            n == p@.len(),
            vl == v@.len(),
            i + n <= vl,
            k <= n,
            forall|j: int| 0 <= j < k ==> v@[i + j] == p@[j],
        decreases n - k,
    {
        if v[i + k] != p[k] {
            assert(v@.skip(i as int).take(n as int)[k as int] != p@[k as int]);
            return false;
        }
        k = k + 1;
    }
    assert(v@.skip(i as int).take(n as int) =~= p@);
    true
}

/// `v` with every leading repetition of the non-empty pattern `p` removed.
pub fn trim_start_pattern_vec(v: &Vec<char>, p: &Vec<char>) -> (r: Vec<char>)
    requires
        p@.len() > 0,
    ensures
        r@ == trim_start_pattern(v@, p@),
{
    let mut i: usize = 0;
    let vl = v.len();
    assert(v@.skip(0) =~= v@);
    while has_prefix_at(v, i, p)
        invariant
            vl == v@.len(),
            i <= v@.len(),
            p@.len() > 0,
            trim_start_pattern(v@, p@) == trim_start_pattern(v@.skip(i as int), p@),
        decreases v@.len() - i,
    {
        assert(p@.len() <= v@.skip(i as int).len());
        assert(v@.skip(i as int).skip(p@.len() as int) =~= v@.skip(i + p@.len()));
        i = i + p.len();
    }
    slice_chars(v, i, v.len())
}

/// `v` without the prefix `p`, if it has it.
pub fn strip_prefix_vec(v: &Vec<char>, p: &Vec<char>) -> (r: Option<Vec<char>>)
    ensures
        r matches Some(x) ==> strip_prefix(v@, p@) == Some(x@),
        r is None ==> strip_prefix(v@, p@) is None,
{
    assert(v@.skip(0) =~= v@);
    if has_prefix_at(v, 0, p) {
        Some(slice_chars(v, p.len(), v.len()))
    } else {
        None
    }
}

/// First position where `p` occurs in `v`.
pub fn find_vec(v: &Vec<char>, p: &Vec<char>) -> (r: Option<usize>)
    ensures
        r matches Some(i) ==> find(v@, p@) == Some(i as int),
        r is None ==> find(v@, p@) is None,
{
    let mut i: usize = 0;
    if p.len() > v.len() {
        return None;
    }
    let last = v.len() - p.len();
    while i <= last
        invariant
            last == v@.len() - p@.len(),
            i <= last + 1,
            find(v@, p@) == find_from(v@, p@, i as int),
        decreases last + 1 - i,
    {
        if has_prefix_at(v, i, p) {
            return Some(i);
        }
        if i == last {
            assert(find_from(v@, p@, i + 1) is None);
            return None;
        }
        i = i + 1;
    }
    None
}

/// Whether two character sequences are equal.
pub fn chars_eq(a: &Vec<char>, b: &Vec<char>) -> (r: bool)
    ensures
        r == (a@ == b@),
{
    if a.len() != b.len() {
        return false;
    }
    let n = a.len();
    for i in 0..n
        invariant
            n == a@.len(),
            n == b@.len(),
            forall|j: int| 0 <= j < i ==> a@[j] == b@[j],
    {
        if a[i] != b[i] {
            return false;
        }
    }
    assert(a@ =~= b@);
    true
}

} // verus!

verus! {

/// Position of the first line feed in `s` (its length when there is none).
pub open spec fn first_newline(s: Seq<char>) -> nat
    decreases s.len(),
{
    if s.len() == 0 {
        0
    } else if s[0] == '\n' {
        0
    } else {
        1 + first_newline(s.drop_first())
    }
}

/// A line without the carriage return of a `\r\n` terminator.
pub open spec fn strip_cr(l: Seq<char>) -> Seq<char> {
    if l.len() > 0 && l.last() == '\r' { l.drop_last() } else { l }
}

/// The lines of `s`, as `str::lines` yields them: split at `\n` or `\r\n`,
/// terminators dropped, no final empty line after a trailing terminator.
pub open spec fn lines(s: Seq<char>) -> Seq<Seq<char>>
    decreases s.len(),
{
    if s.len() == 0 {
        seq![]
    } else {
        let k = first_newline(s);
        if k < s.len() {
            seq![strip_cr(s.take(k as int))] + lines(s.skip(k as int + 1))
        } else {
            seq![s]
        }
    }
}

/// The models of a sequence of character vectors.
pub open spec fn vecs_view(v: Seq<Vec<char>>) -> Seq<Seq<char>> {
    v.map_values(|l: Vec<char>| l@)
}

pub proof fn lemma_first_newline(s: Seq<char>, k: int)
    requires
        0 <= k <= s.len(),
        forall|j: int| 0 <= j < k ==> s[j] != '\n',
        k == s.len() || s[k] == '\n',
    ensures
        first_newline(s) == k,
    decreases k,
{
    if k > 0 {
        lemma_first_newline(s.drop_first(), k - 1);
    }
}

/// The lines of `v`, as `str::lines` yields them.
pub fn split_lines(v: &Vec<char>) -> (out: Vec<Vec<char>>)
    ensures
        vecs_view(out@) == lines(v@),
{
    let mut out: Vec<Vec<char>> = Vec::new();
    let n = v.len();
    let mut start: usize = 0;
    let mut i: usize = 0;
    assert(v@.skip(0) =~= v@);
    while i < n
        invariant
            n == v@.len(),
            start <= i <= n,
            forall|j: int| start <= j < i ==> v@[j] != '\n',
            lines(v@) == vecs_view(out@) + lines(v@.skip(start as int)),
        decreases n - i,
    {
        if v[i] == '\n' {
            let ghost rest = v@.skip(start as int);
            proof {
                lemma_first_newline(rest, i - start);
                assert(rest.take(i - start) =~= v@.subrange(start as int, i as int));
                assert(rest.skip(i - start + 1) =~= v@.skip(i + 1));
            }
            let end = if i > start && v[i - 1] == '\r' { i - 1 } else { i };
            let line = slice_chars(v, start, end);
            proof {
                let full = v@.subrange(start as int, i as int);
                assert(line@ == strip_cr(full)) by {
                    if i > start && v@[i - 1] == '\r' {
                        assert(full.drop_last() =~= v@.subrange(start as int, end as int));
                    }
                }
            }
            let ghost before = out@;
            out.push(line);
            proof {
                assert(vecs_view(out@) =~= vecs_view(before).push(line@));
                assert(lines(v@) =~= vecs_view(out@) + lines(v@.skip(i + 1)));
            }
            start = i + 1;
        }
        i = i + 1;
    }
    if start < n {
        let ghost rest = v@.skip(start as int);
        proof {
            lemma_first_newline(rest, rest.len() as int);
        }
        let line = slice_chars(v, start, n);
        let ghost before = out@;
        out.push(line);
        proof {
            assert(line@ =~= rest);
            assert(vecs_view(out@) =~= vecs_view(before).push(line@));
            assert(lines(v@) =~= vecs_view(out@));
        }
    } else {
        assert(v@.skip(start as int) =~= Seq::<char>::empty());
        assert(lines(v@) =~= vecs_view(out@));
    }
    out
}

} // verus!

verus! {

/// A position found by [`find_from`] lies in range and starts an occurrence.
pub proof fn lemma_find_in_range(s: Seq<char>, p: Seq<char>, i: int)
    ensures
        find_from(s, p, i) matches Some(k) ==> i <= k && k + p.len() <= s.len() && has_prefix(s.skip(k), p),
    decreases s.len() + 1 - i,
{
    if !(i < 0 || i + p.len() > s.len()) && !has_prefix(s.skip(i), p) {
        lemma_find_in_range(s, p, i + 1);
    }
}

} // verus!

verus! {

/// Whether two strings hold the same characters.
pub fn str_eq(a: &str, b: &str) -> (r: bool)
    ensures
        r == (a@ == b@),
{
    chars_eq(&chars_of(a), &chars_of(b))
}

} // verus!

verus! {

/// Number of bytes in the UTF-8 encoding of one character.
pub open spec fn char_utf8_width(c: char) -> nat {
    vstd::utf8::encode_scalar(c as u32).len()
}

/// Number of bytes in the UTF-8 encoding of `c`.
pub fn char_width(c: char) -> (w: usize)
    ensures
        w as nat == char_utf8_width(c),
        1 <= w <= 4,
{
    let v = c as u32;
    if v <= 0x7F {
        1
    } else if v <= 0x7FF {
        2
    } else if v <= 0xFFFF {
        3
    } else {
        4
    }
}

/// Encoding one more character adds its width to the UTF-8 length.
pub proof fn lemma_utf8_len_push(s: Seq<char>, c: char)
    ensures
        utf8_len(s.push(c)) == utf8_len(s) + char_utf8_width(c),
    decreases s.len(),
{
    if s.len() == 0 {
        assert(s.push(c).drop_first() =~= Seq::<char>::empty());
        reveal_with_fuel(vstd::utf8::encode_utf8, 2);
    } else {
        lemma_utf8_len_push(s.drop_first(), c);
        assert(s.push(c).drop_first() =~= s.drop_first().push(c));
        assert(s.push(c)[0] == s[0]);
    }
}

/// `b` falls between two characters of `s` (or at either end).
pub open spec fn is_char_boundary(s: Seq<char>, b: nat) -> bool {
    exists|j: int| 0 <= j <= s.len() && #[trigger] utf8_len(s.take(j)) == b
}

/// The UTF-8 length of a prefix grows with the prefix.
pub proof fn lemma_utf8_prefix_monotone(s: Seq<char>, i: int, j: int)
    requires
        0 <= i < j <= s.len(),
    ensures
        utf8_len(s.take(i)) < utf8_len(s.take(j)),
    decreases j - i,
{
    assert(s.take(j) =~= s.take(j - 1).push(s[j - 1]));
    lemma_utf8_len_push(s.take(j - 1), s[j - 1]);
    if i < j - 1 {
        lemma_utf8_prefix_monotone(s, i, j - 1);
    }
}

} // verus!

verus! {

/// `s` without leading or trailing white space, as `str::trim` gives it.
pub fn trim_str(s: &str) -> (r: String)
    ensures
        r@ == trim_class(s@, CharClass::Space),
{
    let v = chars_of(s);
    let t = trim_vec(&v, CharClass::Space);
    string_from_chars(&t)
}

/// Appends the decimal form of a signed number, with a leading `-` when it
/// is negative.
pub fn append_signed(out: &mut String, n: i64)
    ensures
        final(out)@ == old(out)@ + signed_decimal(n as int),
{
    if n < 0 {
        out.append("-");
        let m: u64 = if n == i64::MIN { 9_223_372_036_854_775_808 } else { (-n) as u64 };
        append_decimal(out, m);
        proof {
            reveal_strlit("-");
        }
    } else {
        append_decimal(out, n as u64);
    }
}

/// Decimal form of a signed number.
pub open spec fn signed_decimal(n: int) -> Seq<char> {
    if n < 0 {
        "-"@ + decimal((-n) as nat)
    } else {
        decimal(n as nat)
    }
}

} // verus!
