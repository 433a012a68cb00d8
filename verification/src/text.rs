//! Character-level helpers shared by the other modules: whitespace, splitting
//! into words and fields, trimming, and path-segment sanitising.

use vstd::prelude::*;

verus! {

/// `String::push`: appends one character.
#[verifier::external_body]
pub(crate) fn push_char(s: &mut String, c: char)
    ensures
        final(s)@ == old(s)@.push(c),
{
    s.push(c);
}

/// The views of a sequence of strings.
pub open spec fn views(v: Seq<String>) -> Seq<Seq<char>> {
    v.map_values(|s: String| s@)
}

/// The characters of `s`, in order.
pub fn chars_of(s: &str) -> (v: Vec<char>)
    ensures
        v@ == s@,
{
    let mut v: Vec<char> = Vec::new();
    for c in it: s.chars()
        invariant
            v@ == s@.take(it.index() as int),
            it.seq() == s@,
    {
        v.push(c);
    }
    v
}

/// The string made of the characters `v[from..to]`.
pub(crate) fn string_of(v: &Vec<char>, from: usize, to: usize) -> (s: String)
    requires
        from <= to <= v.len(),
    ensures
        s@ == v@.subrange(from as int, to as int),
{
    let mut s = String::new();
    let mut i: usize = from;
    while i < to
        invariant
            from <= i <= to <= v.len(),
            s@ == v@.subrange(from as int, i as int),
        decreases to - i,
    {
        push_char(&mut s, v[i]);
        i += 1;
    }
    s
}

/// Whether `a` and `b` hold the same characters.
pub fn str_eq(a: &str, b: &str) -> (same: bool)
    ensures
        same == (a@ == b@),
{
    let x = chars_of(a);
    let y = chars_of(b);
    if x.len() != y.len() {
        return false;
    }
    let mut i: usize = 0;
    while i < x.len()
        invariant
            i <= x.len(),
            x.len() == y.len(),
            x@ == a@,
            y@ == b@,
            forall|k: int| 0 <= k < i ==> x@[k] == y@[k],
        decreases x.len() - i,
    {
        if x[i] != y[i] {
            return false;
        }
        i += 1;
    }
    assert(x@ =~= y@);
    true
}

/// White space: the characters with the Unicode property `White_Space`.
pub open spec fn is_space(c: char) -> bool {
    let u = c as u32;
    (0x09 <= u <= 0x0D) || u == 0x20 || u == 0x85 || u == 0xA0 || u == 0x1680 || (0x2000 <= u
        <= 0x200A) || u == 0x2028 || u == 0x2029 || u == 0x202F || u == 0x205F || u == 0x3000
}

/// Decides `is_space`.
pub fn char_is_space(c: char) -> (b: bool)
    ensures
        b == is_space(c),
{
    let u: u32 = c as u32;
    (0x09 <= u && u <= 0x0D) || u == 0x20 || u == 0x85 || u == 0xA0 || u == 0x1680 || (0x2000 <= u
        && u <= 0x200A) || u == 0x2028 || u == 0x2029 || u == 0x202F || u == 0x205F || u == 0x3000
}

/// The length of the longest prefix of `s` that holds no white space.
pub open spec fn word_len(s: Seq<char>) -> nat
    decreases s.len(),
{
    if s.len() == 0 || is_space(s[0]) {
        0
    } else {
        1 + word_len(s.skip(1))
    }
}

/// The words of `s`: its maximal runs of characters that are not white space,
/// from left to right.
pub open spec fn words(s: Seq<char>) -> Seq<Seq<char>>
    decreases s.len(),
{
    if s.len() == 0 {
        Seq::empty()
    } else if is_space(s[0]) {
        words(s.skip(1))
    } else {
        proof {
            lemma_word_len_bounds(s);
        }
        seq![s.take(word_len(s) as int)] + words(s.skip(word_len(s) as int))
    }
}

/// A word: a non-empty run of characters, none of them white space.
pub open spec fn is_word(w: Seq<char>) -> bool {
    w.len() > 0 && forall|j: int| 0 <= j < w.len() ==> !is_space(#[trigger] w[j])
}

/// A run of `k` characters without white space that ends at the end of `s`
/// or at a white-space character is the first word of `s`.
pub proof fn lemma_word_len(s: Seq<char>, k: int)
    requires
        0 <= k <= s.len(),
        forall|j: int| 0 <= j < k ==> !is_space(s[j]),
        k == s.len() || is_space(s[k]),
    ensures
        word_len(s) == k,
    decreases k,
{
    if k > 0 {
        lemma_word_len(s.skip(1), k - 1);
    }
}

/// Every element of `words(s)` is a word.
pub proof fn lemma_words_are_words(s: Seq<char>)
    ensures
        forall|i: int| 0 <= i < words(s).len() ==> is_word(#[trigger] words(s)[i]),
    decreases s.len(),
{
    if s.len() > 0 {
        if is_space(s[0]) {
            lemma_words_are_words(s.skip(1));
            assert(words(s) == words(s.skip(1)));
        } else {
            let n = word_len(s) as int;
            let rest = words(s.skip(n));
            lemma_word_len_bounds(s);
            lemma_words_are_words(s.skip(n));
            assert(words(s) == seq![s.take(n)] + rest);
            assert forall|i: int| 0 <= i < words(s).len() implies is_word(
                #[trigger] words(s)[i],
            ) by {
                if i > 0 {
                    assert(words(s)[i] == rest[i - 1]);
                }
            }
        }
    }
}

/// The first word lies within `s`, holds no white space, and is followed by
/// white space or the end of `s`.
pub proof fn lemma_word_len_bounds(s: Seq<char>)
    ensures
        word_len(s) <= s.len(),
        forall|j: int| 0 <= j < word_len(s) ==> !is_space(s[j]),
        word_len(s) == s.len() || is_space(s[word_len(s) as int]),
        s.len() > 0 && !is_space(s[0]) ==> word_len(s) > 0,
    decreases s.len(),
{
    if s.len() > 0 && !is_space(s[0]) {
        let t = s.skip(1);
        lemma_word_len_bounds(t);
        assert forall|j: int| 0 <= j < word_len(s) implies !is_space(s[j]) by {
            if j > 0 {
                assert(s[j] == t[j - 1]);
            }
        }
    }
}

/// Splits `s` at white space into its words.
pub fn split_words(s: &str) -> (out: Vec<String>)
    ensures
        views(out@) == words(s@),
{
    let cs = chars_of(s);
    let n = cs.len();
    let mut out: Vec<String> = Vec::new();
    let mut i: usize = 0;
    assert(cs@.skip(0) == cs@);
    while i < n
        invariant
            n == cs.len(),
            i <= n,
            words(cs@) == views(out@) + words(cs@.skip(i as int)),
        decreases n - i,
    {
        let ghost rest = cs@.skip(i as int);
        if char_is_space(cs[i]) {
            assert(rest.skip(1) == cs@.skip(i + 1));
            i += 1;
        } else {
            let start = i;
            while i < n && !char_is_space(cs[i])
                invariant
                    n == cs.len(),
                    start <= i <= n,
                    forall|k: int| start <= k < i ==> !is_space(cs@[k]),
                decreases n - i,
            {
                i += 1;
            }
            let word = string_of(&cs, start, i);
            proof {
                let k = i - start;
                lemma_word_len(rest, k);
                assert(rest.take(k) == cs@.subrange(start as int, i as int));
                assert(rest.skip(k) == cs@.skip(i as int));
            }
            out.push(word);
        }
    }
    out
}

/// The number of characters of `s` before the first `sep`, or the length of
/// `s` if it holds none.
pub open spec fn field_len(s: Seq<char>, sep: char) -> nat
    decreases s.len(),
{
    if s.len() == 0 || s[0] == sep {
        0
    } else {
        1 + field_len(s.skip(1), sep)
    }
}

/// The pieces of `s` between occurrences of `sep`, from left to right. There
/// is always at least one piece, and pieces may be empty.
pub open spec fn fields(s: Seq<char>, sep: char) -> Seq<Seq<char>>
    decreases s.len(),
{
    let n = field_len(s, sep) as int;
    if n >= s.len() {
        seq![s]
    } else {
        seq![s.take(n)] + fields(s.skip(n + 1), sep)
    }
}

/// `s` without its leading white space.
pub open spec fn trim_start(s: Seq<char>) -> Seq<char>
    decreases s.len(),
{
    if s.len() > 0 && is_space(s[0]) {
        trim_start(s.skip(1))
    } else {
        s
    }
}

/// `s` without its trailing white space.
pub open spec fn trim_end(s: Seq<char>) -> Seq<char>
    decreases s.len(),
{
    if s.len() > 0 && is_space(s.last()) {
        trim_end(s.drop_last())
    } else {
        s
    }
}

/// `s` without leading and trailing white space.
pub open spec fn trim(s: Seq<char>) -> Seq<char> {
    trim_end(trim_start(s))
}

/// The fields of `s` between commas, each trimmed.
pub open spec fn trimmed_fields(s: Seq<char>) -> Seq<Seq<char>> {
    fields(s, ',').map_values(|f: Seq<char>| trim(f))
}

/// A run of `k` characters other than `sep` that ends at the end of `s` or
/// at a `sep` is the first field of `s`.
pub proof fn lemma_field_len(s: Seq<char>, sep: char, k: int)
    requires
        0 <= k <= s.len(),
        forall|j: int| 0 <= j < k ==> s[j] != sep,
        k == s.len() || s[k] == sep,
    ensures
        field_len(s, sep) == k,
    decreases k,
{
    if k > 0 {
        lemma_field_len(s.skip(1), sep, k - 1);
    }
}

/// Trimming at the start removes exactly a leading run of white space that
/// is followed by another character or by the end.
pub proof fn lemma_trim_start(s: Seq<char>, a: int)
    requires
        0 <= a <= s.len(),
        forall|j: int| 0 <= j < a ==> is_space(s[j]),
        a == s.len() || !is_space(s[a]),
    ensures
        trim_start(s) == s.skip(a),
    decreases a,
{
    if a > 0 {
        lemma_trim_start(s.skip(1), a - 1);
    }
}

/// Trimming at the end removes exactly a trailing run of white space that
/// is preceded by another character or by the start.
pub proof fn lemma_trim_end(s: Seq<char>, b: int)
    requires
        0 <= b <= s.len(),
        forall|j: int| b <= j < s.len() ==> is_space(s[j]),
        b == 0 || !is_space(s[b - 1]),
    ensures
        trim_end(s) == s.take(b),
    decreases s.len() - b,
{
    if b < s.len() {
        lemma_trim_end(s.drop_last(), b);
    }
}

/// Splits `s` at commas and trims each piece.
pub fn split_trimmed(s: &str) -> (out: Vec<String>)
    ensures
        views(out@) == trimmed_fields(s@),
{
    let cs = chars_of(s);
    let n = cs.len();
    let mut out: Vec<String> = Vec::new();
    let mut start: usize = 0;
    assert(cs@.skip(0) == cs@);
    loop
        invariant_except_break
            n == cs.len(),
            start <= n,
            trimmed_fields(cs@) == views(out@) + trimmed_fields(cs@.skip(start as int)),
        ensures
            views(out@) == trimmed_fields(cs@),
        decreases n - start,
    {
        let ghost rest = cs@.skip(start as int);
        let mut end = start;
        while end < n && cs[end] != ','
            invariant
                n == cs.len(),
                start <= end <= n,
                forall|k: int| start <= k < end ==> cs@[k] != ',',
            decreases n - end,
        {
            end += 1;
        }
        let mut a = start;
        while a < end && char_is_space(cs[a])
            invariant
                n == cs.len(),
                start <= a <= end <= n,
                forall|k: int| start <= k < a ==> is_space(cs@[k]),
            decreases end - a,
        {
            a += 1;
        }
        let mut b = end;
        while b > a && char_is_space(cs[b - 1])
            invariant
                n == cs.len(),
                a <= b <= end <= n,
                forall|k: int| b <= k < end ==> is_space(cs@[k]),
            decreases b - a,
        {
            b -= 1;
        }
        let piece = string_of(&cs, a, b);
        proof {
            let k = end - start;
            let field = rest.take(k);
            lemma_field_len(rest, ',', k);
            lemma_trim_start(field, a - start);
            let tail = field.skip(a - start);
            lemma_trim_end(tail, b - a);
            assert(tail.take(b - a) == cs@.subrange(a as int, b as int));
            if end < n {
                assert(rest.skip(k + 1) == cs@.skip(end + 1));
                assert(trimmed_fields(rest) == seq![trim(field)] + trimmed_fields(
                    cs@.skip(end + 1),
                ));
            } else {
                assert(field == rest);
            }
        }
        out.push(piece);
        if end >= n {
            break;
        }
        start = end + 1;
    }
    out
}

/// Whether `c` may not stand in a path segment: white space and the path
/// separators `/` and `\`.
pub open spec fn is_unsafe_in_segment(c: char) -> bool {
    is_space(c) || c == '/' || c == '\\'
}

/// `name` with every character that may not stand in a path segment replaced
/// by an underscore.
pub open spec fn sanitized(name: Seq<char>) -> Seq<char> {
    name.map_values(|c: char| if is_unsafe_in_segment(c) { '_' } else { c })
}

/// A sanitised name is as long as the name, holds no character that may
/// not stand in a path segment, and is left as it is by sanitising again.
pub proof fn lemma_sanitized_is_safe(name: Seq<char>)
    ensures
        sanitized(name).len() == name.len(),
        forall|i: int| 0 <= i < name.len() ==> !is_unsafe_in_segment(#[trigger] sanitized(name)[i]),
        sanitized(sanitized(name)) == sanitized(name),
{
}

/// Makes a name usable as one path segment.
pub fn sanitize(name: &str) -> (out: String)
    ensures
        out@ == sanitized(name@),
{
    let cs = chars_of(name);
    let mut out = String::new();
    let mut i: usize = 0;
    while i < cs.len()
        invariant
            i <= cs.len(),
            cs@ == name@,
            out@ == sanitized(name@.take(i as int)),
        decreases cs.len() - i,
    {
        let c = cs[i];
        assert(sanitized(name@.take(i + 1)) == sanitized(name@.take(i as int)).push(
            if is_unsafe_in_segment(c) { '_' } else { c },
        ));
        if char_is_space(c) || c == '/' || c == '\\' {
            push_char(&mut out, '_');
        } else {
            push_char(&mut out, c);
        }
        i += 1;
    }
    out
}

/// The character of the decimal digit `d`.
pub open spec fn digit(d: int) -> char {
    (('0' as u8) + d) as u8 as char
}

/// The decimal numeral of `n`, without leading zeros.
pub open spec fn decimal(n: nat) -> Seq<char>
    decreases n,
{
    if n < 10 {
        seq![digit(n as int)]
    } else {
        decimal(n / 10).push(digit((n % 10) as int))
    }
}

/// The character of one decimal digit.
pub(crate) fn digit_char(d: u8) -> (c: char)
    requires
        d < 10,
    ensures
        c == digit(d as int),
{
    (48u8 + d) as char
}

/// Appends the decimal numeral of `n` to `out`.
pub fn push_decimal(out: &mut String, n: u64)
    ensures
        final(out)@ == old(out)@ + decimal(n as nat),
    decreases n,
{
    if n >= 10 {
        push_decimal(out, n / 10);
    }
    push_char(out, digit_char((n % 10) as u8));
}

} // verus!
