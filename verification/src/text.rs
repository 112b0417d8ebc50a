//! Character-level utilities shared across the crate: ASCII case folding,
//! HTML escaping, decimal formatting and conversions between `String`,
//! `&str` and `Vec<char>`.
use vstd::prelude::*;
use vstd::string::StringExecFns;

verus! {

/// True for the ASCII letters and digits; every other character is treated
/// as a separator by the slug generator.
pub open spec fn is_ascii_alnum(c: char) -> bool {
    ('a' <= c && c <= 'z') || ('A' <= c && c <= 'Z') || ('0' <= c && c <= '9')
}

/// ASCII-only case folding: 'A'..'Z' map to 'a'..'z', every other
/// character — non-ASCII letters included — is kept as it is.
pub open spec fn lower_char(c: char) -> char {
    if 'A' <= c && c <= 'Z' {
        (((c as u8) + 32) as char)
    } else {
        c
    }
}

/// The Unicode-lowercased form of a text, as `str::to_lowercase` computes
/// it: a function of the characters alone.
pub uninterp spec fn lower_of(s: Seq<char>) -> Seq<char>;

pub fn exec_lower_char(c: char) -> (r: char)
    ensures
        r == lower_char(c),
{
    if 'A' <= c && c <= 'Z' {
        ((c as u8) + 32) as char
    } else {
        c
    }
}

pub fn exec_is_ascii_alnum(c: char) -> (r: bool)
    ensures
        r == is_ascii_alnum(c),
{
    ('a' <= c && c <= 'z') || ('A' <= c && c <= 'Z') || ('0' <= c && c <= '9')
}

/// The characters of a string slice, in order.
pub fn str_chars(s: &str) -> (v: Vec<char>)
    ensures
        v@ == s@,
{
    let n = s.unicode_len();
    let mut v: Vec<char> = Vec::new();
    let mut i: usize = 0;
    while i < n
        invariant
            i <= n,
            n == s@.len(),
            v@ == s@.take(i as int),
        decreases n - i,
    {
        let c = s.get_char(i);
        v.push(c);
        i = i + 1;
        proof {
            assert(v@ =~= s@.take(i as int));
        }
    }
    proof {
        assert(s@.take(n as int) =~= s@);
    }
    v
}

/// Relies on `String`'s `FromIterator<char>` implementation (`collect`):
/// the resulting string holds exactly the characters of `v`, in order.
#[verifier::external_body]
pub fn chars_to_string(v: &Vec<char>) -> (s: String)
    ensures
        s@ == v@,
{
    v.iter().collect()
}

/// Character-wise equality of two string slices.
pub fn str_eq(a: &str, b: &str) -> (r: bool)
    ensures
        r == (a@ == b@),
{
    let na = a.unicode_len();
    let nb = b.unicode_len();
    if na != nb {
        proof {
            assert(a@ != b@);
        }
        return false;
    }
    let mut i: usize = 0;
    while i < na
        invariant
            i <= na,
            na == a@.len(),
            na == b@.len(),
            forall|j: int| 0 <= j < i ==> a@[j] == b@[j],
        decreases na - i,
    {
        if a.get_char(i) != b.get_char(i) {
            proof {
                assert(a@ != b@);
            }
            return false;
        }
        i = i + 1;
    }
    proof {
        assert(a@ =~= b@);
    }
    true
}

/// How one character of free text is escaped for an HTML text position:
/// `&`, `<` and `>` become entities, everything else is kept.
pub open spec fn escape_text_char(c: char) -> Seq<char> {
    if c == '&' {
        seq!['&', 'a', 'm', 'p', ';']
    } else if c == '<' {
        seq!['&', 'l', 't', ';']
    } else if c == '>' {
        seq!['&', 'g', 't', ';']
    } else {
        seq![c]
    }
}

/// HTML escaping for text positions, applied character by character.
pub open spec fn escape_text(s: Seq<char>) -> Seq<char>
    decreases s.len(),
{
    if s.len() == 0 {
        Seq::empty()
    } else {
        escape_text_char(s[0]) + escape_text(s.drop_first())
    }
}

/// How one character is escaped inside a double-quoted HTML attribute:
/// as for text positions, plus `"` becoming an entity.
pub open spec fn escape_attr_char(c: char) -> Seq<char> {
    if c == '"' {
        seq!['&', 'q', 'u', 'o', 't', ';']
    } else {
        escape_text_char(c)
    }
}

/// HTML escaping for double-quoted attribute values.
pub open spec fn escape_attr(s: Seq<char>) -> Seq<char>
    decreases s.len(),
{
    if s.len() == 0 {
        Seq::empty()
    } else {
        escape_attr_char(s[0]) + escape_attr(s.drop_first())
    }
}

proof fn lemma_escape_text_snoc(s: Seq<char>, c: char)
    ensures
        escape_text(s.push(c)) == escape_text(s) + escape_text_char(c),
    decreases s.len(),
{
    if s.len() == 0 {
        assert(s.push(c).drop_first() =~= Seq::<char>::empty());
        assert(escape_text(s.push(c).drop_first()) == Seq::<char>::empty());
        assert(escape_text(s.push(c)) =~= escape_text(s) + escape_text_char(c));
    } else {
        assert(s.push(c).drop_first() =~= s.drop_first().push(c));
        lemma_escape_text_snoc(s.drop_first(), c);
        assert(escape_text(s.push(c)) =~= escape_text(s) + escape_text_char(c));
    }
}

proof fn lemma_escape_attr_snoc(s: Seq<char>, c: char)
    ensures
        escape_attr(s.push(c)) == escape_attr(s) + escape_attr_char(c),
    decreases s.len(),
{
    if s.len() == 0 {
        assert(s.push(c).drop_first() =~= Seq::<char>::empty());
        assert(escape_attr(s.push(c).drop_first()) == Seq::<char>::empty());
        assert(escape_attr(s.push(c)) =~= escape_attr(s) + escape_attr_char(c));
    } else {
        assert(s.push(c).drop_first() =~= s.drop_first().push(c));
        lemma_escape_attr_snoc(s.drop_first(), c);
        assert(escape_attr(s.push(c)) =~= escape_attr(s) + escape_attr_char(c));
    }
}

fn push_escaped_text_char(out: &mut Vec<char>, c: char)
    ensures
        final(out)@ == old(out)@ + escape_text_char(c),
{
    if c == '&' {
        out.push('&');
        out.push('a');
        out.push('m');
        out.push('p');
        out.push(';');
    } else if c == '<' {
        out.push('&');
        out.push('l');
        out.push('t');
        out.push(';');
    } else if c == '>' {
        out.push('&');
        out.push('g');
        out.push('t');
        out.push(';');
    } else {
        out.push(c);
    }
    proof {
        assert(out@ =~= old(out)@ + escape_text_char(c));
    }
}

fn push_escaped_attr_char(out: &mut Vec<char>, c: char)
    ensures
        final(out)@ == old(out)@ + escape_attr_char(c),
{
    if c == '"' {
        out.push('&');
        out.push('q');
        out.push('u');
        out.push('o');
        out.push('t');
        out.push(';');
    } else {
        push_escaped_text_char(out, c);
    }
    proof {
        assert(out@ =~= old(out)@ + escape_attr_char(c));
    }
}

/// Escapes `s` for an HTML text position.
pub fn exec_escape_text(s: &str) -> (r: String)
    ensures
        r@ == escape_text(s@),
{
    let cs = str_chars(s);
    let mut out: Vec<char> = Vec::new();
    let mut i: usize = 0;
    while i < cs.len()
        invariant
            i <= cs@.len(),
            cs@ == s@,
            out@ == escape_text(s@.take(i as int)),
        decreases cs@.len() - i,
    {
        proof {
            assert(s@.take(i + 1 as int) =~= s@.take(i as int).push(s@[i as int]));
            lemma_escape_text_snoc(s@.take(i as int), s@[i as int]);
        }
        push_escaped_text_char(&mut out, cs[i]);
        i = i + 1;
    }
    proof {
        assert(s@.take(s@.len() as int) =~= s@);
    }
    chars_to_string(&out)
}

/// Escapes `s` for a double-quoted HTML attribute value.
pub fn exec_escape_attr(s: &str) -> (r: String)
    ensures
        r@ == escape_attr(s@),
{
    let cs = str_chars(s);
    let mut out: Vec<char> = Vec::new();
    let mut i: usize = 0;
    while i < cs.len()
        invariant
            i <= cs@.len(),
            cs@ == s@,
            out@ == escape_attr(s@.take(i as int)),
        decreases cs@.len() - i,
    {
        proof {
            assert(s@.take(i + 1 as int) =~= s@.take(i as int).push(s@[i as int]));
            lemma_escape_attr_snoc(s@.take(i as int), s@[i as int]);
        }
        push_escaped_attr_char(&mut out, cs[i]);
        i = i + 1;
    }
    proof {
        assert(s@.take(s@.len() as int) =~= s@);
    }
    chars_to_string(&out)
}

/// The character for a single decimal digit.
pub open spec fn digit_char(d: int) -> char {
    ((d + 48) as u8) as char
}

/// The decimal representation of a natural number, most significant digit
/// first, with no leading zeros (a single '0' for zero).
pub open spec fn dec_chars(n: nat) -> Seq<char>
    decreases n,
{
    if n < 10 {
        seq![digit_char(n as int)]
    } else {
        dec_chars(n / 10) + seq![digit_char((n % 10) as int)]
    }
}

/// Decimal rendering of a machine integer, as characters.
pub fn exec_dec_chars_u64(n: u64) -> (v: Vec<char>)
    ensures
        v@ == dec_chars(n as nat),
    decreases n,
{
    if n < 10 {
        let d: u8 = (n as u8) + 48;
        let mut v: Vec<char> = Vec::new();
        v.push(d as char);
        proof {
            assert(v@ =~= dec_chars(n as nat));
        }
        v
    } else {
        let mut v = exec_dec_chars_u64(n / 10);
        let d: u8 = ((n % 10) as u8) + 48;
        v.push(d as char);
        proof {
            assert(v@ =~= dec_chars(n as nat));
        }
        v
    }
}

/// Decimal rendering of a machine integer, as a string.
pub fn exec_dec_string_u64(n: u64) -> (s: String)
    ensures
        s@ == dec_chars(n as nat),
{
    let v = exec_dec_chars_u64(n);
    chars_to_string(&v)
}

/// Appends the characters of `v` to `out`.
pub fn append_chars(out: &mut String, v: &Vec<char>)
    ensures
        final(out)@ == old(out)@ + v@,
{
    let s = chars_to_string(v);
    out.append(s.as_str());
}

/// Relies on `str::to_lowercase`: the Unicode-lowercased text, which
/// depends on the characters alone; `lower_of` names the result.
#[verifier::external_body]
pub fn lowercase(s: &str) -> (r: String)
    ensures
        r@ == lower_of(s@),
        s@.len() == 0 ==> r@.len() == 0,
{
    s.to_lowercase()
}

/// What follows the last occurrence of `sep` in `s`: the whole of `s` when
/// `sep` does not occur, the empty sequence when `s` ends with it.
pub open spec fn tail_after_last(s: Seq<char>, sep: char) -> Seq<char>
    decreases s.len(),
{
    if s.len() == 0 {
        Seq::empty()
    } else if s.last() == sep {
        Seq::empty()
    } else {
        tail_after_last(s.drop_last(), sep).push(s.last())
    }
}

/// What follows the last separator is never longer than the whole.
pub proof fn lemma_tail_after_last_len(s: Seq<char>, sep: char)
    ensures
        tail_after_last(s, sep).len() <= s.len(),
    decreases s.len(),
{
    if s.len() > 0 && s.last() != sep {
        lemma_tail_after_last_len(s.drop_last(), sep);
    }
}

/// The characters of `s` after the last occurrence of `sep`.
pub fn exec_tail_after_last(s: &str, sep: char) -> (v: Vec<char>)
    ensures
        v@ == tail_after_last(s@, sep),
{
    let cs = str_chars(s);
    let n = cs.len();
    let mut j: usize = n;
    let mut stopped_at_sep: bool = false;
    proof {
        assert(s@.take(n as int) =~= s@);
    }
    while j > 0 && !stopped_at_sep
        invariant
            j <= n,
            n == s@.len(),
            cs@ == s@,
            !stopped_at_sep ==> tail_after_last(s@, sep) == tail_after_last(s@.take(j as int), sep)
                + s@.skip(j as int),
            stopped_at_sep ==> j > 0 && s@[j - 1] == sep && tail_after_last(s@, sep) == s@.skip(
                j as int,
            ),
        decreases j + (if stopped_at_sep { 0int } else { 1int }),
    {
        if cs[j - 1] == sep {
            proof {
                assert(s@.take(j as int).last() == s@[j - 1]);
                assert(tail_after_last(s@.take(j as int), sep) == Seq::<char>::empty());
                assert(tail_after_last(s@, sep) =~= s@.skip(j as int));
            }
            stopped_at_sep = true;
        } else {
            proof {
                assert(s@.take(j as int).last() == s@[j - 1]);
                assert(s@.take(j as int).drop_last() =~= s@.take(j - 1 as int));
                assert(tail_after_last(s@.take(j as int), sep) == tail_after_last(
                    s@.take(j - 1 as int),
                    sep,
                ).push(s@[j - 1]));
                assert(tail_after_last(s@.take(j - 1 as int), sep).push(s@[j - 1]) + s@.skip(
                    j as int,
                ) =~= tail_after_last(s@.take(j - 1 as int), sep) + s@.skip(j - 1 as int));
            }
            j = j - 1;
        }
    }
    proof {
        if !stopped_at_sep {
            assert(j == 0);
            assert(tail_after_last(s@.take(0), sep) == Seq::<char>::empty());
            assert(tail_after_last(s@, sep) =~= s@.skip(0));
        }
    }
    let mut v: Vec<char> = Vec::new();
    let mut k: usize = j;
    while k < n
        invariant
            j <= k <= n,
            n == s@.len(),
            cs@ == s@,
            v@ == s@.subrange(j as int, k as int),
        decreases n - k,
    {
        v.push(cs[k]);
        k = k + 1;
        proof {
            assert(v@ =~= s@.subrange(j as int, k as int));
        }
    }
    proof {
        assert(s@.subrange(j as int, n as int) =~= s@.skip(j as int));
    }
    v
}

/// Whether `needle` occurs in `hay` starting at position `i`.
pub open spec fn match_at(hay: Seq<char>, needle: Seq<char>, i: int) -> bool {
    0 <= i && i + needle.len() <= hay.len() && hay.subrange(i, i + needle.len()) == needle
}

/// The last position at or below `i` where `needle` occurs in `hay`.
pub open spec fn find_last_from(hay: Seq<char>, needle: Seq<char>, i: int) -> Option<int>
    decreases i + 1,
{
    if i < 0 {
        None
    } else if match_at(hay, needle, i) {
        Some(i)
    } else {
        find_last_from(hay, needle, i - 1)
    }
}

/// The last position where `needle` occurs in `hay`, if any.
pub open spec fn find_last(hay: Seq<char>, needle: Seq<char>) -> Option<int> {
    find_last_from(hay, needle, hay.len() - needle.len())
}

fn match_at_exec(hay: &Vec<char>, needle: &Vec<char>, i: usize) -> (r: bool)
    requires
        i + needle@.len() <= hay@.len(),
    ensures
        r == match_at(hay@, needle@, i as int),
{
    let n = hay.len();
    let mut k: usize = 0;
    while k < needle.len()
        invariant
            k <= needle@.len(),
            i + needle@.len() <= hay@.len(),
            n == hay@.len(),
            forall|m: int| 0 <= m < k ==> hay@[i + m] == needle@[m],
        decreases needle@.len() - k,
    {
        if hay[i + k] != needle[k] {
            proof {
                assert(hay@.subrange(i as int, i + needle@.len()) != needle@) by {
                    assert(hay@.subrange(i as int, i + needle@.len())[k as int] == hay@[i + k]);
                }
            }
            return false;
        }
        k = k + 1;
    }
    proof {
        assert(hay@.subrange(i as int, i + needle@.len()) =~= needle@);
    }
    true
}

/// The last position where `needle` occurs in `hay`, if any.
pub fn exec_find_last(hay: &Vec<char>, needle: &Vec<char>) -> (r: Option<usize>)
    ensures
        (match r {
            Some(i) => find_last(hay@, needle@) == Some(i as int),
            None => find_last(hay@, needle@) is None,
        }),
{
    if needle.len() > hay.len() {
        proof {
            assert(hay@.len() - needle@.len() < 0);
        }
        return None;
    }
    let mut i: usize = hay.len() - needle.len();
    loop
        invariant
            i + needle@.len() <= hay@.len(),
            find_last(hay@, needle@) == find_last_from(hay@, needle@, i as int),
        decreases i,
    {
        if match_at_exec(hay, needle, i) {
            return Some(i);
        }
        if i == 0 {
            proof {
                assert(find_last_from(hay@, needle@, -1) is None);
            }
            return None;
        }
        i = i - 1;
    }
}

/// A path made relative to a prefix of the given length: the prefix is
/// dropped, and one path separator immediately after it with it.
pub open spec fn rel_path_of(path: Seq<char>, prefix_len: int) -> Seq<char> {
    let t = path.skip(prefix_len);
    if t.len() > 0 && t[0] == '/' {
        t.drop_first()
    } else {
        t
    }
}

/// ASCII-only upper-casing of one character.
pub open spec fn upper_char(c: char) -> char {
    if 'a' <= c && c <= 'z' {
        (((c as u8) - 32) as char)
    } else {
        c
    }
}

/// Whether a character separates words, for title casing.
pub open spec fn is_ascii_space(c: char) -> bool {
    c == ' ' || c == '\t' || c == '\n' || c == '\r'
}

/// One left-to-right pass of the title caser starting at index `i`:
/// `in_word` says whether the previous character belonged to a word. Words
/// are joined by single spaces; the first character of each word is
/// upper-cased, the rest lower-cased, ASCII-only.
pub open spec fn title_rec(s: Seq<char>, i: int, in_word: bool, out: Seq<char>) -> Seq<char>
    decreases s.len() - i,
{
    if i < 0 || i >= s.len() {
        out
    } else {
        let c = s[i];
        if is_ascii_space(c) {
            title_rec(s, i + 1, false, out)
        } else {
            let c2 = if in_word {
                lower_char(c)
            } else {
                upper_char(c)
            };
            let out2 = if !in_word && out.len() > 0 {
                out + seq![' ', c2]
            } else {
                out + seq![c2]
            };
            title_rec(s, i + 1, true, out2)
        }
    }
}

/// Title casing: each whitespace-separated word starts with an upper-case
/// letter and continues in lower case, words joined by single spaces.
/// Case mapping is ASCII-only; non-ASCII letters pass through unchanged.
pub open spec fn title_case_of(s: Seq<char>) -> Seq<char> {
    title_rec(s, 0, false, Seq::empty())
}

/// Title-cases a string, word by word.
pub fn title_case(s: &str) -> (r: String)
    ensures
        r@ == title_case_of(s@),
{
    let cs = str_chars(s);
    let mut out: Vec<char> = Vec::new();
    let mut in_word: bool = false;
    let mut i: usize = 0;
    while i < cs.len()
        invariant
            i <= cs@.len(),
            cs@ == s@,
            title_rec(s@, i as int, in_word, out@) == title_case_of(s@),
        decreases cs@.len() - i,
    {
        let c = cs[i];
        let ghost out0 = out@;
        let ghost in0 = in_word;
        let ghost i0 = i as int;
        if c == ' ' || c == '\t' || c == '\n' || c == '\r' {
            in_word = false;
        } else {
            let c2 = if in_word {
                exec_lower_char(c)
            } else {
                if 'a' <= c && c <= 'z' {
                    ((c as u8) - 32) as char
                } else {
                    c
                }
            };
            if !in_word && out.len() > 0 {
                out.push(' ');
                out.push(c2);
                proof {
                    assert(out@ =~= out0 + seq![' ', c2]);
                }
            } else {
                out.push(c2);
                proof {
                    assert(out@ =~= out0 + seq![c2]);
                }
            }
            in_word = true;
        }
        i = i + 1;
        proof {
            assert(title_rec(s@, i as int, in_word, out@) == title_rec(s@, i0, in0, out0));
        }
    }
    proof {
        assert(title_rec(s@, cs@.len() as int, in_word, out@) == out@);
    }
    chars_to_string(&out)
}

} // verus!
