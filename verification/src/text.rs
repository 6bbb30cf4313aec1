//! Character-level text helpers shared by the rest of the crate: substring
//! search, splitting into lines, joining lines, pattern replacement and
//! quoting, all specified over `Seq<char>` views.

use vstd::prelude::*;

verus! {

/// `needle` occurs in `hay` starting at position `i`.
pub open spec fn matches_at(hay: Seq<char>, needle: Seq<char>, i: int) -> bool {
    0 <= i && i + needle.len() <= hay.len() && hay.subrange(i, i + needle.len()) == needle
}

/// `needle` occurs somewhere in `hay`.
pub open spec fn contains_seq(hay: Seq<char>, needle: Seq<char>) -> bool {
    exists|i: int| matches_at(hay, needle, i)
}

/// Appends one character to a string.
/// Relies on `String::push`, which appends the given `char` to the end.
#[verifier::external_body]
pub fn push_char(s: &mut String, c: char)
    ensures
        final(s)@ == old(s)@.push(c),
{
    s.push(c);
}

/// The characters of `s`, as a vector.
pub fn to_chars(s: &str) -> (r: Vec<char>)
    ensures
        r@ == s@,
{
    let n = s.unicode_len();
    let mut r: Vec<char> = Vec::new();
    let mut i: usize = 0;
    while i < n
        invariant
            i <= n,
            n == s@.len(),
            r@ == s@.subrange(0, i as int),
        decreases n - i,
    {
        r.push(s.get_char(i));
        proof {
            assert(r@ =~= s@.subrange(0, i + 1));
        }
        i = i + 1;
    }
    proof {
        assert(r@ =~= s@);
    }
    r
}

/// A string holding exactly the characters of `v`.
pub fn chars_to_string(v: &Vec<char>) -> (r: String)
    ensures
        r@ == v@,
{
    let mut r = String::new();
    let mut i: usize = 0;
    while i < v.len()
        invariant
            i <= v@.len(),
            r@ == v@.subrange(0, i as int),
        decreases v@.len() - i,
    {
        push_char(&mut r, v[i]);
        proof {
            assert(r@ =~= v@.subrange(0, i + 1));
        }
        i = i + 1;
    }
    proof {
        assert(r@ =~= v@);
    }
    r
}

/// Whether `needle` occurs in `hay` at position `from`.
fn matches_here(hay: &str, needle: &str, from: usize) -> (b: bool)
    requires
        from + needle@.len() <= hay@.len(),
    ensures
        b == matches_at(hay@, needle@, from as int),
{
    let n = needle.unicode_len();
    let h = hay.unicode_len();
    let mut j: usize = 0;
    while j < n
        invariant
            j <= n,
            n == needle@.len(),
            h == hay@.len(),
            from + n <= h,
            forall|k: int| 0 <= k < j ==> hay@[from + k] == needle@[k],
        decreases n - j,
    {
        if hay.get_char(from + j) != needle.get_char(j) {
            proof {
                assert(hay@.subrange(from as int, from + n)[j as int] != needle@[j as int]);
            }
            return false;
        }
        j = j + 1;
    }
    proof {
        assert(hay@.subrange(from as int, from + n) =~= needle@);
    }
    true
}

/// Whether `needle` occurs anywhere in `hay`.
pub fn contains_str(hay: &str, needle: &str) -> (b: bool)
    ensures
        b == contains_seq(hay@, needle@),
{
    let hn = hay.unicode_len();
    let nn = needle.unicode_len();
    if nn > hn {
        proof {
            assert(forall|i: int| !matches_at(hay@, needle@, i));
        }
        return false;
    }
    if nn == 0 {
        proof {
            assert(hay@.subrange(0, 0) =~= needle@);
            assert(matches_at(hay@, needle@, 0));
        }
        return true;
    }
    let mut i: usize = 0;
    while i < hn - nn + 1
        invariant
            1 <= nn <= hn,
            hn == hay@.len(),
            nn == needle@.len(),
            i <= hn - nn + 1,
            forall|k: int| 0 <= k < i ==> !matches_at(hay@, needle@, k),
        decreases hn - nn + 1 - i,
    {
        if matches_here(hay, needle, i) {
            return true;
        }
        i = i + 1;
    }
    proof {
        assert(forall|k: int| !matches_at(hay@, needle@, k));
    }
    false
}

/// Whether `s` holds the character `c`.
pub fn contains_char(s: &str, c: char) -> (b: bool)
    ensures
        b == s@.contains(c),
{
    let n = s.unicode_len();
    let mut i: usize = 0;
    while i < n
        invariant
            i <= n,
            n == s@.len(),
            forall|j: int| 0 <= j < i ==> s@[j] != c,
        decreases n - i,
    {
        if s.get_char(i) == c {
            return true;
        }
        i = i + 1;
    }
    false
}

/// Whether two string slices hold the same characters.
pub fn str_eq(a: &str, b: &str) -> (r: bool)
    ensures
        r == (a@ == b@),
{
    let n = a.unicode_len();
    if n != b.unicode_len() {
        return false;
    }
    let mut i: usize = 0;
    while i < n
        invariant
            i <= n,
            n == a@.len(),
            n == b@.len(),
            forall|j: int| 0 <= j < i ==> a@[j] == b@[j],
        decreases n - i,
    {
        if a.get_char(i) != b.get_char(i) {
            return false;
        }
        i = i + 1;
    }
    proof {
        assert(a@ =~= b@);
    }
    true
}

/// Every occurrence of `pat` in `s` replaced by `sub`, scanning left to
/// right over non-overlapping occurrences; `s` unchanged when `pat` is empty.
pub open spec fn replace_all(s: Seq<char>, pat: Seq<char>, sub: Seq<char>) -> Seq<char>
    decreases s.len(),
{
    if pat.len() == 0 || s.len() < pat.len() {
        s
    } else if s.subrange(0, pat.len() as int) == pat {
        sub + replace_all(s.skip(pat.len() as int), pat, sub)
    } else {
        seq![s[0]] + replace_all(s.skip(1), pat, sub)
    }
}

/// Replaces every occurrence of `pat` in `s` by `sub`.
pub fn replace_str(s: &str, pat: &str, sub: &str) -> (r: String)
    ensures
        r@ == replace_all(s@, pat@, sub@),
{
    let n = s.unicode_len();
    let pn = pat.unicode_len();
    if pn == 0 {
        return String::from_str(s);
    }
    let mut out = String::new();
    let mut i: usize = 0;
    proof {
        assert(s@.skip(0) =~= s@);
        assert(out@ + replace_all(s@, pat@, sub@) =~= replace_all(s@, pat@, sub@));
    }
    while i < n
        invariant
            i <= n,
            n == s@.len(),
            pn == pat@.len(),
            1 <= pn,
            replace_all(s@, pat@, sub@) == out@ + replace_all(s@.skip(i as int), pat@, sub@),
        decreases n - i,
    {
        if n - i >= pn && matches_here(s, pat, i) {
            out.append(sub);
            proof {
                assert(s@.skip(i as int).subrange(0, pn as int) =~= s@.subrange(
                    i as int,
                    i + pn,
                ));
                assert(s@.skip(i as int).skip(pn as int) =~= s@.skip(i + pn));
            }
            i = i + pn;
        } else {
            let c = s.get_char(i);
            push_char(&mut out, c);
            proof {
                if n - i >= pn {
                    assert(s@.skip(i as int).subrange(0, pn as int) =~= s@.subrange(
                        i as int,
                        i + pn,
                    ));
                }
                assert(s@.skip(i as int)[0] == s@[i as int]);
                assert(s@.skip(i as int).skip(1) =~= s@.skip(i + 1));
                assert(replace_all(s@.skip(i as int), pat@, sub@) == seq![s@[i as int]]
                    + replace_all(s@.skip(i + 1), pat@, sub@));
            }
            i = i + 1;
        }
    }
    proof {
        assert(s@.skip(n as int) =~= Seq::<char>::empty());
    }
    out
}

/// One hexadecimal digit, lower case.
pub open spec fn hex_digit(n: int) -> char {
    if n < 10 {
        ((n + 48) as u8) as char
    } else {
        ((n + 87) as u8) as char
    }
}

/// How one character is written inside a quoted rendering of a value:
/// quotes and backslashes are escaped, the common control characters get
/// their short forms, and every other control character (below space, or
/// delete) is written as `\u{..}` with lower-case hex.
pub open spec fn escape_char(c: char) -> Seq<char> {
    if c == '"' {
        seq!['\\', '"']
    } else if c == '\\' {
        seq!['\\', '\\']
    } else if c == '\n' {
        seq!['\\', 'n']
    } else if c == '\t' {
        seq!['\\', 't']
    } else if c == '\r' {
        seq!['\\', 'r']
    } else if (c as u32) < 32 || (c as u32) == 127 {
        let v = c as u32;
        if v < 16 {
            seq!['\\', 'u', '{', hex_digit(v as int), '}']
        } else {
            seq!['\\', 'u', '{', hex_digit(v as int / 16), hex_digit(v as int % 16), '}']
        }
    } else {
        seq![c]
    }
}

/// The escaped form of a whole string.
pub open spec fn escape_seq(s: Seq<char>) -> Seq<char>
    decreases s.len(),
{
    if s.len() == 0 {
        Seq::<char>::empty()
    } else {
        escape_char(s[0]) + escape_seq(s.skip(1))
    }
}

/// A value surrounded by double quotes, with quotes, backslashes and the
/// common control characters escaped.
pub open spec fn quoted(s: Seq<char>) -> Seq<char> {
    seq!['"'] + escape_seq(s) + seq!['"']
}

/// One hexadecimal digit, lower case.
fn hex_digit_char(n: u32) -> (r: char)
    requires
        n < 16,
    ensures
        r == hex_digit(n as int),
{
    if n < 10 {
        ((n as u8) + 48) as char
    } else {
        ((n as u8) + 87) as char
    }
}

/// Renders `s` surrounded by double quotes with escapes, as a value is
/// shown to the user.
pub fn quote_value(s: &str) -> (r: String)
    ensures
        r@ == quoted(s@),
{
    let n = s.unicode_len();
    let mut out = String::new();
    push_char(&mut out, '"');
    let mut i: usize = 0;
    while i < n
        invariant
            i <= n,
            n == s@.len(),
            out@ == seq!['"'] + escape_seq(s@.subrange(0, i as int)),
        decreases n - i,
    {
        let c = s.get_char(i);
        if c == '"' || c == '\\' {
            push_char(&mut out, '\\');
            push_char(&mut out, c);
        } else if c == '\n' {
            push_char(&mut out, '\\');
            push_char(&mut out, 'n');
        } else if c == '\t' {
            push_char(&mut out, '\\');
            push_char(&mut out, 't');
        } else if c == '\r' {
            push_char(&mut out, '\\');
            push_char(&mut out, 'r');
        } else if (c as u32) < 32 || (c as u32) == 127 {
            let v = c as u32;
            push_char(&mut out, '\\');
            push_char(&mut out, 'u');
            push_char(&mut out, '{');
            if v < 16 {
                push_char(&mut out, hex_digit_char(v));
            } else {
                push_char(&mut out, hex_digit_char(v / 16));
                push_char(&mut out, hex_digit_char(v % 16));
            }
            push_char(&mut out, '}');
        } else {
            push_char(&mut out, c);
        }
        proof {
            lemma_escape_append_one(s@.subrange(0, i as int), s@[i as int]);
            assert(s@.subrange(0, i as int).push(s@[i as int]) =~= s@.subrange(0, i + 1));
            assert(out@ =~= seq!['"'] + escape_seq(s@.subrange(0, i + 1)));
        }
        i = i + 1;
    }
    push_char(&mut out, '"');
    proof {
        assert(s@.subrange(0, n as int) =~= s@);
    }
    out
}

/// The segments of `s` between newline characters. A trailing newline
/// yields a final empty segment, and the empty text has one empty segment.
pub open spec fn split_lines(s: Seq<char>) -> Seq<Seq<char>>
    decreases s.len(),
{
    if s.len() == 0 {
        seq![Seq::<char>::empty()]
    } else if s[0] == '\n' {
        seq![Seq::<char>::empty()] + split_lines(s.skip(1))
    } else {
        let rest = split_lines(s.skip(1));
        seq![seq![s[0]] + rest[0]] + rest.skip(1)
    }
}

/// The lines of `ls` joined with a newline between consecutive lines.
pub open spec fn join_nl(ls: Seq<Seq<char>>) -> Seq<char>
    decreases ls.len(),
{
    if ls.len() == 0 {
        Seq::<char>::empty()
    } else if ls.len() == 1 {
        ls[0]
    } else {
        ls[0] + seq!['\n'] + join_nl(ls.skip(1))
    }
}

/// Splitting always yields at least one segment.
pub proof fn lemma_split_nonempty(s: Seq<char>)
    ensures
        split_lines(s).len() >= 1,
    decreases s.len(),
{
    if s.len() > 0 {
        lemma_split_nonempty(s.skip(1));
    }
}

/// No segment of a split contains a newline.
pub proof fn lemma_split_no_newline(s: Seq<char>)
    ensures
        forall|i: int|
            0 <= i < split_lines(s).len() ==> !#[trigger] split_lines(s)[i].contains('\n'),
    decreases s.len(),
{
    if s.len() == 0 {
        assert forall|i: int| 0 <= i < split_lines(s).len() implies !#[trigger] split_lines(
            s,
        )[i].contains('\n') by {
            assert(split_lines(s)[i] =~= Seq::<char>::empty());
        }
    } else {
        lemma_split_no_newline(s.skip(1));
        lemma_split_nonempty(s.skip(1));
        let rest = split_lines(s.skip(1));
        if s[0] == '\n' {
            assert forall|i: int| 0 <= i < split_lines(s).len() implies !#[trigger] split_lines(
                s,
            )[i].contains('\n') by {
                if i == 0 {
                    assert(split_lines(s)[0] =~= Seq::<char>::empty());
                } else {
                    assert(split_lines(s)[i] == rest[i - 1]);
                }
            }
        } else {
            assert forall|i: int| 0 <= i < split_lines(s).len() implies !#[trigger] split_lines(
                s,
            )[i].contains('\n') by {
                if i == 0 {
                    assert(split_lines(s)[0] == seq![s[0]] + rest[0]);
                    assert(!rest[0].contains('\n'));
                    assert forall|j: int| 0 <= j < split_lines(s)[0].len() implies split_lines(
                        s,
                    )[0][j] != '\n' by {
                        if j == 0 {
                        } else {
                            assert(split_lines(s)[0][j] == rest[0][j - 1]);
                            assert(!rest[0].contains('\n'));
                        }
                    }
                    if split_lines(s)[0].contains('\n') {
                        let j = choose|j: int|
                            0 <= j < split_lines(s)[0].len() && split_lines(s)[0][j] == '\n';
                        assert(false);
                    }
                } else {
                    assert(split_lines(s)[i] == rest.skip(1)[i - 1]);
                    assert(rest.skip(1)[i - 1] == rest[i]);
                }
            }
        }
    }
}

/// A text without newlines splits into exactly itself.
pub proof fn lemma_split_single(t: Seq<char>)
    requires
        !t.contains('\n'),
    ensures
        split_lines(t) == seq![t],
    decreases t.len(),
{
    if t.len() == 0 {
        assert(t =~= Seq::<char>::empty());
        assert(split_lines(t) =~= seq![t]);
    } else {
        assert(t[0] != '\n');
        assert forall|j: int| 0 <= j < t.skip(1).len() implies t.skip(1)[j] != '\n' by {
            assert(t.skip(1)[j] == t[j + 1]);
        }
        if t.skip(1).contains('\n') {
            let j = choose|j: int| 0 <= j < t.skip(1).len() && t.skip(1)[j] == '\n';
            assert(false);
        }
        lemma_split_single(t.skip(1));
        assert(split_lines(t) =~= seq![seq![t[0]] + t.skip(1)]);
        assert(seq![t[0]] + t.skip(1) =~= t);
        assert(split_lines(t) =~= seq![t]);
    }
}

/// Splitting distributes over a newline that stands between two texts.
pub proof fn lemma_split_append(s: Seq<char>, t: Seq<char>)
    ensures
        split_lines(s + seq!['\n'] + t) == split_lines(s) + split_lines(t),
    decreases s.len(),
{
    let whole = s + seq!['\n'] + t;
    lemma_split_nonempty(t);
    if s.len() == 0 {
        assert(whole[0] == '\n');
        assert(whole.skip(1) =~= t);
        assert(split_lines(whole) == seq![Seq::<char>::empty()] + split_lines(t));
        assert(split_lines(s) =~= seq![Seq::<char>::empty()]);
    } else {
        lemma_split_append(s.skip(1), t);
        lemma_split_nonempty(s.skip(1));
        assert(whole[0] == s[0]);
        assert(whole.skip(1) =~= s.skip(1) + seq!['\n'] + t);
        let rest = split_lines(s.skip(1) + seq!['\n'] + t);
        assert(rest == split_lines(s.skip(1)) + split_lines(t));
        if s[0] == '\n' {
            assert(split_lines(whole) == seq![Seq::<char>::empty()] + rest);
            assert(split_lines(s) == seq![Seq::<char>::empty()] + split_lines(s.skip(1)));
            assert(seq![Seq::<char>::empty()] + (split_lines(s.skip(1)) + split_lines(t)) =~= (seq![
                Seq::<char>::empty(),
            ] + split_lines(s.skip(1))) + split_lines(t));
        } else {
            assert(rest[0] == split_lines(s.skip(1))[0]);
            assert(split_lines(whole) == seq![seq![whole[0]] + rest[0]] + rest.skip(1));
            assert(split_lines(s) == seq![seq![s[0]] + split_lines(s.skip(1))[0]] + split_lines(
                s.skip(1),
            ).skip(1));
            assert(rest.skip(1) =~= split_lines(s.skip(1)).skip(1) + split_lines(t));
            assert(seq![seq![s[0]] + split_lines(s.skip(1))[0]] + (split_lines(s.skip(1)).skip(1)
                + split_lines(t)) =~= (seq![seq![s[0]] + split_lines(s.skip(1))[0]] + split_lines(
                s.skip(1),
            ).skip(1)) + split_lines(t));
        }
    }
}

/// Joining one more line onto the end.
pub proof fn lemma_join_push(ls: Seq<Seq<char>>, x: Seq<char>)
    ensures
        join_nl(ls.push(x)) == if ls.len() == 0 {
            x
        } else {
            join_nl(ls) + seq!['\n'] + x
        },
    decreases ls.len(),
{
    if ls.len() == 0 {
        assert(ls.push(x).len() == 1);
        assert(ls.push(x)[0] == x);
    } else if ls.len() == 1 {
        assert(ls.push(x).len() == 2);
        assert(ls.push(x)[0] == ls[0]);
        assert(ls.push(x).skip(1) =~= seq![x]);
        assert(join_nl(seq![x]) == x);
        assert(join_nl(ls.push(x)) == ls[0] + seq!['\n'] + x);
    } else {
        lemma_join_push(ls.skip(1), x);
        assert(ls.push(x).skip(1) =~= ls.skip(1).push(x));
        assert(ls.push(x)[0] == ls[0]);
        assert(join_nl(ls.push(x)) == ls[0] + seq!['\n'] + (join_nl(ls.skip(1)) + seq!['\n'] + x));
        assert(ls[0] + seq!['\n'] + (join_nl(ls.skip(1)) + seq!['\n'] + x) =~= (ls[0] + seq!['\n']
            + join_nl(ls.skip(1))) + seq!['\n'] + x);
    }
}

/// Splitting inverts joining, for newline-free lines.
pub proof fn lemma_split_join(ls: Seq<Seq<char>>)
    requires
        ls.len() >= 1,
        forall|i: int| 0 <= i < ls.len() ==> !#[trigger] ls[i].contains('\n'),
    ensures
        split_lines(join_nl(ls)) == ls,
    decreases ls.len(),
{
    if ls.len() == 1 {
        lemma_split_single(ls[0]);
        assert(split_lines(join_nl(ls)) =~= ls);
    } else {
        lemma_split_join(ls.skip(1));
        assert(join_nl(ls) == ls[0] + seq!['\n'] + join_nl(ls.skip(1)));
        lemma_split_append(ls[0], join_nl(ls.skip(1)));
        lemma_split_single(ls[0]);
        assert(split_lines(join_nl(ls)) =~= seq![ls[0]] + ls.skip(1));
        assert(seq![ls[0]] + ls.skip(1) =~= ls);
    }
}

/// A whitespace character: the White_Space set, written out.
pub open spec fn is_ws(c: char) -> bool {
    ||| c == '\u{9}'
    ||| c == '\u{A}'
    ||| c == '\u{B}'
    ||| c == '\u{C}'
    ||| c == '\u{D}'
    ||| c == ' '
    ||| c == '\u{85}'
    ||| c == '\u{A0}'
    ||| c == '\u{1680}'
    ||| ('\u{2000}' <= c && c <= '\u{200A}')
    ||| c == '\u{2028}'
    ||| c == '\u{2029}'
    ||| c == '\u{202F}'
    ||| c == '\u{205F}'
    ||| c == '\u{3000}'
}

/// Decides whether a character is whitespace.
pub fn is_ws_char(c: char) -> (b: bool)
    ensures
        b == is_ws(c),
{
    c == '\u{9}' || c == '\u{A}' || c == '\u{B}' || c == '\u{C}' || c == '\u{D}' || c == ' '
        || c == '\u{85}' || c == '\u{A0}' || c == '\u{1680}' || ('\u{2000}' <= c && c
        <= '\u{200A}') || c == '\u{2028}' || c == '\u{2029}' || c == '\u{202F}' || c == '\u{205F}'
        || c == '\u{3000}'
}

/// `s` with leading whitespace removed.
pub open spec fn trim_front(s: Seq<char>) -> Seq<char>
    decreases s.len(),
{
    if s.len() > 0 && is_ws(s[0]) {
        trim_front(s.skip(1))
    } else {
        s
    }
}

/// `s` with trailing whitespace removed.
pub open spec fn trim_back(s: Seq<char>) -> Seq<char>
    decreases s.len(),
{
    if s.len() > 0 && is_ws(s.last()) {
        trim_back(s.drop_last())
    } else {
        s
    }
}

/// `s` with whitespace removed from both ends.
pub open spec fn trimmed(s: Seq<char>) -> Seq<char> {
    trim_back(trim_front(s))
}

/// Trimming the front skips exactly the leading whitespace.
proof fn lemma_trim_front_skip(s: Seq<char>, i: int)
    requires
        0 <= i <= s.len(),
        forall|j: int| 0 <= j < i ==> is_ws(s[j]),
        i < s.len() ==> !is_ws(s[i]),
    ensures
        trim_front(s) == s.skip(i),
    decreases i,
{
    if i == 0 {
        assert(s.skip(0) =~= s);
    } else {
        assert(is_ws(s[0]));
        assert(forall|j: int| 0 <= j < i - 1 ==> is_ws(s.skip(1)[j]));
        assert(i - 1 < s.skip(1).len() ==> !is_ws(s.skip(1)[i - 1]));
        lemma_trim_front_skip(s.skip(1), i - 1);
        assert(s.skip(1).skip(i - 1) =~= s.skip(i));
    }
}

/// Trimming the back keeps exactly the prefix before the trailing
/// whitespace.
proof fn lemma_trim_back_take(s: Seq<char>, e: int)
    requires
        0 <= e <= s.len(),
        forall|j: int| e <= j < s.len() ==> is_ws(s[j]),
        e > 0 ==> !is_ws(s[e - 1]),
    ensures
        trim_back(s) == s.take(e),
    decreases s.len() - e,
{
    if e == s.len() {
        if s.len() > 0 && is_ws(s.last()) {
            assert(forall|j: int| e - 1 <= j < s.drop_last().len() ==> is_ws(s.drop_last()[j]));
            assert(e - 1 > 0 ==> !is_ws(s.drop_last()[e - 2]));
            assert(false);
        }
        assert(s.take(e) =~= s);
    } else {
        assert(is_ws(s.last()));
        assert(forall|j: int| e <= j < s.drop_last().len() ==> is_ws(s.drop_last()[j]));
        assert(e > 0 ==> !is_ws(s.drop_last()[e - 1]));
        lemma_trim_back_take(s.drop_last(), e);
        assert(s.drop_last().take(e) =~= s.take(e));
    }
}

/// Whether the character at `i` is whitespace.
fn ws_at(s: &str, i: usize) -> (b: bool)
    requires
        i < s@.len(),
    ensures
        b == is_ws(s@[i as int]),
{
    is_ws_char(s.get_char(i))
}

/// `s` with whitespace removed from both ends.
pub fn trim_str(s: &str) -> (r: String)
    ensures
        r@ == trimmed(s@),
{
    let n = s.unicode_len();
    let mut start: usize = 0;
    while start < n && ws_at(s, start)
        invariant
            start <= n,
            n == s@.len(),
            forall|j: int| 0 <= j < start ==> is_ws(s@[j]),
        decreases n - start,
    {
        start = start + 1;
    }
    let mut e: usize = n;
    while e > start && ws_at(s, e - 1)
        invariant
            start <= e <= n,
            n == s@.len(),
            forall|j: int| 0 <= j < start ==> is_ws(s@[j]),
            start < n ==> !is_ws(s@[start as int]),
            forall|j: int| e <= j < n ==> is_ws(s@[j]),
        decreases e,
    {
        e = e - 1;
    }
    let out = String::from_str(s.substring_char(start, e));
    proof {
        lemma_trim_front_skip(s@, start as int);
        let t = s@.skip(start as int);
        assert(forall|j: int| e - start <= j < t.len() ==> is_ws(t[j])) by {
            assert(forall|j: int| 0 <= j < t.len() ==> t[j] == s@[j + start]);
        }
        assert(e - start > 0 ==> !is_ws(t[e - start - 1]));
        lemma_trim_back_take(t, e - start);
        assert(t.take(e - start) =~= s@.subrange(start as int, e as int));
    }
    out
}

/// The position of the first occurrence of `c` in `s`; meaningful only
/// when `s` holds `c`.
pub open spec fn first_index_of(s: Seq<char>, c: char) -> int
    decreases s.len(),
{
    if s.len() == 0 {
        0
    } else if s[0] == c {
        0
    } else {
        1 + first_index_of(s.skip(1), c)
    }
}

/// Finds the first occurrence of `c` in `s`.
pub fn find_char(s: &str, c: char) -> (r: Option<usize>)
    ensures
        match r {
            Some(i) => i == first_index_of(s@, c) && i < s@.len() && s@[i as int] == c && (forall|
                j: int,
            | 0 <= j < i ==> s@[j] != c),
            None => !s@.contains(c),
        },
{
    let n = s.unicode_len();
    let mut i: usize = 0;
    proof {
        assert(s@.skip(0) =~= s@);
    }
    while i < n
        invariant
            i <= n,
            n == s@.len(),
            forall|j: int| 0 <= j < i ==> s@[j] != c,
            first_index_of(s@, c) == i + first_index_of(s@.skip(i as int), c),
        decreases n - i,
    {
        proof {
            assert(s@.skip(i as int)[0] == s@[i as int]);
            assert(s@.skip(i as int).skip(1) =~= s@.skip(i + 1));
        }
        if s.get_char(i) == c {
            return Some(i);
        }
        i = i + 1;
    }
    proof {
        assert(s@.skip(0) =~= s@);
    }
    None
}

/// A line is blank when every character in it is whitespace.
pub open spec fn is_blank(line: Seq<char>) -> bool {
    forall|i: int| 0 <= i < line.len() ==> is_ws(#[trigger] line[i])
}

/// Decides whether a line is blank.
pub fn is_blank_str(line: &str) -> (b: bool)
    ensures
        b == is_blank(line@),
{
    let n = line.unicode_len();
    let mut i: usize = 0;
    while i < n
        invariant
            i <= n,
            n == line@.len(),
            forall|j: int| 0 <= j < i ==> is_ws(#[trigger] line@[j]),
        decreases n - i,
    {
        if !is_ws_char(line.get_char(i)) {
            return false;
        }
        i = i + 1;
    }
    true
}

/// Splits a text into its lines, one segment per newline boundary.
pub fn split_to_lines(s: &str) -> (r: Vec<String>)
    ensures
        r.deep_view() == split_lines(s@),
{
    let n = s.unicode_len();
    let mut done: Vec<String> = Vec::new();
    let mut cur = String::new();
    let mut i: usize = 0;
    proof {
        lemma_split_nonempty(s@);
        assert(s@.skip(0) =~= s@);
        assert(seq![Seq::<char>::empty() + split_lines(s@)[0]] + split_lines(s@).skip(1) =~= seq![
            split_lines(s@)[0],
        ] + split_lines(s@).skip(1));
        assert(seq![split_lines(s@)[0]] + split_lines(s@).skip(1) =~= split_lines(s@));
        assert(done.deep_view() + (seq![cur@ + split_lines(s@.skip(0))[0]] + split_lines(
            s@.skip(0),
        ).skip(1)) =~= split_lines(s@));
    }
    while i < n
        invariant
            i <= n,
            n == s@.len(),
            split_lines(s@) == done.deep_view() + (seq![cur@ + split_lines(s@.skip(i as int))[0]]
                + split_lines(s@.skip(i as int)).skip(1)),
        decreases n - i,
    {
        let c = s.get_char(i);
        proof {
            lemma_split_nonempty(s@.skip(i + 1));
            assert(s@.skip(i as int)[0] == s@[i as int]);
            assert(s@.skip(i as int).skip(1) =~= s@.skip(i + 1));
        }
        if c == '\n' {
            let ghost old_done = done.deep_view();
            let ghost old_cur = cur@;
            done.push(cur);
            cur = String::new();
            proof {
                assert(done.deep_view() =~= old_done.push(old_cur));
                let rest = split_lines(s@.skip(i + 1));
                assert(split_lines(s@.skip(i as int)) == seq![Seq::<char>::empty()] + rest);
                assert(seq![old_cur + (seq![Seq::<char>::empty()] + rest)[0]] + (seq![
                    Seq::<char>::empty(),
                ] + rest).skip(1) =~= seq![old_cur] + rest);
                assert(seq![rest[0]] + rest.skip(1) =~= rest);
                assert(old_done.push(old_cur) + (seq![cur@ + rest[0]] + rest.skip(1)) =~= old_done
                    + (seq![old_cur] + rest));
            }
        } else {
            let ghost old_cur = cur@;
            push_char(&mut cur, c);
            proof {
                let rest = split_lines(s@.skip(i + 1));
                assert(split_lines(s@.skip(i as int)) == seq![seq![s@[i as int]] + rest[0]]
                    + rest.skip(1));
                assert(old_cur + (seq![s@[i as int]] + rest[0]) =~= cur@ + rest[0]);
                assert(seq![old_cur + (seq![seq![s@[i as int]] + rest[0]] + rest.skip(1))[0]]
                    + (seq![seq![s@[i as int]] + rest[0]] + rest.skip(1)).skip(1) =~= seq![cur@
                    + rest[0]] + rest.skip(1));
            }
        }
        i = i + 1;
    }
    proof {
        assert(s@.skip(n as int) =~= Seq::<char>::empty());
        assert(split_lines(Seq::<char>::empty()) =~= seq![Seq::<char>::empty()]);
    }
    let ghost old_done = done.deep_view();
    let ghost old_cur = cur@;
    done.push(cur);
    proof {
        assert(done.deep_view() =~= old_done.push(old_cur));
        assert(seq![old_cur + Seq::<char>::empty()] + seq![Seq::<char>::empty()].skip(1) =~= seq![
            old_cur,
        ]);
        assert(old_done.push(old_cur) =~= old_done + seq![old_cur]);
    }
    done
}

/// Joins lines with a newline between consecutive lines.
pub fn join_lines(lines: &Vec<String>) -> (r: String)
    ensures
        r@ == join_nl(lines.deep_view()),
{
    if lines.len() == 0 {
        return String::new();
    }
    let mut out = lines[0].clone();
    let mut i: usize = 1;
    proof {
        assert(lines.deep_view().take(1) =~= seq![lines.deep_view()[0]]);
        assert(out@ == lines.deep_view()[0]);
    }
    while i < lines.len()
        invariant
            1 <= i <= lines@.len(),
            lines@.len() == lines.deep_view().len(),
            forall|j: int|
                0 <= j < lines@.len() ==> #[trigger] lines.deep_view()[j] == lines@[j]@,
            out@ == join_nl(lines.deep_view().take(i as int)),
        decreases lines@.len() - i,
    {
        let nl = "\n";
        proof {
            reveal_strlit("\n");
            assert(nl@ =~= seq!['\n']);
        }
        out.append(nl);
        out.append(lines[i].as_str());
        proof {
            let dv = lines.deep_view();
            lemma_join_push(dv.take(i as int), dv[i as int]);
            assert(dv.take(i as int).push(dv[i as int]) =~= dv.take(i + 1));
            assert(out@ =~= join_nl(dv.take(i + 1)));
        }
        i = i + 1;
    }
    proof {
        assert(lines.deep_view().take(lines@.len() as int) =~= lines.deep_view());
    }
    out
}

/// Escaping distributes over appending one character at the end.
proof fn lemma_escape_append_one(s: Seq<char>, c: char)
    ensures
        escape_seq(s.push(c)) == escape_seq(s) + escape_char(c),
    decreases s.len(),
{
    if s.len() == 0 {
        assert(s.push(c)[0] == c);
        assert(s.push(c).skip(1) =~= Seq::<char>::empty());
        assert(escape_seq(Seq::<char>::empty()) =~= Seq::<char>::empty());
        assert(escape_seq(s.push(c)) == escape_char(c) + escape_seq(s.push(c).skip(1)));
        assert(escape_seq(s.push(c)) =~= escape_char(c));
        assert(escape_seq(s) + escape_char(c) =~= escape_char(c));
    } else {
        assert(s.push(c).skip(1) =~= s.skip(1).push(c));
        lemma_escape_append_one(s.skip(1), c);
        assert(escape_seq(s.push(c)) == escape_char(s[0]) + (escape_seq(s.skip(1))
            + escape_char(c)));
        assert(escape_char(s[0]) + (escape_seq(s.skip(1)) + escape_char(c)) =~= (escape_char(s[0])
            + escape_seq(s.skip(1))) + escape_char(c));
    }
}

} // verus!
