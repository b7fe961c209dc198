//! Character-level text utilities: joining, line splitting, indentation.
use vstd::prelude::*;
use vstd::string::*;

verus! {

/// Appends one character to a string (std `String::push`).
#[verifier::external_body]
pub(crate) fn push_char(s: &mut String, c: char)
    ensures
        final(s)@ == old(s)@.push(c),
{
    s.push(c);
}

/// The characters of `s`, in order.
pub fn to_chars(s: &str) -> (res: Vec<char>)
    ensures
        res@ == s@,
{
    let n = s.unicode_len();
    let mut res: Vec<char> = Vec::new();
    let mut i: usize = 0;
    while i < n
        invariant
            n == s@.len(),
            i <= n,
            res@ == s@.take(i as int),
        decreases n - i,
    {
        let c = s.get_char(i);
        res.push(c);
        i = i + 1;
        assert(res@ =~= s@.take(i as int));
    }
    assert(res@ =~= s@);
    res
}

/// Appends a sequence of characters to a string.
pub fn append_chars(out: &mut String, cs: &Vec<char>, from: usize, to: usize)
    requires
        from <= to <= cs@.len(),
    ensures
        final(out)@ == old(out)@ + cs@.subrange(from as int, to as int),
{
    let mut i = from;
    while i < to
        invariant
            from <= i <= to <= cs@.len(),
            out@ == old(out)@ + cs@.subrange(from as int, i as int),
        decreases to - i,
    {
        push_char(out, cs[i]);
        i = i + 1;
        assert(out@ =~= old(out)@ + cs@.subrange(from as int, i as int));
    }
}

/// Whether two strings hold the same characters.
pub fn str_eq(a: &str, b: &str) -> (r: bool)
    ensures
        r == (a@ == b@),
{
    let n = a.unicode_len();
    if n != b.unicode_len() {
        return false;
    }
    let mut i: usize = 0;
    while i < n
        invariant
            n == a@.len(),
            n == b@.len(),
            i <= n,
            a@.take(i as int) == b@.take(i as int),
        decreases n - i,
    {
        if a.get_char(i) != b.get_char(i) {
            return false;
        }
        assert(a@.take(i + 1) =~= a@.take(i as int).push(a@[i as int]));
        assert(b@.take(i + 1) =~= b@.take(i as int).push(b@[i as int]));
        i = i + 1;
    }
    assert(a@ =~= a@.take(n as int));
    assert(b@ =~= b@.take(n as int));
    true
}

/// Copies a string.
pub fn copy_str(s: &str) -> (res: String)
    ensures
        res@ == s@,
{
    String::from_str(s)
}

/// `parts` joined with `sep` between consecutive parts.
pub open spec fn join(parts: Seq<Seq<char>>, sep: Seq<char>) -> Seq<char>
    decreases parts.len(),
{
    if parts.len() == 0 {
        Seq::empty()
    } else if parts.len() == 1 {
        parts[0]
    } else {
        join(parts.drop_last(), sep) + sep + parts.last()
    }
}

/// The character sequences that a list of strings holds.
pub open spec fn views(v: Seq<String>) -> Seq<Seq<char>> {
    v.map_values(|s: String| s@)
}

/// Joins the strings of `parts` with `sep` between them (`[..].join(sep)`).
pub fn join_strings(parts: &Vec<String>, sep: &str) -> (res: String)
    ensures
        res@ == join(views(parts@), sep@),
{
    let mut res = String::new();
    let n = parts.len();
    let mut i: usize = 0;
    while i < n
        invariant
            n == parts@.len(),
            i <= n,
            res@ == join(views(parts@).take(i as int), sep@),
        decreases n - i,
    {
        assert(views(parts@).take((i + 1) as int).drop_last() =~= views(parts@).take(i as int));
        if i != 0 {
            res.append(sep);
        }
        res.append(parts[i].as_str());
        i = i + 1;
    }
    assert(views(parts@).take(n as int) =~= views(parts@));
    res
}

/// The pieces of `s` between occurrences of `c` (there is always at least one).
pub open spec fn split_on(s: Seq<char>, c: char) -> Seq<Seq<char>>
    decreases s.len(),
{
    if s.len() == 0 {
        seq![Seq::empty()]
    } else {
        let p = split_on(s.drop_last(), c);
        if s.last() == c {
            p.push(Seq::empty())
        } else {
            p.update(p.len() - 1, p.last().push(s.last()))
        }
    }
}

pub proof fn lemma_split_on_nonempty(s: Seq<char>, c: char)
    ensures
        split_on(s, c).len() >= 1,
    decreases s.len(),
{
    if s.len() > 0 {
        lemma_split_on_nonempty(s.drop_last(), c);
    }
}

/// Splits `s` at every occurrence of `c` (`s.split(c)`).
pub fn split_str(s: &str, c: char) -> (r: Vec<String>)
    ensures
        views(r@) == split_on(s@, c),
{
    let cs = to_chars(s);
    let n = cs.len();
    let mut parts: Vec<String> = Vec::new();
    let mut cur = String::new();
    let mut i: usize = 0;
    assert(s@.take(0) =~= Seq::<char>::empty());
    assert(views(parts@).push(cur@) =~= seq![Seq::<char>::empty()]);
    while i < n
        invariant
            n == cs@.len(),
            cs@ == s@,
            i <= n,
            views(parts@).push(cur@) == split_on(s@.take(i as int), c),
        decreases n - i,
    {
        let ch = cs[i];
        assert(s@.take(i + 1).drop_last() =~= s@.take(i as int));
        assert(s@.take(i + 1).last() == ch);
        let ghost p = views(parts@).push(cur@);
        if ch == c {
            let done = cur;
            parts.push(done);
            cur = String::new();
            assert(views(parts@).push(cur@) =~= p.push(Seq::empty()));
        } else {
            push_char(&mut cur, ch);
            assert(views(parts@).push(cur@) =~= p.update(p.len() - 1, p.last().push(ch)));
        }
        i = i + 1;
    }
    assert(s@.take(n as int) =~= s@);
    let ghost q = views(parts@).push(cur@);
    parts.push(cur);
    assert(views(parts@) =~= q);
    parts
}

/// A line without its `\r`, where a line ending `\r\n` ended it.
pub open spec fn strip_cr(l: Seq<char>) -> Seq<char> {
    if l.len() > 0 && l.last() == '\r' {
        l.drop_last()
    } else {
        l
    }
}

/// The lines of `s` as `str::lines` yields them: split at `\n`, a `\r` before a `\n`
/// dropped, and no empty line after a final line ending.
pub open spec fn lines(s: Seq<char>) -> Seq<Seq<char>> {
    let parts = split_on(s, '\n');
    let n = parts.len();
    let ended = parts.take(n - 1).map_values(|l: Seq<char>| strip_cr(l));
    if parts[n - 1].len() == 0 {
        ended
    } else {
        ended.push(parts[n - 1])
    }
}

/// Unicode `White_Space` (what `char::is_whitespace` tests).
pub open spec fn is_ws(c: char) -> bool {
    ||| c == ' '
    ||| ('\t' <= c && c <= '\r')
    ||| c == '\u{85}'
    ||| c == '\u{A0}'
    ||| c == '\u{1680}'
    ||| ('\u{2000}' <= c && c <= '\u{200A}')
    ||| c == '\u{2028}'
    ||| c == '\u{2029}'
    ||| c == '\u{202F}'
    ||| c == '\u{205F}'
    ||| c == '\u{3000}'
}

/// Tests `char::is_whitespace`.
pub fn is_whitespace(c: char) -> (res: bool)
    ensures
        res == is_ws(c),
{
    c == ' ' || ('\t' <= c && c <= '\r') || c == '\u{85}' || c == '\u{A0}' || c == '\u{1680}'
        || ('\u{2000}' <= c && c <= '\u{200A}') || c == '\u{2028}' || c == '\u{2029}'
        || c == '\u{202F}' || c == '\u{205F}' || c == '\u{3000}'
}

/// A line that is empty once trimmed.
pub open spec fn is_blank(l: Seq<char>) -> bool {
    forall|i: int| 0 <= i < l.len() ==> #[trigger] is_ws(l[i])
}

/// `n` spaces.
pub open spec fn spaces(n: nat) -> Seq<char> {
    Seq::new(n, |i: int| ' ')
}

/// A line indented by `n` spaces, unless it is blank.
pub open spec fn indent_line(l: Seq<char>, n: nat) -> Seq<char> {
    if is_blank(l) {
        l
    } else {
        spaces(n) + l
    }
}

/// The lines of `s`, each non-blank one indented by `n` spaces, joined by `\n`.
pub open spec fn spec_indent(s: Seq<char>, n: nat) -> Seq<char> {
    join(lines(s).map_values(|l: Seq<char>| indent_line(l, n)), seq!['\n'])
}

} // verus!

verus! {

/// Whether `cs[from..to]` is blank.
fn range_is_blank(cs: &Vec<char>, from: usize, to: usize) -> (res: bool)
    requires
        from <= to <= cs@.len(),
    ensures
        res == is_blank(cs@.subrange(from as int, to as int)),
{
    let mut i = from;
    while i < to
        invariant
            from <= i <= to <= cs@.len(),
            forall|j: int| from <= j < i ==> #[trigger] is_ws(cs@[j]),
        decreases to - i,
    {
        if !is_whitespace(cs[i]) {
            assert(!is_ws(cs@.subrange(from as int, to as int)[i - from]));
            return false;
        }
        i = i + 1;
    }
    assert forall|j: int| 0 <= j < to - from implies #[trigger] is_ws(cs@.subrange(from as int, to as int)[j]) by {
        assert(cs@.subrange(from as int, to as int)[j] == cs@[from + j]);
    }
    true
}

/// Appends `n` spaces.
fn push_spaces(out: &mut String, n: usize)
    ensures
        final(out)@ == old(out)@ + spaces(n as nat),
{
    let mut i: usize = 0;
    while i < n
        invariant
            i <= n,
            out@ == old(out)@ + spaces(i as nat),
        decreases n - i,
    {
        push_char(out, ' ');
        i = i + 1;
        assert(out@ =~= old(out)@ + spaces(i as nat));
    }
}

/// Appends `cs[from..to]` indented by `n` unless it is blank.
fn push_indented_line(out: &mut String, cs: &Vec<char>, from: usize, to: usize, n: usize)
    requires
        from <= to <= cs@.len(),
    ensures
        final(out)@ == old(out)@ + indent_line(cs@.subrange(from as int, to as int), n as nat),
{
    if !range_is_blank(cs, from, to) {
        push_spaces(out, n);
    }
    append_chars(out, cs, from, to);
    assert(out@ =~= old(out)@ + indent_line(cs@.subrange(from as int, to as int), n as nat));
}

pub proof fn lemma_join_push(parts: Seq<Seq<char>>, x: Seq<char>, sep: Seq<char>)
    ensures
        join(parts.push(x), sep) == if parts.len() == 0 { x } else { join(parts, sep) + sep + x },
{
    assert(parts.push(x).drop_last() =~= parts);
}

/// Indents every non-blank line of `str` by `indent_size` spaces; the lines are those of
/// `str::lines`, joined again by `\n`.
pub fn indent_str(str: String, indent_size: usize) -> (res: String)
    ensures
        res@ == spec_indent(str@, indent_size as nat),
{
    let cs = to_chars(str.as_str());
    let len = cs.len();
    let mut out = String::new();
    let mut st: usize = 0;
    let mut k: usize = 0;
    let mut i: usize = 0;
    let ghost f = |l: Seq<char>| indent_line(l, indent_size as nat);
    while i < len
        invariant
            len == cs@.len(),
            st <= i <= len,
            k <= i,
            split_on(cs@.take(i as int), '\n').len() == k + 1,
            split_on(cs@.take(i as int), '\n')[k as int] == cs@.subrange(st as int, i as int),
            out@ == join(
                split_on(cs@.take(i as int), '\n').take(k as int).map_values(
                    |l: Seq<char>| strip_cr(l),
                ).map_values(f),
                seq!['\n'],
            ),
            f == (|l: Seq<char>| indent_line(l, indent_size as nat)),
        decreases len - i,
    {
        let ghost p = split_on(cs@.take(i as int), '\n');
        assert(cs@.take(i + 1).drop_last() =~= cs@.take(i as int));
        assert(cs@.take(i + 1).last() == cs@[i as int]);
        if cs[i] == '\n' {
            let mut e = i;
            if e > st && cs[e - 1] == '\r' {
                e = e - 1;
            }
            assert(cs@.subrange(st as int, e as int) =~= strip_cr(cs@.subrange(st as int, i as int)));
            if k > 0 {
                out.append("\n");
            }
            push_indented_line(&mut out, &cs, st, e, indent_size);
            proof {
                let q = split_on(cs@.take(i + 1), '\n');
                assert(q =~= p.push(Seq::empty()));
                let old_m = p.take(k as int).map_values(|l: Seq<char>| strip_cr(l)).map_values(f);
                let new_m = q.take(k + 1).map_values(|l: Seq<char>| strip_cr(l)).map_values(f);
                assert(new_m =~= old_m.push(f(strip_cr(p[k as int]))));
                lemma_join_push(old_m, f(strip_cr(p[k as int])), seq!['\n']);
                reveal_strlit("\n");
                assert(seq!['\n'] =~= "\n"@);
            }
            k = k + 1;
            st = i + 1;
            i = i + 1;
            proof {
                assert(cs@.subrange(st as int, i as int) =~= Seq::<char>::empty());
            }
        } else {
            i = i + 1;
            proof {
                let q = split_on(cs@.take(i as int), '\n');
                assert(q =~= p.update(k as int, p[k as int].push(cs@[i - 1])));
                assert(q.take(k as int) =~= p.take(k as int));
                assert(cs@.subrange(st as int, i as int) =~= cs@.subrange(st as int, i - 1).push(cs@[i - 1]));
            }
        }
    }
    let ghost p = split_on(cs@.take(len as int), '\n');
    assert(cs@.take(len as int) =~= str@);
    if st < len {
        if k > 0 {
            out.append("\n");
        }
        push_indented_line(&mut out, &cs, st, len, indent_size);
        proof {
            let old_m = p.take(k as int).map_values(|l: Seq<char>| strip_cr(l)).map_values(f);
            lemma_join_push(old_m, f(p[k as int]), seq!['\n']);
            reveal_strlit("\n");
            assert(seq!['\n'] =~= "\n"@);
            assert(lines(str@).map_values(f) =~= old_m.push(f(p[k as int])));
        }
    } else {
        proof {
            let old_m = p.take(k as int).map_values(|l: Seq<char>| strip_cr(l)).map_values(f);
            assert(lines(str@).map_values(f) =~= old_m);
        }
    }
    out
}

} // verus!

verus! {

/// The decimal digit `d` (`0`..=`9`) as a character.
pub open spec fn digit_char(d: nat) -> char {
    ((48 + d) as u8) as char
}

/// The decimal representation of `n` (what `format!("{}", n)` prints).
pub open spec fn spec_decimal(n: nat) -> Seq<char>
    decreases n,
{
    if n < 10 {
        seq![digit_char(n)]
    } else {
        spec_decimal(n / 10).push(digit_char(n % 10))
    }
}

fn digit(d: usize) -> (c: char)
    requires
        d < 10,
    ensures
        c == digit_char(d as nat),
{
    let b: u8 = 48u8 + (d as u8);
    b as char
}

/// Formats `n` in decimal.
pub fn decimal(n: usize) -> (r: String)
    ensures
        r@ == spec_decimal(n as nat),
    decreases n,
{
    if n < 10 {
        let mut s = String::new();
        push_char(&mut s, digit(n));
        assert(s@ =~= seq![digit_char(n as nat)]);
        s
    } else {
        let mut s = decimal(n / 10);
        push_char(&mut s, digit(n % 10));
        s
    }
}

} // verus!

verus! {

/// Whether `s` begins with `p`.
pub open spec fn starts_with(s: Seq<char>, p: Seq<char>) -> bool {
    p.len() <= s.len() && s.take(p.len() as int) == p
}

/// Whether `p` occurs in `s` at position `i`.
pub open spec fn occurs_at(s: Seq<char>, p: Seq<char>, i: int) -> bool {
    0 <= i && i + p.len() <= s.len() && s.subrange(i, i + p.len()) == p
}

/// Whether `p` occurs in `s` (`str::contains`).
pub open spec fn contains_sub(s: Seq<char>, p: Seq<char>) -> bool {
    exists|i: int| #[trigger] occurs_at(s, p, i)
}

/// `s` with each occurrence of `pat` replaced by `rep`, scanning from the left without
/// overlaps (`str::replace`, for a non-empty `pat`).
pub open spec fn replace_all(s: Seq<char>, pat: Seq<char>, rep: Seq<char>) -> Seq<char>
    decreases s.len(),
{
    if s.len() == 0 {
        s
    } else if pat.len() > 0 && starts_with(s, pat) {
        rep + replace_all(s.skip(pat.len() as int), pat, rep)
    } else {
        seq![s[0]] + replace_all(s.drop_first(), pat, rep)
    }
}

/// `s` without leading whitespace.
pub open spec fn trim_start(s: Seq<char>) -> Seq<char>
    decreases s.len(),
{
    if s.len() > 0 && is_ws(s[0]) {
        trim_start(s.drop_first())
    } else {
        s
    }
}

/// `s` without trailing whitespace.
pub open spec fn trim_end(s: Seq<char>) -> Seq<char>
    decreases s.len(),
{
    if s.len() > 0 && is_ws(s.last()) {
        trim_end(s.drop_last())
    } else {
        s
    }
}

/// `s` without leading and trailing whitespace (`str::trim`).
pub open spec fn trim(s: Seq<char>) -> Seq<char> {
    trim_end(trim_start(s))
}

/// Whether `pat` occurs in `cs` at position `i`.
pub(crate) fn matches_at(cs: &Vec<char>, pat: &Vec<char>, i: usize) -> (r: bool)
    requires
        i <= cs@.len(),
    ensures
        r == starts_with(cs@.skip(i as int), pat@),
        r == occurs_at(cs@, pat@, i as int),
{
    let n = cs.len();
    let m = pat.len();
    if m > n - i {
        return false;
    }
    let mut k: usize = 0;
    while k < m
        invariant
            n == cs@.len(),
            m == pat@.len(),
            i + m <= n,
            k <= m,
            forall|j: int| 0 <= j < k ==> cs@[i + j] == pat@[j],
        decreases m - k,
    {
        if cs[i + k] != pat[k] {
            assert(cs@.skip(i as int).take(m as int)[k as int] != pat@[k as int]);
            assert(cs@.subrange(i as int, i + m)[k as int] != pat@[k as int]);
            return false;
        }
        k = k + 1;
    }
    assert(cs@.skip(i as int).take(m as int) =~= pat@);
    assert(cs@.subrange(i as int, i + m) =~= pat@);
    true
}

/// Whether `s` begins with `p`.
pub fn starts_with_str(s: &str, p: &str) -> (r: bool)
    ensures
        r == starts_with(s@, p@),
{
    let cs = to_chars(s);
    let ps = to_chars(p);
    assert(cs@.skip(0) =~= cs@);
    matches_at(&cs, &ps, 0)
}

/// Whether `p` occurs in `s`.
pub fn contains_str(s: &str, p: &str) -> (r: bool)
    ensures
        r == contains_sub(s@, p@),
{
    let cs = to_chars(s);
    let ps = to_chars(p);
    let n = cs.len();
    let m = ps.len();
    if m > n {
        assert forall|j: int| !#[trigger] occurs_at(s@, p@, j) by {}
        return false;
    }
    if m == 0 {
        assert(s@.subrange(0, 0) =~= p@);
        assert(occurs_at(s@, p@, 0));
        return true;
    }
    let mut i: usize = 0;
    while i <= n - m
        invariant
            n == cs@.len(),
            m == ps@.len(),
            0 < m <= n,
            cs@ == s@,
            ps@ == p@,
            i <= n - m + 1,
            forall|j: int| 0 <= j < i ==> !#[trigger] occurs_at(s@, p@, j),
        decreases n - m + 1 - i,
    {
        if matches_at(&cs, &ps, i) {
            return true;
        }
        i = i + 1;
    }
    assert forall|j: int| !#[trigger] occurs_at(s@, p@, j) by {
        if 0 <= j && j + m <= n {
            assert(j < i);
        }
    }
    false
}

/// `s` with each occurrence of `pat` replaced by `rep`.
pub fn replace_str(s: &str, pat: &str, rep: &str) -> (r: String)
    requires
        pat@.len() > 0,
    ensures
        r@ == replace_all(s@, pat@, rep@),
{
    let cs = to_chars(s);
    let ps = to_chars(pat);
    let n = cs.len();
    let m = ps.len();
    let mut out = String::new();
    let mut i: usize = 0;
    assert(cs@.skip(0) =~= cs@);
    while i < n
        invariant
            n == cs@.len(),
            m == ps@.len(),
            m > 0,
            cs@ == s@,
            ps@ == pat@,
            i <= n,
            out@ + replace_all(cs@.skip(i as int), pat@, rep@) == replace_all(s@, pat@, rep@),
        decreases n - i,
    {
        let ghost rest = cs@.skip(i as int);
        if matches_at(&cs, &ps, i) {
            assert(rest.skip(m as int) =~= cs@.skip(i + m));
            assert(out@ + (rep@ + replace_all(rest.skip(m as int), pat@, rep@)) =~= (out@ + rep@) + replace_all(cs@.skip(i + m), pat@, rep@));
            out.append(rep);
            i = i + m;
        } else {
            assert(rest.drop_first() =~= cs@.skip(i + 1));
            assert(out@ + (seq![rest[0]] + replace_all(rest.drop_first(), pat@, rep@)) =~= out@.push(cs@[i as int]) + replace_all(cs@.skip(i + 1), pat@, rep@));
            push_char(&mut out, cs[i]);
            i = i + 1;
        }
    }
    assert(cs@.skip(n as int) =~= Seq::<char>::empty());
    assert(out@ + Seq::<char>::empty() =~= out@);
    out
}

/// `s` without leading and trailing whitespace.
pub fn trim_str(s: &str) -> (r: String)
    ensures
        r@ == trim(s@),
{
    let cs = to_chars(s);
    let n = cs.len();
    let mut a: usize = 0;
    assert(s@.skip(0) =~= s@);
    while a < n && is_whitespace(cs[a])
        invariant
            n == cs@.len(),
            cs@ == s@,
            a <= n,
            trim_start(s@) == trim_start(s@.skip(a as int)),
        decreases n - a,
    {
        assert(s@.skip(a as int).drop_first() =~= s@.skip(a + 1));
        a = a + 1;
    }
    let ghost st = s@.skip(a as int);
    assert(trim_start(st) == st);
    let mut b: usize = n;
    assert(st.take(n - a) =~= st);
    while b > a && is_whitespace(cs[b - 1])
        invariant
            n == cs@.len(),
            cs@ == s@,
            a <= b <= n,
            st == s@.skip(a as int),
            trim_end(st) == trim_end(st.take(b - a)),
        decreases b,
    {
        assert(st.take(b - a).drop_last() =~= st.take(b - 1 - a));
        assert(st.take(b - a).last() == cs@[b - 1]);
        b = b - 1;
    }
    assert(st.take(b - a).len() == 0 || !is_ws(st.take(b - a).last()));
    let mut out = String::new();
    append_chars(&mut out, &cs, a, b);
    assert(cs@.subrange(a as int, b as int) =~= st.take(b - a));
    assert(out@ =~= Seq::<char>::empty() + cs@.subrange(a as int, b as int));
    out
}

} // verus!

verus! {

/// Whether `s` holds no `\n`.
pub open spec fn single_line(s: Seq<char>) -> bool {
    forall|k: int| 0 <= k < s.len() ==> s[k] != '\n'
}

proof fn lemma_split_single_line(y: Seq<char>)
    requires
        single_line(y),
    ensures
        split_on(y, '\n') == seq![y],
    decreases y.len(),
{
    if y.len() == 0 {
        assert(y =~= Seq::<char>::empty());
    } else {
        lemma_split_single_line(y.drop_last());
        assert(y.drop_last().push(y.last()) =~= y);
    }
}

proof fn lemma_split_after_newline(x: Seq<char>, y: Seq<char>)
    requires
        single_line(y),
    ensures
        split_on(x + seq!['\n'] + y, '\n') == split_on(x, '\n').push(y),
    decreases y.len(),
{
    let s = x + seq!['\n'] + y;
    if y.len() == 0 {
        assert(s.drop_last() =~= x);
        assert(y =~= Seq::<char>::empty());
    } else {
        assert(s.drop_last() =~= x + seq!['\n'] + y.drop_last());
        lemma_split_after_newline(x, y.drop_last());
        assert(y.drop_last().push(y.last()) =~= y);
        assert(split_on(x, '\n').push(y.drop_last()).update(split_on(x, '\n').len() as int, y) =~= split_on(x, '\n').push(y));
    }
}

/// Splitting at `\n` a list of single lines joined by `\n` gives the list back.
proof fn lemma_split_join(d: Seq<Seq<char>>)
    requires
        d.len() >= 1,
        forall|i: int| 0 <= i < d.len() ==> single_line(#[trigger] d[i]),
    ensures
        split_on(join(d, seq!['\n']), '\n') == d,
    decreases d.len(),
{
    if d.len() == 1 {
        lemma_split_single_line(d[0]);
        assert(seq![d[0]] =~= d);
    } else {
        let p = d.drop_last();
        assert forall|i: int| 0 <= i < p.len() implies single_line(#[trigger] p[i]) by {
            assert(p[i] == d[i]);
        }
        lemma_split_join(p);
        lemma_split_after_newline(join(p, seq!['\n']), d.last());
        assert(p.push(d.last()) =~= d);
    }
}

/// A line that `indent_line` and `lines` leave as it is: one line, not blank, not ending
/// with `\r`.
pub open spec fn plain_line(l: Seq<char>) -> bool {
    &&& single_line(l)
    &&& !is_blank(l)
    &&& l.last() != '\r'
}

/// Indenting plain lines joined by `\n` indents each of them.
pub proof fn lemma_indent_join(d: Seq<Seq<char>>, n: nat)
    requires
        forall|i: int| 0 <= i < d.len() ==> plain_line(#[trigger] d[i]),
    ensures
        spec_indent(join(d, seq!['\n']), n) == join(d.map_values(|l: Seq<char>| spaces(n) + l), seq!['\n']),
{
    let f = |l: Seq<char>| indent_line(l, n);
    if d.len() == 0 {
        assert(split_on(join(d, seq!['\n']), '\n') =~= seq![Seq::<char>::empty()]);
        assert(lines(join(d, seq!['\n'])) =~= Seq::<Seq<char>>::empty());
        assert(d.map_values(|l: Seq<char>| spaces(n) + l) =~= Seq::<Seq<char>>::empty());
        assert(lines(join(d, seq!['\n'])).map_values(f) =~= Seq::<Seq<char>>::empty());
    } else {
        assert forall|i: int| 0 <= i < d.len() implies single_line(#[trigger] d[i]) by {
            assert(plain_line(d[i]));
        }
        lemma_split_join(d);
        let parts = split_on(join(d, seq!['\n']), '\n');
        assert forall|i: int| 0 <= i < d.len() implies d[i].len() > 0 by {
            assert(plain_line(d[i]));
            if d[i].len() == 0 {
                assert(is_blank(d[i]));
            }
        }
        assert(parts.take(d.len() - 1).map_values(|l: Seq<char>| strip_cr(l)) =~= d.take(d.len() - 1));
        assert(lines(join(d, seq!['\n'])) =~= d);
        assert forall|i: int| 0 <= i < d.len() implies #[trigger] f(d[i]) == spaces(n) + d[i] by {
            assert(plain_line(d[i]));
        }
        assert(d.map_values(f) =~= d.map_values(|l: Seq<char>| spaces(n) + l));
    }
}

/// Where the `i`-th part starts in `join(e, sep)`.
pub open spec fn join_pos(e: Seq<Seq<char>>, sep: Seq<char>, i: int) -> int {
    if i == 0 {
        0
    } else {
        (join(e.take(i), sep).len() + sep.len()) as int
    }
}

proof fn lemma_join_prefix(e: Seq<Seq<char>>, sep: Seq<char>, k: int)
    requires
        1 <= k <= e.len(),
    ensures
        join(e.take(k), sep).len() <= join(e, sep).len(),
        join(e, sep).take(join(e.take(k), sep).len() as int) == join(e.take(k), sep),
    decreases e.len(),
{
    if k == e.len() {
        assert(e.take(k) =~= e);
    } else {
        let p = e.drop_last();
        assert(p.take(k) =~= e.take(k));
        lemma_join_prefix(p, sep, k);
        let a = join(p, sep);
        let b = join(e.take(k), sep);
        assert(join(e, sep) == a + sep + e.last());
        assert((a + sep + e.last()).take(b.len() as int) =~= a.take(b.len() as int));
    }
}

proof fn lemma_join_occurs(e: Seq<Seq<char>>, sep: Seq<char>, i: int)
    requires
        0 <= i < e.len(),
    ensures
        occurs_at(join(e, sep), e[i], join_pos(e, sep, i)),
        join(e.take(i + 1), sep).len() == join_pos(e, sep, i) + e[i].len(),
{
    let t = e.take(i + 1);
    if i == 0 {
        assert(join(t, sep) == e[0]);
    } else {
        assert(t.drop_last() =~= e.take(i));
        assert(join(t, sep) == join(e.take(i), sep) + sep + e[i]);
    }
    let w = join(t, sep);
    assert(w.subrange(join_pos(e, sep, i), join_pos(e, sep, i) + e[i].len()) =~= e[i]);
    lemma_join_prefix(e, sep, i + 1);
    assert(join(e, sep).subrange(join_pos(e, sep, i), join_pos(e, sep, i) + e[i].len())
        =~= w.subrange(join_pos(e, sep, i), join_pos(e, sep, i) + e[i].len()));
}

/// Whether `pos` gives where each part starts in `s`, one after another without overlaps.
pub open spec fn in_order_at(s: Seq<char>, parts: Seq<Seq<char>>, pos: Seq<int>) -> bool {
    &&& pos.len() == parts.len()
    &&& forall|i: int| 0 <= i < parts.len() ==> #[trigger] occurs_at(s, parts[i], pos[i])
    &&& forall|i: int, j: int|
        #![trigger pos[i], pos[j]]
        0 <= i < j < parts.len() ==> pos[i] + parts[i].len() <= pos[j]
}

/// Whether the parts occur in `s` one after another, without overlapping.
pub open spec fn occurs_in_order(s: Seq<char>, parts: Seq<Seq<char>>) -> bool {
    exists|pos: Seq<int>| #[trigger] in_order_at(s, parts, pos)
}

/// The parts of a join occur in it in order.
pub proof fn lemma_join_in_order(e: Seq<Seq<char>>, sep: Seq<char>)
    ensures
        occurs_in_order(join(e, sep), e),
{
    let pos = Seq::new(e.len(), |i: int| join_pos(e, sep, i));
    assert forall|i: int| 0 <= i < e.len() implies #[trigger] occurs_at(join(e, sep), e[i], pos[i]) by {
        lemma_join_occurs(e, sep, i);
    }
    assert forall|i: int, j: int| #![trigger pos[i], pos[j]] 0 <= i < j < e.len() implies pos[i] + e[i].len() <= pos[j] by {
        lemma_join_occurs(e, sep, i);
        let t = e.take(j);
        assert(t.take(i + 1) =~= e.take(i + 1));
        lemma_join_prefix(t, sep, i + 1);
    }
    assert(in_order_at(join(e, sep), e, pos));
}

/// Parts that occur in order in `x` occur in order in `a + x + b`.
pub proof fn lemma_in_order_within(a: Seq<char>, x: Seq<char>, b: Seq<char>, parts: Seq<Seq<char>>)
    requires
        occurs_in_order(x, parts),
    ensures
        occurs_in_order(a + x + b, parts),
{
    let pos = choose|pos: Seq<int>| in_order_at(x, parts, pos);
    let q = Seq::new(pos.len(), |i: int| pos[i] + a.len());
    assert forall|i: int| 0 <= i < parts.len() implies #[trigger] occurs_at(a + x + b, parts[i], q[i]) by {
        assert(occurs_at(x, parts[i], pos[i]));
        assert((a + x + b).subrange(q[i], q[i] + parts[i].len()) =~= x.subrange(pos[i], pos[i] + parts[i].len()));
    }
    assert forall|i: int, j: int| #![trigger q[i], q[j]] 0 <= i < j < parts.len() implies q[i] + parts[i].len() <= q[j] by {
        assert(pos[i] + parts[i].len() <= pos[j]);
    }
    assert(in_order_at(a + x + b, parts, q));
}

/// Parts that occur in order behind a common prefix occur in order themselves.
pub proof fn lemma_in_order_unprefixed(s: Seq<char>, p: Seq<char>, parts: Seq<Seq<char>>)
    requires
        occurs_in_order(s, parts.map_values(|l: Seq<char>| p + l)),
    ensures
        occurs_in_order(s, parts),
{
    let pp = parts.map_values(|l: Seq<char>| p + l);
    let pos = choose|pos: Seq<int>| in_order_at(s, pp, pos);
    let q = Seq::new(pos.len(), |i: int| pos[i] + p.len());
    assert forall|i: int| 0 <= i < parts.len() implies #[trigger] occurs_at(s, parts[i], q[i]) by {
        assert(occurs_at(s, pp[i], pos[i]));
        assert(pp[i] == p + parts[i]);
        assert(s.subrange(q[i], q[i] + parts[i].len()) =~= pp[i].subrange(p.len() as int, pp[i].len() as int));
        assert(pp[i].subrange(p.len() as int, pp[i].len() as int) =~= parts[i]);
    }
    assert forall|i: int, j: int| #![trigger q[i], q[j]] 0 <= i < j < parts.len() implies q[i] + parts[i].len() <= q[j] by {
        assert(pos[i] + pp[i].len() <= pos[j]);
    }
    assert(in_order_at(s, parts, q));
}

/// `p` occurs in `a + p + b` right after `a`.
pub proof fn lemma_occurs_between(a: Seq<char>, p: Seq<char>, b: Seq<char>)
    ensures
        occurs_at(a + p + b, p, a.len() as int),
        contains_sub(a + p + b, p),
{
    assert((a + p + b).subrange(a.len() as int, (a.len() + p.len()) as int) =~= p);
}


/// Whether `s` holds no `c`.
pub open spec fn lacks(s: Seq<char>, c: char) -> bool {
    forall|k: int| 0 <= k < s.len() ==> s[k] != c
}

proof fn lemma_split_first(l: Seq<char>, r: Seq<char>)
    requires
        single_line(l),
    ensures
        split_on(l + seq!['\n'] + r, '\n').len() >= 2,
        split_on(l + seq!['\n'] + r, '\n')[0] == l,
    decreases r.len(),
{
    let s = l + seq!['\n'] + r;
    if r.len() == 0 {
        assert(s.drop_last() =~= l);
        lemma_split_single_line(l);
    } else {
        assert(s.drop_last() =~= l + seq!['\n'] + r.drop_last());
        lemma_split_first(l, r.drop_last());
    }
}

/// The first line of an indented text, where the text goes on after it.
pub proof fn lemma_indent_first_line(l: Seq<char>, r: Seq<char>, n: nat)
    requires
        plain_line(l),
    ensures
        spec_indent(l + seq!['\n'] + r, n).len() >= n + l.len(),
        spec_indent(l + seq!['\n'] + r, n).take((n + l.len()) as int) == spaces(n) + l,
{
    let s = l + seq!['\n'] + r;
    lemma_split_first(l, r);
    let parts = split_on(s, '\n');
    if l.len() == 0 {
        assert(is_blank(l));
    }
    assert(strip_cr(parts[0]) == l);
    let ls = lines(s);
    assert(ls[0] == l);
    let f = |x: Seq<char>| indent_line(x, n);
    let m = ls.map_values(f);
    assert(m[0] == spaces(n) + l);
    lemma_join_prefix(m, seq!['\n'], 1);
    assert(join(m.take(1), seq!['\n']) == m[0]);
}


/// No parts occur in order anywhere.
pub proof fn lemma_in_order_empty(s: Seq<char>)
    ensures
        occurs_in_order(s, Seq::empty()),
{
    assert(in_order_at(s, Seq::empty(), Seq::empty()));
}

/// Parts that occur in order in `a`, then parts that occur in order in `b`, occur in order
/// in `a + m + b`.
pub proof fn lemma_in_order_concat(a: Seq<char>, m: Seq<char>, b: Seq<char>, pa: Seq<Seq<char>>, pb: Seq<Seq<char>>)
    requires
        occurs_in_order(a, pa),
        occurs_in_order(b, pb),
    ensures
        occurs_in_order(a + m + b, pa + pb),
{
    let p = choose|p: Seq<int>| in_order_at(a, pa, p);
    let q = choose|q: Seq<int>| in_order_at(b, pb, q);
    let s = a + m + b;
    let parts = pa + pb;
    let off = a.len() + m.len();
    let r = p + Seq::new(q.len(), |j: int| q[j] + off);
    assert forall|i: int| 0 <= i < parts.len() implies #[trigger] occurs_at(s, parts[i], r[i]) by {
        if i < pa.len() {
            assert(occurs_at(a, pa[i], p[i]));
            assert(parts[i] == pa[i]);
            assert(r[i] == p[i]);
            assert(s.subrange(r[i], r[i] + parts[i].len()) =~= a.subrange(p[i], p[i] + pa[i].len()));
        } else {
            let j = i - pa.len();
            assert(occurs_at(b, pb[j], q[j]));
            assert(parts[i] == pb[j]);
            assert(r[i] == q[j] + off);
            assert(s.subrange(r[i], r[i] + parts[i].len()) =~= b.subrange(q[j], q[j] + pb[j].len()));
        }
    }
    assert forall|i: int, j: int| #![trigger r[i], r[j]] 0 <= i < j < parts.len() implies r[i] + parts[i].len() <= r[j] by {
        if j < pa.len() {
            assert(p[i] + pa[i].len() <= p[j]);
        } else if i >= pa.len() {
            let i2 = i - pa.len();
            let j2 = j - pa.len();
            assert(q[i2] + pb[i2].len() <= q[j2]);
        } else {
            assert(occurs_at(a, pa[i], p[i]));
            assert(occurs_at(b, pb[j - pa.len()], q[j - pa.len()]));
        }
    }
    assert(in_order_at(s, parts, r));
}

} // verus!
