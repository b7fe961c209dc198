//! Identifier case conversions (`snake_case`, `kebab_case`, `flat_case`, `pascal_case`).
//!
//! A word is a maximal run of ASCII letters and digits; a new word also starts at an
//! uppercase letter that follows a lowercase letter or a digit. Other characters only
//! separate words and are dropped.
use vstd::prelude::*;
use crate::text::push_char;

verus! {

pub open spec fn is_upper(c: char) -> bool {
    'A' <= c && c <= 'Z'
}

pub open spec fn is_lower(c: char) -> bool {
    'a' <= c && c <= 'z'
}

pub open spec fn is_digit(c: char) -> bool {
    '0' <= c && c <= '9'
}

pub open spec fn is_alnum(c: char) -> bool {
    is_upper(c) || is_lower(c) || is_digit(c)
}

pub open spec fn to_lower(c: char) -> char {
    if is_upper(c) {
        ((c as u32) + 32) as char
    } else {
        c
    }
}

pub open spec fn to_upper(c: char) -> char {
    if is_lower(c) {
        ((c as u32) - 32) as char
    } else {
        c
    }
}

/// Whether the character at `i` begins a word.
pub open spec fn starts_word(cs: Seq<char>, i: int) -> bool {
    &&& is_alnum(cs[i])
    &&& (i == 0 || !is_alnum(cs[i - 1]) || (is_upper(cs[i]) && (is_lower(cs[i - 1]) || is_digit(
        cs[i - 1],
    ))))
}

/// Whether `cs` holds a letter or digit.
pub open spec fn has_alnum(cs: Seq<char>) -> bool {
    exists|j: int| 0 <= j < cs.len() && #[trigger] is_alnum(cs[j])
}

/// The words of `cs`, with `sep` between consecutive words; each character lowercased,
/// except that with `capitalize` the first character of each word is uppercased.
pub open spec fn cased(cs: Seq<char>, sep: Seq<char>, capitalize: bool) -> Seq<char>
    decreases cs.len(),
{
    if cs.len() == 0 {
        Seq::empty()
    } else {
        let i = cs.len() - 1;
        let prev = cased(cs.drop_last(), sep, capitalize);
        if !is_alnum(cs[i]) {
            prev
        } else {
            let pre = if starts_word(cs, i) && has_alnum(cs.drop_last()) {
                sep
            } else {
                Seq::empty()
            };
            let c = if capitalize && starts_word(cs, i) {
                to_upper(cs[i])
            } else {
                to_lower(cs[i])
            };
            prev + pre + seq![c]
        }
    }
}

pub open spec fn spec_snake_case(s: Seq<char>) -> Seq<char> {
    cased(s, seq!['_'], false)
}

pub open spec fn spec_kebab_case(s: Seq<char>) -> Seq<char> {
    cased(s, seq!['-'], false)
}

pub open spec fn spec_flat_case(s: Seq<char>) -> Seq<char> {
    cased(s, Seq::empty(), false)
}

pub open spec fn spec_pascal_case(s: Seq<char>) -> Seq<char> {
    cased(s, Seq::empty(), true)
}

fn char_is_upper(c: char) -> (r: bool)
    ensures
        r == is_upper(c),
{
    'A' <= c && c <= 'Z'
}

fn char_is_lower(c: char) -> (r: bool)
    ensures
        r == is_lower(c),
{
    'a' <= c && c <= 'z'
}

fn char_is_digit(c: char) -> (r: bool)
    ensures
        r == is_digit(c),
{
    '0' <= c && c <= '9'
}

fn char_is_alnum(c: char) -> (r: bool)
    ensures
        r == is_alnum(c),
{
    char_is_upper(c) || char_is_lower(c) || char_is_digit(c)
}

/// ASCII lowercase of a character: `A`..=`Z` shifted by 32, anything else unchanged.
fn char_to_lower(c: char) -> (r: char)
    ensures
        r == to_lower(c),
{
    if char_is_upper(c) {
        let b: u8 = ((c as u32) + 32) as u8;
        b as char
    } else {
        c
    }
}

/// ASCII uppercase of a character: `a`..=`z` shifted by 32, anything else unchanged.
fn char_to_upper(c: char) -> (r: char)
    ensures
        r == to_upper(c),
{
    if char_is_lower(c) {
        let b: u8 = ((c as u32) - 32) as u8;
        b as char
    } else {
        c
    }
}

fn convert_case(s: &str, sep: &str, capitalize: bool) -> (res: String)
    ensures
        res@ == cased(s@, sep@, capitalize),
{
    let cs = crate::text::to_chars(s);
    let n = cs.len();
    let mut out = String::new();
    let mut seen = false;
    let mut i: usize = 0;
    while i < n
        invariant
            n == cs@.len(),
            cs@ == s@,
            i <= n,
            seen == has_alnum(cs@.take(i as int)),
            out@ == cased(cs@.take(i as int), sep@, capitalize),
        decreases n - i,
    {
        let c = cs[i];
        let ghost t = cs@.take(i + 1);
        assert(t.drop_last() =~= cs@.take(i as int));
        assert(t[i as int] == c);
        assert(i > 0 ==> t[i - 1] == cs@[i - 1]);
        if char_is_alnum(c) {
            let starts = i == 0 || !char_is_alnum(cs[i - 1]) || (char_is_upper(c) && (char_is_lower(
                cs[i - 1],
            ) || char_is_digit(cs[i - 1])));
            assert(starts == starts_word(t, i as int));
            if starts && seen {
                out.append(sep);
            }
            if capitalize && starts {
                push_char(&mut out, char_to_upper(c));
            } else {
                push_char(&mut out, char_to_lower(c));
            }
            proof {
                assert(is_alnum(t[i as int]));
                assert(has_alnum(t));
            }
            seen = true;
        } else {
            proof {
                if has_alnum(t) {
                    let j = choose|j: int| 0 <= j < t.len() && #[trigger] is_alnum(t[j]);
                    assert(j < i);
                    assert(cs@.take(i as int)[j] == t[j]);
                }
                if seen {
                    let j = choose|j: int| 0 <= j < i && #[trigger] is_alnum(cs@.take(i as int)[j]);
                    assert(t[j] == cs@.take(i as int)[j]);
                }
            }
        }
        i = i + 1;
        assert(seen == has_alnum(cs@.take(i as int))) by {
            if seen {
                if !has_alnum(t) {
                    if has_alnum(cs@.take(i - 1)) {
                        let j = choose|j: int| 0 <= j < i - 1 && #[trigger] is_alnum(cs@.take(i - 1)[j]);
                        assert(t[j] == cs@.take(i - 1)[j]);
                    } else {
                        assert(is_alnum(t[i - 1]));
                    }
                }
            }
        }
    }
    assert(cs@.take(n as int) =~= s@);
    out
}

/// `snake_case`: the words lowercased and joined by `_` (eg. `CrabyTest` -> `craby_test`).
pub fn snake_case(s: &str) -> (res: String)
    ensures
        res@ == spec_snake_case(s@),
{
    let r = convert_case(s, "_", false);
    proof {
        reveal_strlit("_");
        assert("_"@ =~= seq!['_']);
    }
    r
}

/// `kebab-case`: the words lowercased and joined by `-` (eg. `CrabyTest` -> `craby-test`).
pub fn kebab_case(s: &str) -> (res: String)
    ensures
        res@ == spec_kebab_case(s@),
{
    let r = convert_case(s, "-", false);
    proof {
        reveal_strlit("-");
        assert("-"@ =~= seq!['-']);
    }
    r
}

/// `flatcase`: the words lowercased and joined (eg. `CrabyTest` -> `crabytest`).
pub fn flat_case(s: &str) -> (res: String)
    ensures
        res@ == spec_flat_case(s@),
{
    let r = convert_case(s, "", false);
    proof {
        reveal_strlit("");
        assert(""@ =~= Seq::<char>::empty());
    }
    r
}

/// `PascalCase`: each word capitalized, the rest lowercased, joined (eg. `craby_test` ->
/// `CrabyTest`).
pub fn pascal_case(s: &str) -> (res: String)
    ensures
        res@ == spec_pascal_case(s@),
{
    let r = convert_case(s, "", true);
    proof {
        reveal_strlit("");
        assert(""@ =~= Seq::<char>::empty());
    }
    r
}

} // verus!
