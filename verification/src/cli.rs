//! What the command line tool decides: the banner of generated files, the schema hash
//! recorded in `generated.rs`, the answers the `init` prompts accept, the names a new project
//! is rendered with, and the `.gitignore` entries it adds.
use vstd::prelude::*;
use vstd::string::*;
use std::hash::Hasher;
use crate::text::{
    contains_str, contains_sub, copy_str, join, lines, occurs_at, replace_all, replace_str,
    lemma_split_on_nonempty, split_on, split_str, starts_with, starts_with_str, strip_cr, to_chars, trim, trim_end,
    trim_start, trim_str, views,
};
use crate::naming::{hash_command_prefix, spec_generated_comment, spec_hash_command_prefix, generated_comment};

verus! {

/// What a prompt makes of an answer.
#[derive(Debug)]
pub enum Validation {
    Valid,
    /// Refused, with the message shown to the user.
    Invalid(String),
}

/// Errors of the command line tool's checks.
#[derive(Debug)]
pub enum CliError {
    /// The schemas' hash differs from the one recorded in `generated.rs`.
    HashMismatch { current: String, expected: String },
}

/// The answer of a check that passed.
pub enum Status {
    Passed,
}

/// Whether `c` is an ASCII lowercase letter.
pub open spec fn is_ascii_lower(c: char) -> bool {
    'a' <= c && c <= 'z'
}

/// Checks a crate name: not empty, and only lowercase ASCII letters and underscores.
#[derive(Clone, Copy)]
pub struct CrateNameValidator;

/// What the crate name prompt makes of an answer.
pub open spec fn spec_validate_crate_name(v: Seq<char>) -> Result<(), Seq<char>> {
    if v.len() == 0 {
        Err("Crate name cannot be empty"@)
    } else if !(forall|i: int| 0 <= i < v.len() ==> is_ascii_lower(#[trigger] v[i]) || v[i] == '_') {
        Err("Crate name must contain only lowercase letters and underscores"@)
    } else {
        Ok(())
    }
}

/// The view of a validation: `Ok` or the refusal's message.
pub open spec fn validation_view(v: Validation) -> Result<(), Seq<char>> {
    match v {
        Validation::Valid => Ok(()),
        Validation::Invalid(m) => Err(m@),
    }
}

impl CrateNameValidator {
    pub fn validate(&self, v: &str) -> (r: Validation)
        ensures
            validation_view(r) == spec_validate_crate_name(v@),
    {
        let cs = to_chars(v);
        if cs.len() == 0 {
            return Validation::Invalid(String::from_str("Crate name cannot be empty"));
        }
        let mut i: usize = 0;
        while i < cs.len()
            invariant
                cs@ == v@,
                i <= cs@.len(),
                forall|j: int| 0 <= j < i ==> is_ascii_lower(#[trigger] cs@[j]) || cs@[j] == '_',
            decreases cs@.len() - i,
        {
            let c = cs[i];
            if !(('a' <= c && c <= 'z') || c == '_') {
                return Validation::Invalid(
                    String::from_str("Crate name must contain only lowercase letters and underscores"),
                );
            }
            i = i + 1;
        }
        Validation::Valid
    }
}

/// What a required prompt makes of an answer: refused when blank.
pub open spec fn spec_validate_required(v: Seq<char>) -> Result<(), Seq<char>> {
    if trim(v).len() == 0 {
        Err("This field is required."@)
    } else {
        Ok(())
    }
}

/// Checks that a required answer is not blank.
pub fn validate_required(input: &str) -> (r: Validation)
    ensures
        validation_view(r) == spec_validate_required(input@),
{
    let t = trim_str(input);
    if t.unicode_len() == 0 {
        Validation::Invalid(String::from_str("This field is required."))
    } else {
        Validation::Valid
    }
}

/// Whether `email_address` accepts a text as an email address.
pub uninterp spec fn is_email_address(text: Seq<char>) -> bool;

/// `email_address::EmailAddress::is_valid`: whether the text parses as an email address.
#[verifier::external_body]
fn email_is_valid(text: &str) -> (r: bool)
    ensures
        r == is_email_address(text@),
{
    email_address::EmailAddress::is_valid(text)
}

/// Checks an email answer.
pub fn validate_email(input: &str) -> (r: Validation)
    ensures
        validation_view(r) == (if is_email_address(input@) {
            Ok::<(), Seq<char>>(())
        } else {
            Err("Invalid email address."@)
        }),
{
    if email_is_valid(input) {
        Validation::Valid
    } else {
        Validation::Invalid(String::from_str("Invalid email address."))
    }
}

/// Whether `url` parses a text as an absolute URL.
pub uninterp spec fn is_url(text: Seq<char>) -> bool;

/// `url::Url::parse(text).is_ok()`.
#[verifier::external_body]
fn url_parses(text: &str) -> (r: bool)
    ensures
        r == is_url(text@),
{
    url::Url::parse(text).is_ok()
}

/// Checks a URL answer.
pub fn validate_url(input: &str) -> (r: Validation)
    ensures
        validation_view(r) == (if is_url(input@) {
            Ok::<(), Seq<char>>(())
        } else {
            Err("Invalid URL."@)
        }),
{
    if url_parses(input) {
        Validation::Valid
    } else {
        Validation::Invalid(String::from_str("Invalid URL."))
    }
}

/// A generated file as written: with the banner comment where its extension takes one
/// (`rs`, `cpp`, `hpp`, `mm`: `//`; `txt`: `#`), and a final newline.
pub open spec fn spec_with_generated_comment(ext: Option<Seq<char>>, code: Seq<char>) -> Seq<char> {
    match ext {
        Some(e) => if e == "rs"@ || e == "cpp"@ || e == "hpp"@ || e == "mm"@ {
            "// "@ + spec_generated_comment() + "\n"@ + code + "\n"@
        } else if e == "txt"@ {
            "# "@ + spec_generated_comment() + "\n"@ + code + "\n"@
        } else {
            code + "\n"@
        },
        None => code + "\n"@,
    }
}

/// A generated file with the banner comment its extension takes.
pub fn with_generated_comment(ext: Option<&str>, code: &str) -> (r: String)
    ensures
        r@ == spec_with_generated_comment(
            match ext {
                Some(e) => Some(e@),
                None => None,
            },
            code@,
        ),
{
    match ext {
        Some(e) => {
            let line = if crate::text::str_eq(e, "rs") || crate::text::str_eq(e, "cpp") || crate::text::str_eq(e, "hpp")
                || crate::text::str_eq(e, "mm") {
                Some("// ")
            } else if crate::text::str_eq(e, "txt") {
                Some("# ")
            } else {
                None
            };
            match line {
                Some(lead) => {
                    let mut r = String::from_str(lead);
                    let c = generated_comment();
                    r.append(c.as_str());
                    r.append("\n");
                    r.append(code);
                    r.append("\n");
                    r
                },
                None => without_generated_comment(code),
            }
        },
        None => without_generated_comment(code),
    }
}

/// A file written without a banner: the code and a final newline.
pub fn without_generated_comment(code: &str) -> (r: String)
    ensures
        r@ == code@ + "\n"@,
{
    let mut r = String::from_str(code);
    r.append("\n");
    r
}

/// The text up to the first occurrence of `p` (all of it where `p` does not occur).
pub open spec fn until_sub(s: Seq<char>, p: Seq<char>) -> Seq<char>
    decreases s.len(),
{
    if s.len() == 0 {
        s
    } else if p.len() > 0 && starts_with(s, p) {
        Seq::empty()
    } else {
        seq![s[0]] + until_sub(s.drop_first(), p)
    }
}

/// Whether some line of `src` starts with the hash prefix.
pub open spec fn has_hash_line(src: Seq<char>) -> bool {
    exists|k: int| 0 <= k < lines(src).len() && starts_with(#[trigger] lines(src)[k], spec_hash_command_prefix())
}

/// The first line of `src` that starts with the hash prefix.
pub open spec fn first_hash_line(src: Seq<char>) -> Seq<char> {
    let k = choose|k: int|
        0 <= k < lines(src).len() && starts_with(#[trigger] lines(src)[k], spec_hash_command_prefix()) && forall|j: int|
            0 <= j < k ==> !starts_with(#[trigger] lines(src)[j], spec_hash_command_prefix());
    lines(src)[k]
}

/// The hash that `generated.rs` records: on its first line that starts with the prefix,
/// the text after the prefix up to any further prefix, trimmed.
pub open spec fn spec_hash_from_src(src: Seq<char>) -> Seq<char> {
    let line = first_hash_line(src);
    trim(until_sub(line.skip(spec_hash_command_prefix().len() as int), spec_hash_command_prefix()))
}

/// The text of `s` up to the first occurrence of `p`.
fn until_str(s: &str, p: &str) -> (r: String)
    requires
        p@.len() > 0,
    ensures
        r@ == until_sub(s@, p@),
{
    let cs = to_chars(s);
    let ps = to_chars(p);
    let n = cs.len();
    let mut out = String::new();
    let mut i: usize = 0;
    assert(cs@.skip(0) =~= cs@);
    while i < n
        invariant_except_break
            n == cs@.len(),
            cs@ == s@,
            ps@ == p@,
            p@.len() > 0,
            i <= n,
            out@ + until_sub(cs@.skip(i as int), p@) == until_sub(s@, p@),
        ensures
            out@ == until_sub(s@, p@),
        decreases n - i,
    {
        let ghost rest = cs@.skip(i as int);
        if crate::text::matches_at(&cs, &ps, i) {
            assert(out@ + Seq::<char>::empty() =~= out@);
            break;
        }
        assert(rest.drop_first() =~= cs@.skip(i + 1));
        assert(out@ + (seq![rest[0]] + until_sub(rest.drop_first(), p@)) =~= out@.push(cs@[i as int]) + until_sub(cs@.skip(i + 1), p@));
        crate::text::push_char(&mut out, cs[i]);
        i = i + 1;
        if i == n {
            assert(cs@.skip(n as int) =~= Seq::<char>::empty());
            assert(out@ + Seq::<char>::empty() =~= out@);
        }
    }
    out
}

/// The lines of `s`, as `str::lines` yields them.
pub fn lines_of(s: &str) -> (r: Vec<String>)
    ensures
        views(r@) == lines(s@),
{
    let parts = split_str(s, '\n');
    let ghost ps = split_on(s@, '\n');
    proof {
        lemma_split_on_nonempty(s@, '\n');
    }
    let n = parts.len();
    let mut out: Vec<String> = Vec::new();
    let mut i: usize = 0;
    while i + 1 < n
        invariant
            n == parts@.len(),
            n >= 1,
            views(parts@) == ps,
            ps == split_on(s@, '\n'),
            i <= n - 1,
            views(out@) == ps.take(i as int).map_values(|l: Seq<char>| strip_cr(l)),
        decreases n - i,
    {
        let p = &parts[i];
        assert(ps[i as int] == parts@[i as int]@);
        let cs = to_chars(p.as_str());
        let m = cs.len();
        let mut line = String::new();
        if m > 0 && cs[m - 1] == '\r' {
            crate::text::append_chars(&mut line, &cs, 0, m - 1);
            assert(line@ =~= strip_cr(ps[i as int]));
        } else {
            crate::text::append_chars(&mut line, &cs, 0, m);
            assert(line@ =~= strip_cr(ps[i as int]));
        }
        let ghost b = views(out@);
        let ghost lv = line@;
        out.push(line);
        assert(views(out@) =~= b.push(lv));
        assert(ps.take(i + 1).map_values(|l: Seq<char>| strip_cr(l)) =~= ps.take(i as int).map_values(
            |l: Seq<char>| strip_cr(l),
        ).push(strip_cr(ps[i as int])));
        i = i + 1;
    }
    let last = &parts[n - 1];
    if last.unicode_len() > 0 {
        let ghost b = views(out@);
        out.push(copy_str(last.as_str()));
        assert(views(out@) =~= b.push(ps[n - 1]));
    }
    out
}

/// Whether some line of `src` starts with the hash prefix.
pub fn hash_line_present(src: &str) -> (r: bool)
    ensures
        r == has_hash_line(src@),
{
    let ls = lines_of(src);
    let prefix = hash_command_prefix();
    let mut k: usize = 0;
    while k < ls.len()
        invariant
            views(ls@) == lines(src@),
            prefix@ == spec_hash_command_prefix(),
            k <= ls@.len(),
            forall|j: int| 0 <= j < k ==> !starts_with(#[trigger] lines(src@)[j], spec_hash_command_prefix()),
        decreases ls@.len() - k,
    {
        assert(lines(src@)[k as int] == ls@[k as int]@);
        if starts_with_str(ls[k].as_str(), prefix.as_str()) {
            return true;
        }
        k = k + 1;
    }
    false
}

/// The schema hash recorded in a `generated.rs` (which must hold a hash line).
pub fn get_hash_from_src(src: &str) -> (r: String)
    requires
        has_hash_line(src@),
    ensures
        r@ == spec_hash_from_src(src@),
{
    let ls = lines_of(src);
    let prefix = hash_command_prefix();
    proof {
        reveal_strlit("// Hash: ");
    }
    let mut k: usize = 0;
    while k < ls.len()
        invariant
            views(ls@) == lines(src@),
            prefix@ == spec_hash_command_prefix(),
            has_hash_line(src@),
            k <= ls@.len(),
            forall|j: int| 0 <= j < k ==> !starts_with(#[trigger] lines(src@)[j], spec_hash_command_prefix()),
        decreases ls@.len() - k,
    {
        assert(lines(src@)[k as int] == ls@[k as int]@);
        if starts_with_str(ls[k].as_str(), prefix.as_str()) {
            let line = &ls[k];
            let ghost kk = k as int;
            assert(first_hash_line(src@) == lines(src@)[kk]) by {
                let c = choose|c: int|
                    0 <= c < lines(src@).len() && starts_with(#[trigger] lines(src@)[c], spec_hash_command_prefix())
                        && forall|j: int| 0 <= j < c ==> !starts_with(#[trigger] lines(src@)[j], spec_hash_command_prefix());
                assert(c == kk) by {
                    if c < kk {
                    } else if c > kk {
                        assert(!starts_with(lines(src@)[kk], spec_hash_command_prefix()));
                    }
                }
            }
            proof {
                reveal_strlit("// Hash: ");
            }
            let cs = to_chars(line.as_str());
            let plen = prefix.unicode_len();
            let mut rest = String::new();
            crate::text::append_chars(&mut rest, &cs, plen, cs.len());
            assert(rest@ =~= line@.skip(plen as int));
            let piece = until_str(rest.as_str(), prefix.as_str());
            return trim_str(piece.as_str());
        }
        k = k + 1;
    }
    assert(false);
    String::new()
}

/// What XXH3 (64 bits, seed 0) gives for the UTF-8 bytes of a text.
pub uninterp spec fn xxh3_64_of(text: Seq<char>) -> u64;

/// Hashes the UTF-8 bytes of `text` with `xxhash_rust::xxh3::Xxh3` (a new hasher, one
/// `Hasher::write`, then `Hasher::finish`).
#[verifier::external_body]
fn xxh3_hash(text: &str) -> (r: u64)
    ensures
        r == xxh3_64_of(text@),
{
    let mut hasher = xxhash_rust::xxh3::Xxh3::new();
    hasher.write(text.as_bytes());
    hasher.finish()
}

/// The lowercase hexadecimal digit of `d` (`0..16`).
pub open spec fn hex_digit(d: nat) -> char {
    if d < 10 {
        ((48 + d) as u8) as char
    } else {
        ((87 + d) as u8) as char
    }
}

/// The last `n` hexadecimal digits of `v`, zero-padded.
pub open spec fn spec_hex(v: nat, n: nat) -> Seq<char>
    decreases n,
{
    if n == 0 {
        Seq::empty()
    } else {
        spec_hex(v / 16, (n - 1) as nat).push(hex_digit(v % 16))
    }
}

fn hex_char(d: u64) -> (c: char)
    requires
        d < 16,
    ensures
        c == hex_digit(d as nat),
{
    if d < 10 {
        ((48 + d) as u8) as char
    } else {
        ((87 + d) as u8) as char
    }
}

fn hex_digits(v: u64, n: usize) -> (r: String)
    ensures
        r@ == spec_hex(v as nat, n as nat),
    decreases n,
{
    if n == 0 {
        String::new()
    } else {
        let mut s = hex_digits(v / 16, n - 1);
        crate::text::push_char(&mut s, hex_char(v % 16));
        s
    }
}

/// The hash of serialized schemas as `generated.rs` records it: XXH3 of the text, as 16
/// lowercase hexadecimal digits (`{:016x}`).
pub fn schema_hash(serialized: &str) -> (r: String)
    ensures
        r@ == spec_hex(xxh3_64_of(serialized@) as nat, 16),
{
    let h = xxh3_hash(serialized);
    hex_digits(h, 16)
}

/// The value of a run of hexadecimal digits.
pub open spec fn hex_value(s: Seq<char>) -> nat
    decreases s.len(),
{
    if s.len() == 0 {
        0
    } else {
        hex_value(s.drop_last()) * 16 + if (s.last() as int) < 58 {
            ((s.last() as int) - 48) as nat
        } else {
            ((s.last() as int) - 87) as nat
        }
    }
}

pub open spec fn pow16(n: nat) -> nat
    decreases n,
{
    if n == 0 {
        1
    } else {
        16 * pow16((n - 1) as nat)
    }
}

proof fn lemma_hex_value(v: nat, n: nat)
    ensures
        spec_hex(v, n).len() == n,
        hex_value(spec_hex(v, n)) == v % pow16(n),
    decreases n,
{
    if n > 0 {
        lemma_hex_value(v / 16, (n - 1) as nat);
        let s = spec_hex(v, n);
        assert(s.drop_last() =~= spec_hex(v / 16, (n - 1) as nat));
        assert(pow16((n - 1) as nat) > 0) by {
            lemma_pow16_positive((n - 1) as nat);
        }
        vstd::arithmetic::div_mod::lemma_mod_breakdown(v as int, 16, pow16((n - 1) as nat) as int);
        assert(v % 16 < 16);
    }
}

proof fn lemma_pow16_positive(n: nat)
    ensures
        pow16(n) > 0,
    decreases n,
{
    if n > 0 {
        lemma_pow16_positive((n - 1) as nat);
    }
}

/// The recorded hash is 16 hexadecimal digits whose value is the hash.
pub proof fn lemma_schema_hash_digits(h: u64)
    ensures
        spec_hex(h as nat, 16).len() == 16,
        hex_value(spec_hex(h as nat, 16)) == h,
{
    lemma_hex_value(h as nat, 16);
    assert(pow16(16) == 0x1_0000_0000_0000_0000) by {
        reveal_with_fuel(pow16, 17);
    }
}

/// `generated.rs`'s code with the schema hash recorded on the line before it.
pub fn with_hash_line(hash: &str, code: &str) -> (r: String)
    ensures
        r@ == spec_hash_command_prefix() + hash@ + "\n"@ + code@,
{
    let mut r = hash_command_prefix();
    r.append(hash);
    r.append("\n");
    r.append(code);
    r
}

/// Compares the hash recorded in `generated.rs` with the hash of the current schemas
/// (serialized); `HashMismatch` where they differ.
pub fn validate_schema(generated_src: &str, serialized: &str) -> (r: Result<(), CliError>)
    requires
        has_hash_line(generated_src@),
    ensures
        r is Ok <==> spec_hash_from_src(generated_src@) == spec_hex(xxh3_64_of(serialized@) as nat, 16),
        r matches Err(CliError::HashMismatch { current, expected }) ==> current@ == spec_hex(
            xxh3_64_of(serialized@) as nat,
            16,
        ) && expected@ == spec_hash_from_src(generated_src@),
{
    let src_hash = get_hash_from_src(generated_src);
    let curr_hash = schema_hash(serialized);
    if crate::text::str_eq(src_hash.as_str(), curr_hash.as_str()) {
        Ok(())
    } else {
        Err(CliError::HashMismatch { current: curr_hash, expected: src_hash })
    }
}

} // verus!

verus! {

/// Options of `craby show`.
pub struct ShowOptions {
    pub project_root: String,
}

/// `craby show`: the number of modules to report. No specification source is read by this
/// command yet, so it finds none.
pub fn perform(opts: &ShowOptions) -> (r: Result<usize, CliError>)
    ensures
        r matches Ok(n) && n == 0,
{
    let schemas: Vec<String> = Vec::new();
    Ok(schemas.len())
}

/// The `android/build.gradle` lines the build guide shows for a module.
pub open spec fn spec_gradle_snippet(mod_name: Seq<char>) -> Seq<char> {
    "android {\n  externalNativeBuild {\n    // Add CMake build configuration\n    cmake {\n      path \"CMakeLists.txt\"\n      targets \"cxx-"@
        + crate::case::spec_kebab_case(mod_name) + "\"\n\n      // ...\n    }\n  }\n}"@
}

pub fn gradle_snippet(mod_name: &str) -> (r: String)
    ensures
        r@ == spec_gradle_snippet(mod_name@),
{
    let mut r = String::from_str(
        "android {\n  externalNativeBuild {\n    // Add CMake build configuration\n    cmake {\n      path \"CMakeLists.txt\"\n      targets \"cxx-",
    );
    let k = crate::case::kebab_case(mod_name);
    r.append(k.as_str());
    r.append("\"\n\n      // ...\n    }\n  }\n}");
    r
}

/// The podspec lines the build guide shows for a module.
pub open spec fn spec_podspec_snippet(mod_name: Seq<char>) -> Seq<char> {
    "Pod::Spec.new do |s|\n  # Add these lines\n  s.source_files = [\"ios/**/*.{h,m,mm,cc,cpp}\", \"cpp/**/*.{hpp,cpp}\"]\n  s.private_header_files = \"ios/include/*.h\"\n  s.vendored_frameworks = \"ios/framework/"@
        + crate::naming::spec_xcframework_name(mod_name) + "\"\nend"@
}

pub fn podspec_snippet(mod_name: &str) -> (r: String)
    ensures
        r@ == spec_podspec_snippet(mod_name@),
{
    let mut r = String::from_str(
        "Pod::Spec.new do |s|\n  # Add these lines\n  s.source_files = [\"ios/**/*.{h,m,mm,cc,cpp}\", \"cpp/**/*.{hpp,cpp}\"]\n  s.private_header_files = \"ios/include/*.h\"\n  s.vendored_frameworks = \"ios/framework/",
    );
    let x = crate::naming::xcframework_name(mod_name);
    r.append(x.as_str());
    r.append("\"\nend");
    r
}

} // verus!

verus! {

/// Whether `c` is an ASCII digit or lowercase letter.
pub open spec fn is_plain(c: char) -> bool {
    ('0' <= c && c <= '9') || ('a' <= c && c <= 'z')
}

proof fn lemma_split_without_newline(a: Seq<char>)
    requires
        forall|i: int| 0 <= i < a.len() ==> a[i] != '\n',
    ensures
        split_on(a, '\n') == seq![a],
    decreases a.len(),
{
    if a.len() > 0 {
        lemma_split_without_newline(a.drop_last());
        assert(a.drop_last().push(a.last()) =~= a);
    } else {
        assert(a =~= Seq::<char>::empty());
    }
}

proof fn lemma_split_at_newline(a: Seq<char>, b: Seq<char>)
    ensures
        split_on(a + seq!['\n'] + b, '\n') == split_on(a, '\n') + split_on(b, '\n'),
    decreases b.len(),
{
    let x = a + seq!['\n'];
    if b.len() == 0 {
        assert(x + b =~= x);
        assert(x.drop_last() =~= a);
        assert(split_on(a, '\n').push(Seq::empty()) =~= split_on(a, '\n') + seq![Seq::<char>::empty()]);
    } else {
        lemma_split_at_newline(a, b.drop_last());
        lemma_split_on_nonempty(b.drop_last(), '\n');
        assert((x + b).drop_last() =~= x + b.drop_last());
        assert((x + b).last() == b.last());
        let p1 = split_on(a, '\n');
        let p2 = split_on(b.drop_last(), '\n');
        if b.last() == '\n' {
            assert((p1 + p2).push(Seq::empty()) =~= p1 + p2.push(Seq::empty()));
        } else {
            let q = p1 + p2;
            assert(q.update(q.len() - 1, q.last().push(b.last())) =~= p1 + p2.update(p2.len() - 1, p2.last().push(b.last())));
        }
    }
}

proof fn lemma_until_plain(h: Seq<char>, p: Seq<char>)
    requires
        p.len() > 0,
        !is_plain(p[0]),
        forall|i: int| 0 <= i < h.len() ==> is_plain(h[i]),
    ensures
        until_sub(h, p) == h,
    decreases h.len(),
{
    if h.len() > 0 {
        assert(!starts_with(h, p)) by {
            if starts_with(h, p) {
                assert(h.take(p.len() as int)[0] == h[0]);
            }
        }
        lemma_until_plain(h.drop_first(), p);
        assert(seq![h[0]] + h.drop_first() =~= h);
    }
}

proof fn lemma_trim_plain(h: Seq<char>)
    requires
        forall|i: int| 0 <= i < h.len() ==> is_plain(h[i]),
    ensures
        trim(h) == h,
{
    assert(trim_start(h) == h);
    assert(trim_end(h) == h);
}

proof fn lemma_hex_plain(v: nat, n: nat)
    ensures
        forall|i: int| 0 <= i < spec_hex(v, n).len() ==> is_plain(#[trigger] spec_hex(v, n)[i]),
    decreases n,
{
    if n > 0 {
        lemma_hex_plain(v / 16, (n - 1) as nat);
        let d = v % 16;
        let c = hex_digit(d);
        assert(is_plain(c)) by {
            if d < 10 {
                assert(((48 + d) as u8) as char == c);
            } else {
                assert(((87 + d) as u8) as char == c);
            }
        }
        let s = spec_hex(v, n);
        assert(s == spec_hex(v / 16, (n - 1) as nat).push(c));
    }
}

/// A `generated.rs` written with a hash line right after its banner gives that hash back:
/// the line is found, and the recorded hash is the one written.
pub proof fn lemma_hash_read_back(v: u64, code: Seq<char>)
    ensures
        has_hash_line(
            spec_with_generated_comment(Some("rs"@), spec_hash_command_prefix() + spec_hex(v as nat, 16) + "\n"@ + code),
        ),
        spec_hash_from_src(
            spec_with_generated_comment(Some("rs"@), spec_hash_command_prefix() + spec_hex(v as nat, 16) + "\n"@ + code),
        ) == spec_hex(v as nat, 16),
{
    reveal_strlit("rs");
    reveal_strlit("// ");
    reveal_strlit("\n");
    reveal_strlit("// Hash: ");
    reveal_strlit("Auto-generated by Craby. DO NOT EDIT.");
    let h = spec_hex(v as nat, 16);
    lemma_hex_value(v as nat, 16);
    lemma_hex_plain(v as nat, 16);
    let prefix = spec_hash_command_prefix();
    let a = "// "@ + spec_generated_comment();
    let b = prefix + h;
    let c = code + "\n"@;
    let src = spec_with_generated_comment(Some("rs"@), prefix + h + "\n"@ + code);
    assert(src =~= a + seq!['\n'] + (b + seq!['\n'] + c));
    assert forall|i: int| 0 <= i < a.len() implies a[i] != '\n' by {}
    assert forall|i: int| 0 <= i < b.len() implies b[i] != '\n' by {
        if i >= prefix.len() {
            assert(b[i] == h[i - prefix.len()]);
            assert(is_plain(h[i - prefix.len()]));
        }
    }
    lemma_split_without_newline(a);
    lemma_split_without_newline(b);
    lemma_split_at_newline(a, b + seq!['\n'] + c);
    lemma_split_at_newline(b, c);
    lemma_split_on_nonempty(c, '\n');
    let parts = split_on(src, '\n');
    assert(parts =~= seq![a] + (seq![b] + split_on(c, '\n')));
    assert(parts[0] == a);
    assert(parts[1] == b);
    assert(parts.len() >= 3);
    let ls = lines(src);
    assert(ls[0] == strip_cr(a));
    assert(ls[1] == strip_cr(b));
    assert(strip_cr(a) == a);
    assert(b.last() == h[15]);
    assert(strip_cr(b) == b);
    assert(starts_with(b, prefix)) by {
        assert(b.take(prefix.len() as int) =~= prefix);
    }
    assert(!starts_with(a, prefix)) by {
        assert(a[3] == 'A');
        assert(prefix[3] == 'H');
        if starts_with(a, prefix) {
            assert(a.take(prefix.len() as int)[3] == a[3]);
        }
    }
    assert(has_hash_line(src)) by {
        assert(starts_with(lines(src)[1], prefix));
    }
    let k = choose|k: int|
        0 <= k < lines(src).len() && starts_with(#[trigger] lines(src)[k], prefix) && forall|j: int|
            0 <= j < k ==> !starts_with(#[trigger] lines(src)[j], prefix);
    assert(0 <= 1 < lines(src).len() && starts_with(lines(src)[1], prefix) && forall|j: int|
        0 <= j < 1 ==> !starts_with(#[trigger] lines(src)[j], prefix));
    assert(k == 1) by {
        if k == 0 {
        } else if k > 1 {
            assert(!starts_with(lines(src)[1], prefix));
        }
    }
    assert(first_hash_line(src) == b);
    assert(b.skip(prefix.len() as int) =~= h);
    lemma_until_plain(h, prefix);
    lemma_trim_plain(h);
}

} // verus!
