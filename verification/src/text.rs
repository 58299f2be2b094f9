//! Text without a window: trimming a title to fit, the initial that stands in
//! for a missing favicon, and turning what was typed in the address bar into
//! something to load.

use vstd::prelude::*;

use crate::chars::{chars_of, push_char, string_of};
#[allow(unused_imports)]
use vstd::string::StringSliceAdditionalSpecFns;

verus! {

/// The ellipsis that ends a shortened string.
pub const ELLIPSIS: char = '…';

/// `text` cut to at most `limit` characters when it is longer than `limit`:
/// the first `limit - 1` of them and an ellipsis, or nothing at all when the
/// limit leaves no room even for the ellipsis; `text` itself otherwise.
pub open spec fn ellipsized(text: Seq<char>, limit: nat) -> Seq<char> {
    if text.len() <= limit {
        text
    } else if limit == 0 {
        seq![]
    } else {
        text.take(limit - 1).push(ELLIPSIS)
    }
}

/// Whether `c` has Unicode's White_Space property, the set that
/// `char::is_whitespace` tests for.
pub open spec fn is_white_space(c: char) -> bool {
    let u = c as u32;
    ||| 0x09 <= u <= 0x0d
    ||| u == 0x20
    ||| u == 0x85
    ||| u == 0xa0
    ||| u == 0x1680
    ||| 0x2000 <= u <= 0x200a
    ||| u == 0x2028
    ||| u == 0x2029
    ||| u == 0x202f
    ||| u == 0x205f
    ||| u == 0x3000
}

/// `s` without its leading white space.
pub open spec fn trim_start(s: Seq<char>) -> Seq<char>
    decreases s.len(),
{
    if s.len() > 0 && is_white_space(s[0]) {
        trim_start(s.drop_first())
    } else {
        s
    }
}

/// `s` without its trailing white space.
pub open spec fn trim_end(s: Seq<char>) -> Seq<char>
    decreases s.len(),
{
    if s.len() > 0 && is_white_space(s.last()) {
        trim_end(s.drop_last())
    } else {
        s
    }
}

/// `s` without white space at either end, as `str::trim` leaves it.
pub open spec fn trimmed(s: Seq<char>) -> Seq<char> {
    trim_end(trim_start(s))
}

/// Executable form of [`is_white_space`].
pub fn white_space(c: char) -> (b: bool)
    ensures
        b == is_white_space(c),
{
    let u = c as u32;
    (0x09 <= u && u <= 0x0d) || u == 0x20 || u == 0x85 || u == 0xa0 || u == 0x1680 || (0x2000
        <= u && u <= 0x200a) || u == 0x2028 || u == 0x2029 || u == 0x202f || u == 0x205f || u
        == 0x3000
}

/// The first `n` characters of `v`.
pub fn prefix(v: &[char], n: usize) -> (out: Vec<char>)
    requires
        n <= v.len(),
    ensures
        out@ == v@.take(n as int),
{
    slice(v, 0, n)
}

/// The characters of `v` from `from` up to `to`.
pub fn slice(v: &[char], from: usize, to: usize) -> (out: Vec<char>)
    requires
        from <= to <= v.len(),
    ensures
        out@ == v@.subrange(from as int, to as int),
{
    let mut out: Vec<char> = Vec::new();
    let mut i = from;
    while i < to
        invariant
            from <= i <= to <= v.len(),
            out@ == v@.subrange(from as int, i as int),
        decreases to - i,
    {
        out.push(v[i]);
        assert(v@.subrange(from as int, i + 1) =~= v@.subrange(from as int, i as int).push(
            v@[i as int],
        ));
        i = i + 1;
    }
    out
}

proof fn lemma_trim_start_skip(s: Seq<char>, i: int)
    requires
        0 <= i < s.len(),
        is_white_space(s[i]),
    ensures
        trim_start(s.skip(i)) == trim_start(s.skip(i + 1)),
{
    assert(s.skip(i).drop_first() =~= s.skip(i + 1));
}

proof fn lemma_trim_end_take(s: Seq<char>, j: int)
    requires
        0 < j <= s.len(),
        is_white_space(s[j - 1]),
    ensures
        trim_end(s.take(j)) == trim_end(s.take(j - 1)),
{
    assert(s.take(j).drop_last() =~= s.take(j - 1));
}

/// Where the text that `str::trim` keeps begins and ends.
pub fn trim_bounds(v: &[char]) -> (r: (usize, usize))
    ensures
        r.0 <= r.1 <= v.len(),
        v@.subrange(r.0 as int, r.1 as int) == trimmed(v@),
{
    let mut i: usize = 0;
    assert(v@.skip(0) =~= v@);
    while i < v.len() && white_space(v[i])
        invariant
            i <= v.len(),
            trim_start(v@.skip(i as int)) == trim_start(v@),
        decreases v.len() - i,
    {
        proof {
            lemma_trim_start_skip(v@, i as int);
        }
        i = i + 1;
    }
    let ghost rest = v@.skip(i as int);
    assert(trim_start(rest) == rest);
    let mut j: usize = v.len();
    assert(rest.take(rest.len() as int) =~= rest);
    while j > i && white_space(v[j - 1])
        invariant
            i <= j <= v.len(),
            rest == v@.skip(i as int),
            trim_end(rest.take(j - i)) == trim_end(rest),
        decreases j,
    {
        proof {
            assert(rest[j - i - 1] == v@[j - 1]);
            lemma_trim_end_take(rest, j - i);
        }
        j = j - 1;
    }
    assert(trim_end(rest.take(j - i)) == rest.take(j - i));
    assert(rest.take(j - i) =~= v@.subrange(i as int, j as int));
    (i, j)
}

/// The characters of `v` without white space at either end.
pub fn trim_chars(v: &[char]) -> (out: Vec<char>)
    ensures
        out@ == trimmed(v@),
{
    let (a, b) = trim_bounds(v);
    slice(v, a, b)
}

/// Characters cut to `limit`, as [`ellipsized`] says.
pub fn ellipsize_chars(v: &[char], limit: usize) -> (out: Vec<char>)
    ensures
        out@ == ellipsized(v@, limit as nat),
{
    if v.len() <= limit {
        slice(v, 0, v.len())
    } else if limit == 0 {
        Vec::new()
    } else {
        let mut out = prefix(v, limit - 1);
        out.push(ELLIPSIS);
        out
    }
}

/// Shorten to `limit` characters on a character boundary, with an ellipsis.
pub fn ellipsize(text: &str, limit: usize) -> (out: String)
    ensures
        out@ == ellipsized(text@, limit as nat),
{
    let v = chars_of(text);
    string_of(&ellipsize_chars(&v, limit))
}

/// The same cut as [`ellipsize`], under the name the tab rows use.
pub fn truncate(text: &str, max_chars: usize) -> (out: String)
    ensures
        out@ == ellipsized(text@, max_chars as nat),
{
    let v = chars_of(text);
    if v.len() <= max_chars {
        string_of(&v)
    } else if max_chars == 0 {
        String::new()
    } else {
        let mut out = string_of(&prefix(&v, max_chars - 1));
        push_char(&mut out, ELLIPSIS);
        out
    }
}


/// `s` with every occurrence of `pat` replaced by `rep`, scanning from the
/// left and never looking inside a replacement, as `str::replace` does for
/// a pattern that is not empty. An empty pattern leaves `s` as it is, which
/// `str::replace` does not; nothing here replaces an empty pattern.
pub open spec fn replace_all(s: Seq<char>, pat: Seq<char>, rep: Seq<char>) -> Seq<char>
    decreases s.len(),
{
    if pat.len() == 0 || s.len() < pat.len() {
        s
    } else if s.take(pat.len() as int) == pat {
        rep + replace_all(s.skip(pat.len() as int), pat, rep)
    } else {
        seq![s[0]] + replace_all(s.drop_first(), pat, rep)
    }
}

/// The words of `s`, each run of white space between two of them made a
/// single space and the white space at either end dropped. `started` says a
/// word has been seen; `pending` that white space has followed it.
pub open spec fn squeeze(s: Seq<char>, started: bool, pending: bool) -> Seq<char>
    decreases s.len(),
{
    if s.len() == 0 {
        seq![]
    } else if is_white_space(s[0]) {
        squeeze(s.drop_first(), started, started)
    } else {
        (if pending {
            seq![' ']
        } else {
            seq![]
        }) + seq![s[0]] + squeeze(s.drop_first(), true, false)
    }
}

/// What `s.split_whitespace().collect::<Vec<_>>().join(" ")` gives.
pub open spec fn words_joined(s: Seq<char>) -> Seq<char> {
    squeeze(s, false, false)
}

/// Whether `pat` occurs in `v` at `at`.
pub fn matches_at(v: &[char], at: usize, pat: &[char]) -> (b: bool)
    requires
        at <= v.len(),
    ensures
        b == (pat.len() <= v.len() - at && v@.subrange(at as int, at + pat.len()) == pat@),
{
    if pat.len() > v.len() - at {
        return false;
    }
    let mut k: usize = 0;
    while k < pat.len()
        invariant
            k <= pat.len() <= v.len() - at,
            forall|m: int| 0 <= m < k ==> v@[at + m] == pat@[m],
        decreases pat.len() - k,
    {
        if v[at + k] != pat[k] {
            assert(v@.subrange(at as int, at + pat.len())[k as int] != pat@[k as int]);
            return false;
        }
        k = k + 1;
    }
    assert(v@.subrange(at as int, at + pat.len()) =~= pat@);
    true
}

/// Every occurrence of `pat` in `v` replaced by `rep`.
pub fn replace_chars(v: &[char], pat: &[char], rep: &[char]) -> (out: Vec<char>)
    requires
        pat.len() > 0,
    ensures
        out@ == replace_all(v@, pat@, rep@),
{
    let mut out: Vec<char> = Vec::new();
    let mut i: usize = 0;
    assert(v@.skip(0) =~= v@);
    while i < v.len()
        invariant
            pat.len() > 0,
            i <= v.len(),
            out@ + replace_all(v@.skip(i as int), pat@, rep@) == replace_all(v@, pat@, rep@),
        decreases v.len() - i,
    {
        let ghost rest = v@.skip(i as int);
        if matches_at(v, i, pat) {
            proof {
                assert(rest.take(pat.len() as int) =~= v@.subrange(i as int, i + pat.len()));
                assert(rest.skip(pat.len() as int) =~= v@.skip(i + pat.len()));
            }
            let mut k: usize = 0;
            let ghost before = out@;
            while k < rep.len()
                invariant
                    k <= rep.len(),
                    out@ == before + rep@.take(k as int),
                decreases rep.len() - k,
            {
                out.push(rep[k]);
                assert(rep@.take(k + 1) =~= rep@.take(k as int).push(rep@[k as int]));
                k = k + 1;
            }
            assert(rep@.take(rep.len() as int) =~= rep@);
            assert(out@ + replace_all(v@.skip(i + pat.len()), pat@, rep@) =~= before + (rep@
                + replace_all(v@.skip(i + pat.len()), pat@, rep@)));
            i = i + pat.len();
        } else {
            proof {
                if rest.len() >= pat.len() {
                    assert(rest.take(pat.len() as int) =~= v@.subrange(i as int, i + pat.len()));
                }
                assert(rest.drop_first() =~= v@.skip(i + 1));
                assert(rest[0] == v@[i as int]);
            }
            let ghost before = out@;
            out.push(v[i]);
            proof {
                if rest.len() < pat.len() {
                    // No room left for the pattern: the rest is kept as it is.
                    assert(replace_all(rest, pat@, rep@) == rest);
                    assert(rest.drop_first().len() < pat.len());
                    assert(replace_all(rest.drop_first(), pat@, rep@) == rest.drop_first());
                    assert(rest =~= seq![rest[0]] + rest.drop_first());
                }
                assert(out@ + replace_all(v@.skip(i + 1), pat@, rep@) =~= before + (seq![v@[i as int]]
                    + replace_all(v@.skip(i + 1), pat@, rep@)));
            }
            i = i + 1;
        }
    }
    assert(v@.skip(i as int) =~= Seq::<char>::empty());
    assert(out@ + Seq::<char>::empty() =~= out@);
    out
}

/// The words of `v` joined by single spaces, as [`words_joined`] says.
pub fn join_words(v: &[char]) -> (out: Vec<char>)
    ensures
        out@ == words_joined(v@),
{
    let mut out: Vec<char> = Vec::new();
    let mut started = false;
    let mut pending = false;
    let mut i: usize = 0;
    assert(v@.skip(0) =~= v@);
    while i < v.len()
        invariant
            i <= v.len(),
            out@ + squeeze(v@.skip(i as int), started, pending) == words_joined(v@),
        decreases v.len() - i,
    {
        let ghost rest = v@.skip(i as int);
        assert(rest.drop_first() =~= v@.skip(i + 1));
        assert(rest[0] == v@[i as int]);
        let ghost before = out@;
        let c = v[i];
        if white_space(c) {
            pending = started;
        } else {
            let was_pending = pending;
            if pending {
                out.push(' ');
            }
            out.push(c);
            started = true;
            pending = false;
            assert(out@ + squeeze(v@.skip(i + 1), true, false) =~= before + ((if was_pending {
                seq![' ']
            } else {
                Seq::<char>::empty()
            }) + seq![c] + squeeze(v@.skip(i + 1), true, false)));
        }
        i = i + 1;
    }
    assert(v@.skip(i as int) =~= Seq::<char>::empty());
    assert(out@ + Seq::<char>::empty() =~= out@);
    out
}


// ── Names and initials ─────────────────────────────────────────────────────

/// Where `pat` first occurs in `s`, or -1 when it does not.
pub open spec fn find_pat(s: Seq<char>, pat: Seq<char>) -> int
    decreases s.len(),
{
    if s.len() < pat.len() {
        -1
    } else if s.take(pat.len() as int) == pat {
        0
    } else if s.len() == 0 {
        -1
    } else {
        let r = find_pat(s.drop_first(), pat);
        if r < 0 {
            -1
        } else {
            r + 1
        }
    }
}

/// `s` up to the first `pat`, or all of it: the first piece `s.split(pat)`
/// gives.
pub open spec fn before_pat(s: Seq<char>, pat: Seq<char>) -> Seq<char> {
    let i = find_pat(s, pat);
    if i >= 0 {
        s.take(i)
    } else {
        s
    }
}

/// The host of an address with a scheme: the second piece of splitting at
/// `://`, up to its first `/`. None when there is no `://`.
pub open spec fn host_part(url: Seq<char>) -> Option<Seq<char>> {
    let i = find_pat(url, "://"@);
    if i >= 0 {
        Some(before_pat(before_pat(url.skip(i + 3), "://"@), "/"@))
    } else {
        None
    }
}

/// A saved page's name: its title, or its host when it has no title, or the
/// whole address when no host can be found in it.
pub open spec fn display_name_of(title: Seq<char>, url: Seq<char>) -> Seq<char> {
    if title.len() > 0 {
        title
    } else {
        match host_part(url) {
            Some(host) => host,
            None => url,
        }
    }
}

proof fn lemma_find_pat_bounds(s: Seq<char>, pat: Seq<char>)
    ensures
        -1 <= find_pat(s, pat),
        find_pat(s, pat) >= 0 ==> find_pat(s, pat) + pat.len() <= s.len(),
        find_pat(s, pat) >= 0 ==> s.subrange(find_pat(s, pat), find_pat(s, pat) + pat.len())
            == pat,
    decreases s.len(),
{
    if s.len() >= pat.len() && s.take(pat.len() as int) != pat && s.len() > 0 {
        lemma_find_pat_bounds(s.drop_first(), pat);
        let r = find_pat(s.drop_first(), pat);
        if r >= 0 {
            assert(s.subrange(r + 1, r + 1 + pat.len()) =~= s.drop_first().subrange(r, r
                + pat.len()));
        }
    } else if s.len() >= pat.len() && s.take(pat.len() as int) == pat {
        assert(s.subrange(0, pat.len() as int) =~= s.take(pat.len() as int));
    }
}

/// Where `pat` first occurs in `v` at or after `from`, as [`find_pat`] says
/// of what follows `from`.
pub fn find_from(v: &[char], from: usize, pat: &[char]) -> (r: Option<usize>)
    requires
        from <= v.len(),
    ensures
        match r {
            Some(i) => from <= i && i + pat.len() <= v.len() && i - from == find_pat(
                v@.skip(from as int),
                pat@,
            ),
            None => find_pat(v@.skip(from as int), pat@) == -1,
        },
{
    let mut i = from;
    while i < v.len() && !matches_at(v, i, pat)
        invariant
            from <= i <= v.len(),
            find_pat(v@.skip(i as int), pat@) < 0 ==> find_pat(v@.skip(from as int), pat@) < 0,
            find_pat(v@.skip(i as int), pat@) >= 0 ==> find_pat(v@.skip(from as int), pat@)
                == find_pat(v@.skip(i as int), pat@) + (i - from),
        decreases v.len() - i,
    {
        proof {
            let rest = v@.skip(i as int);
            assert(rest.drop_first() =~= v@.skip(i + 1));
            if rest.len() >= pat@.len() {
                assert(rest.take(pat@.len() as int) =~= v@.subrange(i as int, i + pat@.len()));
            }
        }
        i = i + 1;
    }
    if i < v.len() {
        proof {
            let rest = v@.skip(i as int);
            assert(rest.take(pat@.len() as int) =~= v@.subrange(i as int, i + pat@.len()));
        }
        Some(i)
    } else {
        proof {
            let rest = v@.skip(i as int);
            assert(rest.len() == 0);
            if pat@.len() == 0 {
                assert(rest.take(0) =~= pat@);
                // An empty pattern is found at the very end.
            }
        }
        if pat.len() == 0 {
            Some(i)
        } else {
            None
        }
    }
}

/// A saved page's name, falling back to its host when it has no title.
pub fn display_name<'a>(title: &'a str, url: &'a str) -> (name: &'a str)
    ensures
        name@ == display_name_of(title@, url@),
{
    if chars_of(title).len() != 0 {
        return title;
    }
    let v = chars_of(url);
    let sep = chars_of("://");
    let slash = chars_of("/");
    proof {
        reveal_strlit("://");
        reveal_strlit("/");
    }
    match find_from(&v, 0, &sep) {
        None => {
            assert(v@.skip(0) =~= v@);
            url
        },
        Some(i) => {
            assert(v@.skip(0) =~= v@);
            proof {
                lemma_find_pat_bounds(v@, sep@);
                assert(sep@.len() == 3);
                assert(find_pat(v@.skip(0), sep@) == find_pat(v@, sep@));
                assert(i + 3 <= v.len());
            }
            let start = i + 3;
            let end = match find_from(&v, start, &sep) {
                Some(j) => j,
                None => v.len(),
            };
            proof {
                lemma_find_pat_bounds(v@.skip(start as int), sep@);
            }
            let ghost piece = before_pat(v@.skip(start as int), sep@);
            assert(piece =~= v@.subrange(start as int, end as int));
            let piece_v = slice(&v, start, end);
            proof {
                lemma_find_pat_bounds(piece_v@.skip(0), slash@);
            }
            let host_end = match find_from(&piece_v, 0, &slash) {
                Some(k) => start + k,
                None => end,
            };
            proof {
                assert(piece_v@.skip(0) =~= piece_v@);
                lemma_find_pat_bounds(piece_v@, slash@);
                assert(piece_v@ =~= piece);
                assert(before_pat(piece, slash@) =~= v@.subrange(start as int, host_end as int));
            }
            url.substring_char(start, host_end)
        },
    }
}

/// What `char::is_alphanumeric` says of `c`: whether it is alphabetic or
/// numeric in Unicode's sense.
pub uninterp spec fn alphanumeric(c: char) -> bool;

/// `char::is_alphanumeric`.
#[verifier::external_body]
fn is_alphanumeric(c: char) -> (b: bool)
    ensures
        b == alphanumeric(c),
{
    c.is_alphanumeric()
}

/// What `c.to_uppercase().to_string()` gives: Unicode's uppercase mapping of
/// `c`, which may be more than one character.
pub uninterp spec fn upper_char(c: char) -> Seq<char>;

/// `char::to_uppercase`, collected into a `String`. Its documentation says
/// the mapping yields one or more characters.
#[verifier::external_body]
fn char_to_uppercase(c: char) -> (s: String)
    ensures
        s@ == upper_char(c),
        s@.len() >= 1,
{
    c.to_uppercase().to_string()
}

/// Where the first alphanumeric character of `s` is, or -1.
pub open spec fn first_alphanumeric(s: Seq<char>) -> int
    decreases s.len(),
{
    if s.len() == 0 {
        -1
    } else if alphanumeric(s[0]) {
        0
    } else {
        let r = first_alphanumeric(s.drop_first());
        if r < 0 {
            -1
        } else {
            r + 1
        }
    }
}

/// The initial that stands in for a page's favicon.
pub open spec fn initial_of(title: Seq<char>, url: Seq<char>) -> Seq<char> {
    let name = display_name_of(title, url);
    let i = first_alphanumeric(name);
    if i >= 0 {
        upper_char(name[i])
    } else {
        "?"@
    }
}

/// Stands in for a favicon, which is not stored anywhere yet.
pub fn initial(title: &str, url: &str) -> (out: String)
    ensures
        out@ == initial_of(title@, url@),
        out@.len() >= 1,
{
    proof {
        reveal_strlit("?");
    }
    let name = chars_of(display_name(title, url));
    let mut i: usize = 0;
    assert(name@.skip(0) =~= name@);
    while i < name.len() && !is_alphanumeric(name[i])
        invariant
            i <= name.len(),
            first_alphanumeric(name@.skip(i as int)) < 0 ==> first_alphanumeric(name@) < 0,
            first_alphanumeric(name@.skip(i as int)) >= 0 ==> first_alphanumeric(name@)
                == first_alphanumeric(name@.skip(i as int)) + i,
        decreases name.len() - i,
    {
        assert(name@.skip(i as int).drop_first() =~= name@.skip(i + 1));
        i = i + 1;
    }
    if i < name.len() {
        assert(name@.skip(i as int)[0] == name@[i as int]);
        char_to_uppercase(name[i])
    } else {
        String::from_str("?")
    }
}


// ── Addresses ──────────────────────────────────────────────────────────────

/// Bytes that go into a query as they are: letters, digits and `-_.~`.
pub open spec fn is_unreserved(b: u8) -> bool {
    ||| 0x41 <= b <= 0x5a
    ||| 0x61 <= b <= 0x7a
    ||| 0x30 <= b <= 0x39
    ||| b == 0x2d
    ||| b == 0x5f
    ||| b == 0x2e
    ||| b == 0x7e
}

/// An upper-case hexadecimal digit for `n`, below sixteen.
pub open spec fn hex_digit(n: u8) -> char {
    if n < 10 {
        (0x30 + n) as char
    } else {
        (0x41 + n - 10) as char
    }
}

/// How one byte of a query is written: itself, `+` for a space, or `%`
/// and two upper-case hex digits.
pub open spec fn escape_byte(b: u8) -> Seq<char> {
    if is_unreserved(b) {
        seq![b as char]
    } else if b == 0x20 {
        seq!['+']
    } else {
        seq!['%', hex_digit(b / 16), hex_digit(b % 16)]
    }
}

/// Every byte of `bytes` written as [`escape_byte`] says.
pub open spec fn escaped(bytes: Seq<u8>) -> Seq<char>
    decreases bytes.len(),
{
    if bytes.len() == 0 {
        seq![]
    } else {
        escaped(bytes.drop_last()) + escape_byte(bytes.last())
    }
}

fn hex(n: u8) -> (c: char)
    requires
        n < 16,
    ensures
        c == hex_digit(n),
{
    if n < 10 {
        (0x30 + n) as char
    } else {
        (0x41 + n - 10) as char
    }
}

/// Form-encode `input` for a search query: its UTF-8 bytes, with the
/// unreserved ones kept, spaces made `+`, and every other byte `%XX`.
pub fn url_escape(input: &str) -> (out: String)
    ensures
        out@ == escaped(utf8(input@)),
{
    let bytes = input.as_bytes();
    let mut out = String::new();
    let mut i: usize = 0;
    while i < bytes.len()
        invariant
            i <= bytes@.len(),
            bytes@ == utf8(input@),
            out@ == escaped(bytes@.take(i as int)),
        decreases bytes.len() - i,
    {
        let b = bytes[i];
        if (0x41 <= b && b <= 0x5a) || (0x61 <= b && b <= 0x7a) || (0x30 <= b && b <= 0x39) || b
            == 0x2d || b == 0x5f || b == 0x2e || b == 0x7e {
            push_char(&mut out, b as char);
        } else if b == 0x20 {
            push_char(&mut out, '+');
        } else {
            push_char(&mut out, '%');
            push_char(&mut out, hex(b / 16));
            push_char(&mut out, hex(b % 16));
        }
        assert(bytes@.take(i + 1).drop_last() =~= bytes@.take(i as int));
        assert(out@ =~= escaped(bytes@.take(i as int)) + escape_byte(b));
        i = i + 1;
    }
    assert(bytes@.take(bytes@.len() as int) =~= bytes@);
    out
}

/// What was typed in the address bar, made into something to do.
#[derive(Debug, PartialEq, Eq)]
pub enum Address {
    /// An address to load as it stands.
    Load(String),
    /// A search, with the query already escaped for the engine's URL.
    Search(String),
}

/// Whether `s` begins with `p`.
pub open spec fn starts_with(s: Seq<char>, p: Seq<char>) -> bool {
    p.len() <= s.len() && s.take(p.len() as int) == p
}

/// Whether `s` holds the character `c`.
pub open spec fn has_char(s: Seq<char>, c: char) -> bool {
    exists|i: int| 0 <= i < s.len() && s[i] == c
}

/// An address that is loaded as typed: one with a scheme the browser knows.
pub open spec fn has_known_scheme(s: Seq<char>) -> bool {
    ||| starts_with(s, "http://"@)
    ||| starts_with(s, "https://"@)
    ||| starts_with(s, "file://"@)
    ||| starts_with(s, "about:"@)
    ||| starts_with(s, "zervo://"@)
}

/// What the address bar does with `input`, given the home directory if one
/// is known: addresses with a known scheme pass through; an absolute path,
/// or one from the home directory, is a local file; something with a dot and
/// no space is a domain and gets `https://`; anything else is searched for.
pub open spec fn address_for(input: Seq<char>, home: Option<Seq<char>>) -> (Seq<char>, bool) {
    let t = trimmed(input);
    if has_known_scheme(t) {
        (t, true)
    } else if starts_with(t, "/"@) || starts_with(t, "~/"@) {
        let path = if starts_with(t, "~/"@) {
            match home {
                Some(h) => h + "/"@ + t.skip(2),
                None => t,
            }
        } else {
            t
        };
        ("file://"@ + path, true)
    } else if has_char(t, '.') && !has_char(t, ' ') {
        ("https://"@ + t, true)
    } else {
        (escaped(crate::text::utf8(t)), false)
    }
}

/// The UTF-8 bytes of a run of characters.
pub open spec fn utf8(s: Seq<char>) -> Seq<u8> {
    vstd::utf8::encode_utf8(s)
}

/// Whether `v` begins with the characters of `p`.
fn begins(v: &[char], p: &str) -> (b: bool)
    ensures
        b == starts_with(v@, p@),
{
    let pv = chars_of(p);
    let r = matches_at(v, 0, &pv);
    proof {
        if pv@.len() <= v@.len() {
            assert(v@.subrange(0, pv@.len() as int) =~= v@.take(pv@.len() as int));
        }
    }
    r
}

/// Whether `v` holds `c`.
pub fn contains_char(v: &[char], c: char) -> (b: bool)
    ensures
        b == has_char(v@, c),
{
    let mut i: usize = 0;
    while i < v.len()
        invariant
            i <= v.len(),
            forall|k: int| 0 <= k < i ==> v@[k] != c,
        decreases v.len() - i,
    {
        if v[i] == c {
            return true;
        }
        i = i + 1;
    }
    false
}

/// Turn address-bar input into something to do: pass URLs through, make a
/// path a `file://` URL, prefix bare domains with https://, and hand
/// everything else back as an escaped query for the chosen search engine.
/// `home` is the home directory, when it is known, for a path under `~/`.
pub fn normalize_url(input: &str, home: Option<&str>) -> (out: Address)
    ensures
        match out {
            Address::Load(url) => address_for(input@, opt_str_view(home)) == (url@, true),
            Address::Search(query) => address_for(input@, opt_str_view(home)) == (query@, false),
        },
{
    let t = trim_chars(&chars_of(input));
    if begins(&t, "http://") || begins(&t, "https://") || begins(&t, "file://") || begins(
        &t,
        "about:",
    ) || begins(&t, "zervo://") {
        Address::Load(string_of(&t))
    } else if begins(&t, "/") || begins(&t, "~/") {
        let path = if begins(&t, "~/") {
            proof {
                reveal_strlit("~/");
            }
            match home {
                Some(h) => {
                    let mut p = String::from_str(h);
                    p.append("/");
                    p.append(string_of(&slice(&t, 2, t.len())).as_str());
                    assert(t@.subrange(2, t@.len() as int) =~= t@.skip(2));
                    p
                },
                None => string_of(&t),
            }
        } else {
            string_of(&t)
        };
        let mut url = String::from_str("file://");
        url.append(path.as_str());
        Address::Load(url)
    } else if contains_char(&t, '.') && !contains_char(&t, ' ') {
        let mut url = String::from_str("https://");
        url.append(string_of(&t).as_str());
        Address::Load(url)
    } else {
        let query = string_of(&t);
        Address::Search(url_escape(query.as_str()))
    }
}

/// The view of an optional `&str`.
pub open spec fn opt_str_view(s: Option<&str>) -> Option<Seq<char>> {
    match s {
        Some(t) => Some(t@),
        None => None,
    }
}


// ── Laws ───────────────────────────────────────────────────────────────────

/// A shortened text fits its limit, whatever the limit.
pub proof fn law_ellipsize_fits(text: Seq<char>, limit: nat)
    ensures
        ellipsized(text, limit).len() <= limit,
{
}

/// Shortening only ever cuts: what is kept is the start of the text, and
/// the ellipsis marks exactly the texts that were cut, whenever there is
/// room for it.
pub proof fn law_ellipsize_keeps_the_start(text: Seq<char>, limit: nat)
    ensures
        text.len() <= limit ==> ellipsized(text, limit) == text,
        text.len() > limit && limit > 0 ==> ellipsized(text, limit).last() == ELLIPSIS
            && text.take(ellipsized(text, limit).len() - 1) == ellipsized(text, limit).drop_last(),
        text.len() > limit && limit == 0 ==> ellipsized(text, limit).len() == 0,
{
    if text.len() > limit && limit > 0 {
        let keep: int = limit - 1;
        assert(text.take(keep).push(ELLIPSIS).drop_last() =~= text.take(keep));
    }
}

/// A character an escaped query may hold: the unreserved ones, `+` and `%`.
pub open spec fn query_safe(c: char) -> bool {
    let u = c as u32;
    ||| 0x41 <= u <= 0x5a
    ||| 0x61 <= u <= 0x7a
    ||| 0x30 <= u <= 0x39
    ||| c == '-' || c == '_' || c == '.' || c == '~' || c == '+' || c == '%'
}

/// An escaped query holds nothing but unreserved characters, `+` and `%`,
/// so it can be put in any engine's address as it stands.
pub proof fn law_escaped_is_query_safe(bytes: Seq<u8>)
    ensures
        forall|i: int| 0 <= i < escaped(bytes).len() ==> query_safe(#[trigger] escaped(bytes)[i]),
    decreases bytes.len(),
{
    if bytes.len() > 0 {
        law_escaped_is_query_safe(bytes.drop_last());
        let b = bytes.last();
        let e = escape_byte(b);
        assert forall|k: int| 0 <= k < e.len() implies query_safe(#[trigger] e[k]) by {
            if !is_unreserved(b) && b != 0x20 {
                assert(b / 16 < 16 && b % 16 < 16) by (nonlinear_arith);
            }
        }
        let prior = escaped(bytes.drop_last());
        assert forall|i: int| 0 <= i < escaped(bytes).len() implies query_safe(
            #[trigger] escaped(bytes)[i],
        ) by {
            if i < prior.len() {
                assert(escaped(bytes)[i] == prior[i]);
            } else {
                assert(escaped(bytes)[i] == e[i - prior.len()]);
            }
        }
    }
}

/// An absolute path, or one under the home directory, is a local file and
/// never a search, and an address with a scheme the browser knows is loaded
/// exactly as typed, once trimmed.
pub proof fn law_paths_and_schemes_are_never_searched(input: Seq<char>, home: Option<Seq<char>>)
    ensures
        (starts_with(trimmed(input), "/"@) || starts_with(trimmed(input), "~/"@))
            ==> address_for(input, home).1 && starts_with(address_for(input, home).0, "file://"@),
        has_known_scheme(trimmed(input)) ==> address_for(input, home) == (trimmed(input), true),
{
    let t = trimmed(input);
    reveal_strlit("http://");
    reveal_strlit("https://");
    reveal_strlit("file://");
    reveal_strlit("about:");
    reveal_strlit("zervo://");
    reveal_strlit("/");
    reveal_strlit("~/");
    if starts_with(t, "/"@) || starts_with(t, "~/"@) {
        assert(t.take(1)[0] == t[0]);
        assert(t[0] == '/' || t[0] == '~');
        assert(!has_known_scheme(t)) by {
            if starts_with(t, "http://"@) {
                assert(t.take(7)[0] == t[0]);
            }
            if starts_with(t, "https://"@) {
                assert(t.take(8)[0] == t[0]);
            }
            if starts_with(t, "file://"@) {
                assert(t.take(7)[0] == t[0]);
            }
            if starts_with(t, "about:"@) {
                assert(t.take(6)[0] == t[0]);
            }
            if starts_with(t, "zervo://"@) {
                assert(t.take(8)[0] == t[0]);
            }
        }
    }
    if !has_known_scheme(t) && (starts_with(t, "/"@) || starts_with(t, "~/"@)) {
        let r = address_for(input, home).0;
        let path = if starts_with(t, "~/"@) {
            match home {
                Some(h) => h + "/"@ + t.skip(2),
                None => t,
            }
        } else {
            t
        };
        assert(r == "file://"@ + path);
        assert(r.take("file://"@.len() as int) =~= "file://"@);
    }
}

/// Each scheme the browser knows is loaded exactly as typed, once trimmed:
/// nothing is put in front of an address that begins with `http://`,
/// `https://`, `file://`, `about:` or `zervo://`, and it is never searched.
pub proof fn law_known_schemes_load_as_typed(input: Seq<char>, home: Option<Seq<char>>)
    ensures
        starts_with(trimmed(input), "http://"@) ==> address_for(input, home) == (trimmed(input), true),
        starts_with(trimmed(input), "https://"@) ==> address_for(input, home) == (trimmed(input), true),
        starts_with(trimmed(input), "file://"@) ==> address_for(input, home) == (trimmed(input), true),
        starts_with(trimmed(input), "about:"@) ==> address_for(input, home) == (trimmed(input), true),
        starts_with(trimmed(input), "zervo://"@) ==> address_for(input, home) == (trimmed(input), true),
{
}

proof fn lemma_trim_start_shape(s: Seq<char>)
    ensures
        trim_start(s).len() == 0 || !is_white_space(trim_start(s)[0]),
    decreases s.len(),
{
    if s.len() > 0 && is_white_space(s[0]) {
        lemma_trim_start_shape(s.drop_first());
    }
}

proof fn lemma_trim_end_shape(s: Seq<char>)
    ensures
        trim_end(s).len() <= s.len(),
        trim_end(s) == s.take(trim_end(s).len() as int),
        trim_end(s).len() == 0 || !is_white_space(trim_end(s).last()),
    decreases s.len(),
{
    if s.len() > 0 && is_white_space(s.last()) {
        lemma_trim_end_shape(s.drop_last());
        let r = trim_end(s.drop_last());
        assert(s.drop_last().take(r.len() as int) =~= s.take(r.len() as int));
    } else {
        assert(s.take(s.len() as int) =~= s);
    }
}

/// What `trim` keeps is empty, or begins and ends with something that is
/// not white space.
proof fn lemma_trimmed_shape(s: Seq<char>)
    ensures
        trimmed(s).len() == 0 || (!is_white_space(trimmed(s)[0]) && !is_white_space(
            trimmed(s).last(),
        )),
{
    lemma_trim_start_shape(s);
    lemma_trim_end_shape(trim_start(s));
    if trimmed(s).len() > 0 {
        assert(trimmed(s)[0] == trim_start(s)[0]);
    }
}

/// A text that begins and ends with something other than white space is
/// its own trim.
proof fn lemma_trim_fixed(s: Seq<char>)
    requires
        s.len() == 0 || (!is_white_space(s[0]) && !is_white_space(s.last())),
    ensures
        trimmed(s) == s,
{
}

/// Trimming twice is trimming once.
pub proof fn law_trim_is_idempotent(s: Seq<char>)
    ensures
        trimmed(trimmed(s)) == trimmed(s),
{
    lemma_trimmed_shape(s);
    lemma_trim_fixed(trimmed(s));
}

/// The address bar settles on what it loads: an address it made, typed in
/// again, is loaded as it stands, and so is any address a search engine
/// makes that begins with `https://` and has no white space at either end.
pub proof fn law_normalize_url_is_idempotent(input: Seq<char>, home: Option<Seq<char>>, engine_url: Seq<char>)
    ensures
        address_for(input, home).1 ==> address_for(address_for(input, home).0, home)
            == address_for(input, home),
        starts_with(engine_url, "https://"@) && trimmed(engine_url) == engine_url ==> address_for(
            engine_url,
            home,
        ) == (engine_url, true),
{
    reveal_strlit("http://");
    reveal_strlit("https://");
    reveal_strlit("file://");
    reveal_strlit("about:");
    reveal_strlit("zervo://");
    reveal_strlit("/");
    reveal_strlit("~/");
    let t = trimmed(input);
    law_trim_is_idempotent(input);
    lemma_trimmed_shape(input);
    let r = address_for(input, home).0;
    if has_known_scheme(t) {
    } else if starts_with(t, "/"@) || starts_with(t, "~/"@) {
        let path = if starts_with(t, "~/"@) {
            match home {
                Some(h) => h + "/"@ + t.skip(2),
                None => t,
            }
        } else {
            t
        };
        assert(t.len() > 0);
        assert(path.len() > 0 && !is_white_space(path.last())) by {
            if starts_with(t, "~/"@) {
                if let Some(h) = home {
                    if t.len() > 2 {
                        assert(path.last() == t.last());
                    } else {
                        assert(path.last() == '/');
                    }
                }
            }
        }
        assert(r == "file://"@ + path);
        assert(r[0] == 'f');
        assert(r.last() == path.last());
        lemma_trim_fixed(r);
        assert(r.take(7) =~= "file://"@);
        assert(has_known_scheme(r));
    } else if has_char(t, '.') && !has_char(t, ' ') {
        assert(t.len() > 0);
        assert(r == "https://"@ + t);
        assert(r[0] == 'h');
        assert(r.last() == t.last());
        lemma_trim_fixed(r);
        assert(r.take(8) =~= "https://"@);
        assert(has_known_scheme(r));
    }
}

} // verus!
