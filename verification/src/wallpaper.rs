//! Photographs for the new tab page: where they come from, what has to be
//! said about them, and when it is time for another.
//!
//! The fetch, the decode and the cache live outside this module, on a thread
//! of their own; what is here is every decision around them: the credit line
//! and the clean-up of the text that goes into it, the schedule, and what a
//! finished fetch does to the state the page reads.

use vstd::prelude::*;

use crate::chars::{chars_of, string_of};
use crate::text::{
    ellipsize_chars, ellipsized, join_words, replace_all, replace_chars, trim_chars, trimmed,
    words_joined,
};

verus! {

// ── Text that goes into a credit ───────────────────────────────────────────

/// `s` with its markup taken out: everything between `<` and `>` is dropped,
/// and outside a tag the first line break ends it.
pub open spec fn strip_tags(s: Seq<char>, inside: bool) -> Seq<char>
    decreases s.len(),
{
    if s.len() == 0 {
        seq![]
    } else {
        let c = s[0];
        if c == '<' {
            strip_tags(s.drop_first(), true)
        } else if c == '>' {
            strip_tags(s.drop_first(), false)
        } else if !inside && (c == '\n' || c == '\r') {
            seq![]
        } else if !inside {
            seq![c] + strip_tags(s.drop_first(), false)
        } else {
            strip_tags(s.drop_first(), true)
        }
    }
}

/// The four entities that turn up in credits, decoded in this order.
pub open spec fn decode_entities(s: Seq<char>) -> Seq<char> {
    replace_all(
        replace_all(
            replace_all(replace_all(s, "&amp;"@, "&"@), "&quot;"@, "\""@),
            "&#39;"@,
            "'"@,
        ),
        "&nbsp;"@,
        " "@,
    )
}

/// The longest a title or a name in a credit is allowed to be.
pub const CREDIT_WIDTH: usize = 70;

/// What [`strip_markup`] makes of `html`.
pub open spec fn stripped_markup(html: Seq<char>) -> Seq<char> {
    ellipsized(
        trimmed(words_joined(decode_entities(strip_tags(html, false)))),
        CREDIT_WIDTH as nat,
    )
}

/// The characters of `v` with their markup taken out, as [`strip_tags`] says.
pub fn strip_tag_chars(v: &[char]) -> (out: Vec<char>)
    ensures
        out@ == strip_tags(v@, false),
{
    let mut out: Vec<char> = Vec::new();
    let mut inside = false;
    let mut i: usize = 0;
    assert(v@.skip(0) =~= v@);
    while i < v.len()
        invariant
            i <= v.len(),
            out@ + strip_tags(v@.skip(i as int), inside) == strip_tags(v@, false),
        decreases v.len() - i,
    {
        let ghost rest = v@.skip(i as int);
        assert(rest.drop_first() =~= v@.skip(i + 1));
        assert(rest[0] == v@[i as int]);
        let ghost before = out@;
        let c = v[i];
        if c == '<' {
            inside = true;
        } else if c == '>' {
            inside = false;
        } else if !inside && (c == '\n' || c == '\r') {
            assert(out@ + Seq::<char>::empty() =~= out@);
            return out;
        } else if !inside {
            out.push(c);
            assert(out@ + strip_tags(v@.skip(i + 1), false) =~= before + (seq![c] + strip_tags(
                v@.skip(i + 1),
                false,
            )));
        }
        i = i + 1;
    }
    assert(v@.skip(i as int) =~= Seq::<char>::empty());
    assert(out@ + Seq::<char>::empty() =~= out@);
    out
}

/// Both sources hand back HTML in fields that are drawn as plain text. Take
/// the first line, drop the tags, decode the common entities, close up the
/// white space, and cut the result to a credit's width.
pub fn strip_markup(html: &str) -> (out: String)
    ensures
        out@ == stripped_markup(html@),
{
    proof {
        reveal_strlit("&amp;");
        reveal_strlit("&quot;");
        reveal_strlit("&#39;");
        reveal_strlit("&nbsp;");
    }
    let v = chars_of(html);
    let s = strip_tag_chars(&v);
    let s = replace_chars(&s, &chars_of("&amp;"), &chars_of("&"));
    let s = replace_chars(&s, &chars_of("&quot;"), &chars_of("\""));
    let s = replace_chars(&s, &chars_of("&#39;"), &chars_of("'"));
    let s = replace_chars(&s, &chars_of("&nbsp;"), &chars_of(" "));
    let s = join_words(&s);
    let s = trim_chars(&s);
    string_of(&ellipsize_chars(&s, CREDIT_WIDTH))
}


/// Where the last `c` in `s` is, or -1 when there is none.
pub open spec fn last_index_of(s: Seq<char>, c: char) -> int
    decreases s.len(),
{
    if s.len() == 0 {
        -1
    } else if s.last() == c {
        s.len() - 1
    } else {
        last_index_of(s.drop_last(), c)
    }
}

/// A file name without its extension: everything before the last `.`.
pub open spec fn file_stem_of(file: Seq<char>) -> Seq<char> {
    let dot = last_index_of(file, '.');
    if dot >= 0 {
        file.take(dot)
    } else {
        file
    }
}

/// `s` with every underscore made a space.
pub open spec fn spaced(s: Seq<char>) -> Seq<char> {
    s.map_values(|c: char| if c == '_' { ' ' } else { c })
}

/// What [`pretty_title`] makes of a Commons file name.
pub open spec fn prettied(file: Seq<char>) -> Seq<char> {
    ellipsized(trimmed(spaced(file_stem_of(file))), CREDIT_WIDTH as nat)
}

proof fn lemma_last_index_bounds(s: Seq<char>, c: char)
    ensures
        -1 <= last_index_of(s, c) < s.len(),
        last_index_of(s, c) >= 0 ==> s[last_index_of(s, c)] == c,
    decreases s.len(),
{
    if s.len() > 0 && s.last() != c {
        lemma_last_index_bounds(s.drop_last(), c);
    }
}

/// Where the last `c` in `v` is, as [`last_index_of`] says.
pub fn find_last(v: &[char], c: char) -> (r: Option<usize>)
    ensures
        match r {
            Some(i) => i as int == last_index_of(v@, c),
            None => last_index_of(v@, c) == -1,
        },
{
    let mut j: usize = v.len();
    assert(v@.take(v.len() as int) =~= v@);
    while j > 0
        invariant
            j <= v.len(),
            last_index_of(v@.take(j as int), c) == last_index_of(v@, c),
        decreases j,
    {
        assert(v@.take(j as int).last() == v@[j - 1]);
        if v[j - 1] == c {
            return Some(j - 1);
        }
        assert(v@.take(j as int).drop_last() =~= v@.take(j - 1));
        j = j - 1;
    }
    None
}

/// Commons file names are the caption nobody wrote: underscores, a date, a
/// camera's serial number. Make them read like a title.
pub fn pretty_title(file: &str) -> (out: String)
    ensures
        out@ == prettied(file@),
{
    let v = chars_of(file);
    let stem = match find_last(&v, '.') {
        Some(dot) => {
            proof {
                lemma_last_index_bounds(v@, '.');
            }
            crate::text::prefix(&v, dot)
        },
        None => {
            assert(v@.subrange(0, v.len() as int) =~= v@);
            crate::text::slice(&v, 0, v.len())
        },
    };
    assert(stem@ == file_stem_of(file@));
    let mut spaced_out: Vec<char> = Vec::new();
    let mut i: usize = 0;
    while i < stem.len()
        invariant
            i <= stem.len(),
            spaced_out@ == spaced(stem@.take(i as int)),
        decreases stem.len() - i,
    {
        let c = stem[i];
        spaced_out.push(if c == '_' { ' ' } else { c });
        assert(spaced(stem@.take(i + 1)) =~= spaced(stem@.take(i as int)).push(
            if c == '_' { ' ' } else { c },
        ));
        i = i + 1;
    }
    assert(stem@.take(stem.len() as int) =~= stem@);
    let t = trim_chars(&spaced_out);
    string_of(&ellipsize_chars(&t, CREDIT_WIDTH))
}

/// Whether two runs of characters are the same.
pub fn same_chars(a: &[char], b: &[char]) -> (r: bool)
    ensures
        r == (a@ == b@),
{
    if a.len() != b.len() {
        return false;
    }
    let r = crate::text::matches_at(a, 0, b);
    assert(a@.subrange(0, b.len() as int) =~= a@);
    r
}

/// What `str::to_uppercase` returns for `s`: Unicode's uppercase mapping,
/// character by character, some characters becoming several.
pub uninterp spec fn upper_case(s: Seq<char>) -> Seq<char>;

/// `str::to_uppercase`.
#[verifier::external_body]
fn to_uppercase(s: &str) -> (out: String)
    ensures
        out@ == upper_case(s@),
{
    s.to_uppercase()
}

/// The name of a licence whose code, already upper-cased, is `upper`, at
/// `version`.
pub open spec fn licence_text(upper: Seq<char>, version: Seq<char>) -> Seq<char> {
    if upper.len() == 0 {
        seq![]
    } else if upper == "PDM"@ {
        "Public domain"@
    } else {
        let name = if upper == "CC0"@ {
            "CC0"@
        } else {
            "CC "@ + upper
        };
        if version.len() == 0 {
            name
        } else {
            name + " "@ + version
        }
    }
}

/// A licence's name from its upper-cased code and its version.
pub fn licence_from_upper(upper: &str, version: &str) -> (out: String)
    ensures
        out@ == licence_text(upper@, version@),
{
    let code = chars_of(upper);
    if code.len() == 0 {
        return String::new();
    }
    if same_chars(&code, &chars_of("PDM")) {
        return String::from_str("Public domain");
    }
    let mut name = if same_chars(&code, &chars_of("CC0")) {
        String::from_str("CC0")
    } else {
        let mut n = String::from_str("CC ");
        n.append(upper);
        n
    };
    if chars_of(version).len() == 0 {
        name
    } else {
        name.append(" ");
        name.append(version);
        name
    }
}

/// Openverse reports a licence as a code and a version; the licences want
/// their names.
pub fn licence_name(code: &str, version: &str) -> (out: String)
    ensures
        out@ == licence_text(upper_case(code@), version@),
{
    let upper = to_uppercase(code);
    licence_from_upper(upper.as_str(), version)
}


/// Whether `s` has no `c` in it.
pub open spec fn lacks(s: Seq<char>, c: char) -> bool {
    forall|i: int| 0 <= i < s.len() ==> s[i] != c
}

proof fn lemma_strip_tags_lacks(s: Seq<char>, inside: bool, c: char)
    requires
        c == '<' || c == '>' || c == '\n' || c == '\r',
    ensures
        lacks(strip_tags(s, inside), c),
    decreases s.len(),
{
    if s.len() > 0 {
        let first = s[0];
        lemma_strip_tags_lacks(s.drop_first(), true, c);
        lemma_strip_tags_lacks(s.drop_first(), false, c);
        if first != '<' && first != '>' && !inside && !(first == '\n' || first == '\r') {
            let rest = strip_tags(s.drop_first(), false);
            assert forall|i: int| 0 <= i < (seq![first] + rest).len() implies (seq![first]
                + rest)[i] != c by {
                if i > 0 {
                    assert((seq![first] + rest)[i] == rest[i - 1]);
                }
            }
        }
    }
}

proof fn lemma_replace_lacks(s: Seq<char>, pat: Seq<char>, rep: Seq<char>, c: char)
    requires
        lacks(s, c),
        lacks(rep, c),
    ensures
        lacks(replace_all(s, pat, rep), c),
    decreases s.len(),
{
    if pat.len() == 0 || s.len() < pat.len() {
    } else if s.take(pat.len() as int) == pat {
        let rest = s.skip(pat.len() as int);
        assert(lacks(rest, c)) by {
            assert forall|i: int| 0 <= i < rest.len() implies rest[i] != c by {
                assert(rest[i] == s[i + pat.len()]);
            }
        }
        lemma_replace_lacks(rest, pat, rep, c);
        let r = replace_all(rest, pat, rep);
        assert forall|i: int| 0 <= i < (rep + r).len() implies (rep + r)[i] != c by {
            if i >= rep.len() {
                assert((rep + r)[i] == r[i - rep.len()]);
            }
        }
    } else {
        let rest = s.drop_first();
        assert(lacks(rest, c)) by {
            assert forall|i: int| 0 <= i < rest.len() implies rest[i] != c by {
                assert(rest[i] == s[i + 1]);
            }
        }
        lemma_replace_lacks(rest, pat, rep, c);
        let r = replace_all(rest, pat, rep);
        assert forall|i: int| 0 <= i < (seq![s[0]] + r).len() implies (seq![s[0]] + r)[i] != c by {
            if i >= 1 {
                assert((seq![s[0]] + r)[i] == r[i - 1]);
            }
        }
    }
}

proof fn lemma_squeeze_lacks(s: Seq<char>, started: bool, pending: bool, c: char)
    requires
        lacks(s, c),
        c != ' ',
    ensures
        lacks(crate::text::squeeze(s, started, pending), c),
    decreases s.len(),
{
    if s.len() > 0 {
        let rest = s.drop_first();
        assert(lacks(rest, c)) by {
            assert forall|i: int| 0 <= i < rest.len() implies rest[i] != c by {
                assert(rest[i] == s[i + 1]);
            }
        }
        lemma_squeeze_lacks(rest, started, started, c);
        lemma_squeeze_lacks(rest, true, false, c);
        if !crate::text::is_white_space(s[0]) {
            let lead: Seq<char> = if pending {
                seq![' ']
            } else {
                seq![]
            };
            let r = crate::text::squeeze(rest, true, false);
            let whole = lead + seq![s[0]] + r;
            assert forall|i: int| 0 <= i < whole.len() implies whole[i] != c by {
                if i < lead.len() {
                    assert(whole[i] == ' ');
                } else if i == lead.len() {
                    assert(whole[i] == s[0]);
                } else {
                    assert(whole[i] == r[i - lead.len() - 1]);
                }
            }
        }
    }
}

proof fn lemma_trim_lacks(s: Seq<char>, c: char)
    requires
        lacks(s, c),
    ensures
        lacks(trimmed(s), c),
{
    lemma_trim_start_lacks(s, c);
    lemma_trim_end_lacks(crate::text::trim_start(s), c);
}

proof fn lemma_trim_start_lacks(s: Seq<char>, c: char)
    requires
        lacks(s, c),
    ensures
        lacks(crate::text::trim_start(s), c),
    decreases s.len(),
{
    if s.len() > 0 && crate::text::is_white_space(s[0]) {
        let rest = s.drop_first();
        assert forall|i: int| 0 <= i < rest.len() implies rest[i] != c by {
            assert(rest[i] == s[i + 1]);
        }
        lemma_trim_start_lacks(rest, c);
    }
}

proof fn lemma_trim_end_lacks(s: Seq<char>, c: char)
    requires
        lacks(s, c),
    ensures
        lacks(crate::text::trim_end(s), c),
    decreases s.len(),
{
    if s.len() > 0 && crate::text::is_white_space(s.last()) {
        let rest = s.drop_last();
        assert forall|i: int| 0 <= i < rest.len() implies rest[i] != c by {
            assert(rest[i] == s[i]);
        }
        lemma_trim_end_lacks(rest, c);
    }
}

/// What comes out of [`strip_markup`] is a name and not a document: it fits
/// a credit, it is one line, and no tag is left in it.
pub proof fn law_stripped_markup_is_a_name(html: Seq<char>)
    ensures
        stripped_markup(html).len() <= CREDIT_WIDTH,
        lacks(stripped_markup(html), '<'),
        lacks(stripped_markup(html), '>'),
        lacks(stripped_markup(html), '\n'),
        lacks(stripped_markup(html), '\r'),
{
    crate::text::law_ellipsize_fits(
        trimmed(words_joined(decode_entities(strip_tags(html, false)))),
        CREDIT_WIDTH as nat,
    );
    reveal_strlit("&");
    reveal_strlit("\"");
    reveal_strlit("'");
    reveal_strlit(" ");
    lemma_name_lacks(html, '<');
    lemma_name_lacks(html, '>');
    lemma_name_lacks(html, '\n');
    lemma_name_lacks(html, '\r');
}

proof fn lemma_name_lacks(html: Seq<char>, c: char)
    requires
        c == '<' || c == '>' || c == '\n' || c == '\r',
        lacks("&"@, c),
        lacks("\""@, c),
        lacks("'"@, c),
        lacks(" "@, c),
    ensures
        lacks(stripped_markup(html), c),
{
    let s0 = strip_tags(html, false);
    lemma_strip_tags_lacks(html, false, c);
    let s1 = replace_all(s0, "&amp;"@, "&"@);
    lemma_replace_lacks(s0, "&amp;"@, "&"@, c);
    let s2 = replace_all(s1, "&quot;"@, "\""@);
    lemma_replace_lacks(s1, "&quot;"@, "\""@, c);
    let s3 = replace_all(s2, "&#39;"@, "'"@);
    lemma_replace_lacks(s2, "&#39;"@, "'"@, c);
    let s4 = replace_all(s3, "&nbsp;"@, " "@);
    lemma_replace_lacks(s3, "&nbsp;"@, " "@, c);
    let s5 = words_joined(s4);
    lemma_squeeze_lacks(s4, false, false, c);
    let s6 = trimmed(s5);
    lemma_trim_lacks(s5, c);
    let out = ellipsized(s6, CREDIT_WIDTH as nat);
    if s6.len() > CREDIT_WIDTH {
        let kept = s6.take(CREDIT_WIDTH - 1);
        assert forall|i: int| 0 <= i < out.len() implies out[i] != c by {
            if i < kept.len() {
                assert(out[i] == s6[i]);
            }
        }
    }
}

// ── Sources, subjects and cadences ─────────────────────────────────────────

/// What to ask Openverse for. A short list of subjects that photograph well
/// at the size of a window, rather than a free-text box nobody would fill in.
#[derive(Clone, Copy, Debug, PartialEq, Eq, Structural)]
pub enum Subject {
    Landscape,
    Mountains,
    Coast,
    Forest,
    Sky,
    Night,
    City,
    Texture,
}

/// A subject's name, as the settings page shows it.
pub open spec fn subject_name(s: Subject) -> Seq<char> {
    match s {
        Subject::Landscape => "Landscape"@,
        Subject::Mountains => "Mountains"@,
        Subject::Coast => "Coast"@,
        Subject::Forest => "Forest"@,
        Subject::Sky => "Sky"@,
        Subject::Night => "Night"@,
        Subject::City => "City"@,
        Subject::Texture => "Texture"@,
    }
}

/// The search Openverse runs for a subject.
pub open spec fn subject_search(s: Subject) -> Seq<char> {
    match s {
        Subject::Landscape => "landscape+photograph+scenery"@,
        Subject::Mountains => "mountain+range+peaks"@,
        Subject::Coast => "coast+sea+shoreline"@,
        Subject::Forest => "forest+trees+woodland"@,
        Subject::Sky => "sky+clouds+horizon"@,
        Subject::Night => "night+sky+stars"@,
        Subject::City => "city+skyline+architecture"@,
        Subject::Texture => "abstract+texture+pattern"@,
    }
}

impl Subject {
    /// Every subject, in the order the settings page offers them.
    pub const ALL: [Subject; 8] = [
        Subject::Landscape,
        Subject::Mountains,
        Subject::Coast,
        Subject::Forest,
        Subject::Sky,
        Subject::Night,
        Subject::City,
        Subject::Texture,
    ];

    pub fn label(self) -> (out: &'static str)
        ensures
            out@ == subject_name(self),
    {
        match self {
            Subject::Landscape => "Landscape",
            Subject::Mountains => "Mountains",
            Subject::Coast => "Coast",
            Subject::Forest => "Forest",
            Subject::Sky => "Sky",
            Subject::Night => "Night",
            Subject::City => "City",
            Subject::Texture => "Texture",
        }
    }

    /// The search Openverse actually runs. Two words beat one: "landscape"
    /// alone returns a great deal of landscape *painting*.
    pub fn query(self) -> (out: &'static str)
        ensures
            out@ == subject_search(self),
    {
        match self {
            Subject::Landscape => "landscape+photograph+scenery",
            Subject::Mountains => "mountain+range+peaks",
            Subject::Coast => "coast+sea+shoreline",
            Subject::Forest => "forest+trees+woodland",
            Subject::Sky => "sky+clouds+horizon",
            Subject::Night => "night+sky+stars",
            Subject::City => "city+skyline+architecture",
            Subject::Texture => "abstract+texture+pattern",
        }
    }
}

/// How often a new photograph is fetched.
#[derive(Clone, Copy, Debug, PartialEq, Eq, Structural)]
pub enum Cadence {
    /// Only when asked.
    Manual,
    Launch,
    Hourly,
    Daily,
}

/// A cadence's name, as the settings page shows it.
pub open spec fn cadence_name(c: Cadence) -> Seq<char> {
    match c {
        Cadence::Manual => "Manually"@,
        Cadence::Launch => "Each launch"@,
        Cadence::Hourly => "Hourly"@,
        Cadence::Daily => "Daily"@,
    }
}

/// Seconds in an hour.
pub const HOUR: u64 = 3600;
/// Seconds in a day.
pub const DAY: u64 = 86400;

/// How long a cadence waits between pictures, in seconds; none for the two
/// that are not on a clock.
pub open spec fn cadence_interval(c: Cadence) -> Option<u64> {
    match c {
        Cadence::Manual | Cadence::Launch => None,
        Cadence::Hourly => Some(HOUR),
        Cadence::Daily => Some(DAY),
    }
}

impl Cadence {
    /// Every cadence, in the order the settings page offers them.
    pub const ALL: [Cadence; 4] = [Cadence::Manual, Cadence::Launch, Cadence::Hourly, Cadence::Daily];

    pub fn label(self) -> (out: &'static str)
        ensures
            out@ == cadence_name(self),
    {
        match self {
            Cadence::Manual => "Manually",
            Cadence::Launch => "Each launch",
            Cadence::Hourly => "Hourly",
            Cadence::Daily => "Daily",
        }
    }

    /// The wait between pictures, in seconds.
    pub fn interval(self) -> (out: Option<u64>)
        ensures
            out == cadence_interval(self),
    {
        match self {
            Cadence::Manual | Cadence::Launch => None,
            Cadence::Hourly => Some(60 * 60),
            Cadence::Daily => Some(24 * 60 * 60),
        }
    }
}

/// Where a photograph comes from.
#[derive(Clone, Debug, PartialEq, Eq)]
pub enum Source {
    /// Wikimedia Commons' picture of the day, from a day picked at random.
    Commons,
    /// Openverse, searched for a subject.
    Openverse(Subject),
    /// A file on this machine.
    File(String),
}

impl Default for Source {
    fn default() -> (s: Self)
        ensures
            s == Source::Commons,
    {
        Source::Commons
    }
}

/// What `str::to_lowercase` returns for `s`: Unicode's lowercase mapping.
pub uninterp spec fn lower_case(s: Seq<char>) -> Seq<char>;

/// `str::to_lowercase`.
#[verifier::external_body]
pub(crate) fn to_lowercase(s: &str) -> (out: String)
    ensures
        out@ == lower_case(s@),
{
    s.to_lowercase()
}

/// What `Path::file_name` finds in `path`: its last component, unless that
/// is `..` or there is none; the name is text again by `to_string_lossy`.
/// Paths are read with the syntax of the target the crate is built for.
pub uninterp spec fn path_file_name(path: Seq<char>) -> Option<Seq<char>>;

/// `Path::file_name`, of a path given as text.
#[verifier::external_body]
fn file_name(path: &str) -> (out: Option<String>)
    ensures
        match out {
            Some(name) => path_file_name(path@) == Some(name@),
            None => path_file_name(path@) is None,
        },
{
    std::path::Path::new(path).file_name().map(|name| name.to_string_lossy().into_owned())
}

/// What `Path::file_stem` finds in `path`: the file name without its last
/// extension. Paths are read with the syntax of the target the crate is
/// built for.
pub uninterp spec fn path_file_stem(path: Seq<char>) -> Option<Seq<char>>;

/// `Path::file_stem`, of a path given as text.
#[verifier::external_body]
fn file_stem(path: &str) -> (out: Option<String>)
    ensures
        match out {
            Some(stem) => path_file_stem(path@) == Some(stem@),
            None => path_file_stem(path@) is None,
        },
{
    std::path::Path::new(path).file_stem().map(|stem| stem.to_string_lossy().into_owned())
}

/// A source's name, as the settings page shows it.
pub open spec fn source_name(source: Source) -> Seq<char> {
    match source {
        Source::Commons => "Wikimedia Commons"@,
        Source::Openverse(subject) => "Openverse — "@ + lower_case(subject_name(subject)),
        Source::File(path) => match path_file_name(path@) {
            Some(name) => name,
            None => "A file"@,
        },
    }
}

impl Source {
    pub fn label(&self) -> (out: String)
        ensures
            out@ == source_name(*self),
    {
        match self {
            Source::Commons => String::from_str("Wikimedia Commons"),
            Source::Openverse(subject) => {
                let mut out = String::from_str("Openverse — ");
                let lower = to_lowercase(subject.label());
                out.append(lower.as_str());
                out
            },
            Source::File(path) => match file_name(path.as_str()) {
                Some(name) => name,
                None => String::from_str("A file"),
            },
        }
    }
}

// ── The credit ─────────────────────────────────────────────────────────────

/// A photograph, and what has to be said about it.
#[derive(Clone, Debug)]
pub struct Credit {
    pub title: String,
    pub author: String,
    pub licence: String,
    /// Where it came from, so the credit can be followed back.
    pub page: String,
    /// Which source produced it, for the settings page to show.
    pub source: String,
}

/// The separator between the parts of a credit line.
pub open spec fn dot_separator() -> Seq<char> {
    " · "@
}

/// The line drawn over a picture with this title, author and licence.
pub open spec fn credit_line(title: Seq<char>, author: Seq<char>, licence: Seq<char>) -> Seq<char> {
    let first = if title.len() == 0 {
        "Untitled"@
    } else {
        title
    };
    let with_author = if author.len() == 0 {
        first
    } else {
        first + dot_separator() + author
    };
    if licence.len() == 0 {
        with_author
    } else {
        with_author + dot_separator() + licence
    }
}

/// Whether a string has no characters.
fn is_blank(s: &String) -> (b: bool)
    ensures
        b == (s@.len() == 0),
{
    chars_of(s.as_str()).len() == 0
}

impl Default for Credit {
    fn default() -> (c: Self)
        ensures
            c.title@.len() == 0,
            c.author@.len() == 0,
            c.licence@.len() == 0,
            c.page@.len() == 0,
            c.source@.len() == 0,
    {
        Credit {
            title: String::new(),
            author: String::new(),
            licence: String::new(),
            page: String::new(),
            source: String::new(),
        }
    }
}

impl Credit {
    /// The one line drawn over the picture. Everything the licences ask for,
    /// in the order a person reads it.
    pub fn line(&self) -> (out: String)
        ensures
            out@ == credit_line(self.title@, self.author@, self.licence@),
    {
        let mut line = if is_blank(&self.title) {
            String::from_str("Untitled")
        } else {
            self.title.clone()
        };
        if !is_blank(&self.author) {
            line.append(" · ");
            line.append(self.author.as_str());
        }
        if !is_blank(&self.licence) {
            line.append(" · ");
            line.append(self.licence.as_str());
        }
        line
    }

    /// A field-for-field copy.
    fn duplicate(&self) -> (c: Credit)
        ensures
            c == *self,
    {
        Credit {
            title: self.title.clone(),
            author: self.author.clone(),
            licence: self.licence.clone(),
            page: self.page.clone(),
            source: self.source.clone(),
        }
    }

    /// The credit for a picture read from a file: its name, and where it was.
    pub fn for_file(path: &str) -> (c: Credit)
        ensures
            c.title@ == match path_file_stem(path@) {
                Some(stem) => stem,
                None => Seq::<char>::empty(),
            },
            c.source@ == "This machine"@,
            c.author@.len() == 0,
            c.licence@.len() == 0,
            c.page@.len() == 0,
    {
        let title = match file_stem(path) {
            Some(stem) => stem,
            None => String::new(),
        };
        Credit {
            title,
            author: String::new(),
            licence: String::new(),
            page: String::new(),
            source: String::from_str("This machine"),
        }
    }
}


// ── The fetch schedule and what a finished fetch does ──────────────────────

/// What a finished fetch hands back: the picture, its credit, and where its
/// bytes were cached, if they were.
pub struct Fetched<P> {
    pub credit: Credit,
    pub image: P,
    pub cached: Option<String>,
}

/// What asking the fetch thread for its answer found.
pub enum Polled<P> {
    /// A picture arrived.
    Arrived(Fetched<P>),
    /// The fetch failed, for this reason.
    Failed(String),
    /// Nothing yet.
    Waiting,
    /// The thread went away without answering.
    GaveUp,
}

/// What is written next to a cached picture, so the next launch can show it
/// before the network has said anything.
pub struct Manifest {
    pub credit: Credit,
    pub path: String,
    /// Unix seconds.
    pub at: Option<i64>,
}

/// The new tab page's photograph, and whatever is known about it.
pub struct Wallpaper<P> {
    credit: Credit,
    /// The decoded picture, waiting for the main thread to make it a texture.
    pending: Option<P>,
    /// A fetch or a restore is running.
    loading: bool,
    /// When the picture being shown was fetched, in nanoseconds since the
    /// Unix epoch.
    fetched_at: Option<u128>,
    /// What went wrong last time, shown in the settings rather than swallowed.
    pub error: Option<String>,
    /// Set once per launch, so `Each launch` means once.
    launched: bool,
}

/// What a [`Wallpaper`] holds, as the contracts speak of it.
pub struct WallpaperModel<P> {
    pub credit: Credit,
    pub pending: Option<P>,
    pub loading: bool,
    pub fetched_at: Option<u128>,
    pub error: Option<Seq<char>>,
    pub launched: bool,
}

/// The view of an optional string.
pub open spec fn opt_view(s: Option<String>) -> Option<Seq<char>> {
    match s {
        Some(t) => Some(t@),
        None => None,
    }
}

impl<P> View for Wallpaper<P> {
    type V = WallpaperModel<P>;

    closed spec fn view(&self) -> WallpaperModel<P> {
        WallpaperModel {
            credit: self.credit,
            pending: self.pending,
            loading: self.loading,
            fetched_at: self.fetched_at,
            error: opt_view(self.error),
            launched: self.launched,
        }
    }
}

/// Nanoseconds in a second: the clock the schedule reads counts in these.
pub const NANOS_PER_SECOND: u128 = 1_000_000_000;

impl<P> Default for Wallpaper<P> {
    fn default() -> (w: Self)
        ensures
            w@.credit.title@.len() == 0,
            w@.credit.author@.len() == 0,
            w@.credit.licence@.len() == 0,
            w@.credit.page@.len() == 0,
            w@.credit.source@.len() == 0,
            w@.pending is None,
            !w@.loading,
            w@.fetched_at is None,
            w@.error is None,
            !w@.launched,
    {
        Wallpaper::new()
    }
}

/// How long ago `at` was at `now`. A time in the future has no age that can
/// be read, and counts as a whole `interval` ago.
pub open spec fn age(at: int, now: int, interval: int) -> int {
    if now >= at {
        now - at
    } else {
        interval
    }
}

/// Whether `cadence` says `source` is due for a new picture at `now`.
pub open spec fn is_due<P>(w: WallpaperModel<P>, source: Source, cadence: Cadence, now: u128) -> bool {
    if w.loading || source is File {
        false
    } else {
        match cadence {
            Cadence::Manual => false,
            Cadence::Launch => !w.launched,
            _ => match (cadence_interval(cadence), w.fetched_at) {
                (Some(interval), Some(at)) => age(at as int, now as int, interval * NANOS_PER_SECOND)
                    >= interval * NANOS_PER_SECOND,
                (Some(_), None) => true,
                (None, _) => false,
            },
        }
    }
}

/// The state after a fetch is asked for.
pub open spec fn after_fetch<P>(w: WallpaperModel<P>) -> WallpaperModel<P> {
    if w.loading {
        w
    } else {
        WallpaperModel { launched: true, error: None, loading: true, ..w }
    }
}

/// The state after a cached picture is picked up at launch.
pub open spec fn after_restore<P>(w: WallpaperModel<P>, credit: Credit, at: Option<i64>) -> WallpaperModel<P> {
    WallpaperModel { credit, fetched_at: manifest_time(at), loading: true, ..w }
}

/// The state after the fetch thread was asked for its answer at `now`.
pub open spec fn after_poll<P>(w: WallpaperModel<P>, polled: Polled<P>, now: u128) -> WallpaperModel<P> {
    if !w.loading {
        w
    } else {
        match polled {
            Polled::Arrived(fetched) => WallpaperModel {
                loading: false,
                credit: fetched.credit,
                pending: Some(fetched.image),
                fetched_at: if fetched.cached is Some {
                    Some(now)
                } else {
                    w.fetched_at
                },
                ..w
            },
            Polled::Failed(why) => WallpaperModel { loading: false, error: Some(why@), ..w },
            Polled::Waiting => w,
            Polled::GaveUp => WallpaperModel {
                loading: false,
                error: Some("the fetch gave up"@),
                ..w
            },
        }
    }
}

/// The state after the decoded picture was taken for upload.
pub open spec fn after_take<P>(w: WallpaperModel<P>) -> WallpaperModel<P> {
    WallpaperModel { pending: None, ..w }
}

/// Whether asking at that moment changed anything the page should redraw.
pub open spec fn poll_changed<P>(w: WallpaperModel<P>, polled: Polled<P>) -> bool {
    w.loading && !(polled is Waiting)
}

/// The manifest a poll asks to be written: one for a picture that arrived
/// and was cached.
pub open spec fn poll_manifest<P>(w: WallpaperModel<P>, polled: Polled<P>, now: u128) -> Option<(
    Credit,
    Seq<char>,
    Option<i64>,
)> {
    if !w.loading {
        None
    } else {
        match polled {
            Polled::Arrived(fetched) => match fetched.cached {
                Some(path) => Some((fetched.credit, path@, Some(((now / NANOS_PER_SECOND) as u64) as i64))),
                None => None,
            },
            _ => None,
        }
    }
}

/// A manifest's time as a moment to count from: before 1970 is 1970.
pub open spec fn manifest_time(at: Option<i64>) -> Option<u128> {
    match at {
        Some(seconds) => Some(if seconds < 0 {
            0u128
        } else {
            (seconds * NANOS_PER_SECOND) as u128
        }),
        None => None,
    }
}

/// A manifest's time as a moment to count from, as [`manifest_time`] says.
pub fn read_manifest_time(at: Option<i64>) -> (out: Option<u128>)
    ensures
        out == manifest_time(at),
{
    match at {
        Some(seconds) => Some(if seconds < 0 { 0u128 } else { (seconds as u128) * NANOS_PER_SECOND }),
        None => None,
    }
}

impl<P> Wallpaper<P> {
    /// Nothing fetched, nothing running.
    pub fn new() -> (w: Self)
        ensures
            w@.credit.title@.len() == 0,
            w@.credit.author@.len() == 0,
            w@.credit.licence@.len() == 0,
            w@.credit.page@.len() == 0,
            w@.credit.source@.len() == 0,
            w@.pending is None,
            !w@.loading,
            w@.fetched_at is None,
            w@.error is None,
            !w@.launched,
    {
        Wallpaper {
            credit: Credit::default(),
            pending: None,
            loading: false,
            fetched_at: None,
            error: None,
            launched: false,
        }
    }

    /// Pick up what was cached last time. The decode that follows runs on a
    /// thread, and counts as loading until it is polled.
    pub fn restore(&mut self, credit: Credit, at: Option<i64>)
        ensures
            final(self)@ == after_restore(old(self)@, credit, at),
            final(self)@.loading,
            at matches Some(s) ==> (s >= 0 ==> final(self)@.fetched_at == Some(
                (s * 1_000_000_000int) as u128,
            )),
    {
        self.credit = credit;
        self.fetched_at = read_manifest_time(at);
        self.loading = true;
    }

    pub fn is_loading(&self) -> (b: bool)
        ensures
            b == self@.loading,
    {
        self.loading
    }

    pub fn credit(&self) -> (c: &Credit)
        ensures
            *c == self@.credit,
    {
        &self.credit
    }

    /// True when `cadence` says this source is due for a new picture at
    /// `now`, in nanoseconds since the Unix epoch. A file the user chose is never due: it is the
    /// picture they asked for.
    pub fn due(&self, source: &Source, cadence: Cadence, now: u128) -> (b: bool)
        ensures
            b == is_due(self@, *source, cadence, now),
    {
        if self.loading {
            return false;
        }
        if let Source::File(_) = source {
            return false;
        }
        match cadence {
            Cadence::Manual => false,
            Cadence::Launch => !self.launched,
            _ => match (cadence.interval(), self.fetched_at) {
                (Some(interval), Some(at)) => {
                    let span = (interval as u128) * NANOS_PER_SECOND;
                    let age = if now >= at { now - at } else { span };
                    age >= span
                },
                (Some(_), None) => true,
                (None, _) => false,
            },
        }
    }

    /// Start fetching. True when a fetch was started, which the caller then
    /// runs on a thread of its own; false when one is already running.
    pub fn fetch(&mut self) -> (started: bool)
        ensures
            started == !old(self)@.loading,
            final(self)@ == after_fetch(old(self)@),
    {
        if self.loading {
            return false;
        }
        self.launched = true;
        self.error = None;
        self.loading = true;
        true
    }

    /// Collect what the fetch thread said at `now`, in nanoseconds since the
    /// Unix epoch. The first of the pair is
    /// true when anything changed and the page should be redrawn; the second
    /// is the manifest to write when a picture arrived and was cached.
    pub fn poll(&mut self, polled: Polled<P>, now: u128) -> (out: (bool, Option<Manifest>))
        ensures
            final(self)@ == after_poll(old(self)@, polled, now),
            out.0 == poll_changed(old(self)@, polled),
            match poll_manifest(old(self)@, polled, now) {
                Some((credit, path, at)) => out.1 matches Some(m) && m.credit == credit
                    && m.path@ == path && m.at == at,
                None => out.1 is None,
            },
    {
        if !self.loading {
            return (false, None);
        }
        match polled {
            Polled::Arrived(fetched) => {
                self.loading = false;
                let manifest = match fetched.cached {
                    Some(path) => {
                        self.fetched_at = Some(now);
                        Some(Manifest {
                            credit: fetched.credit.duplicate(),
                            path,
                            at: Some(((now / NANOS_PER_SECOND) as u64) as i64),
                        })
                    },
                    None => None,
                };
                self.credit = fetched.credit;
                self.pending = Some(fetched.image);
                (true, manifest)
            },
            Polled::Failed(why) => {
                self.loading = false;
                self.error = Some(why);
                (true, None)
            },
            Polled::Waiting => (false, None),
            Polled::GaveUp => {
                self.loading = false;
                self.error = Some(String::from_str("the fetch gave up"));
                (true, None)
            },
        }
    }

    /// Take the decoded picture, for the caller to upload as a texture.
    pub fn take_image(&mut self) -> (image: Option<P>)
        ensures
            image == old(self)@.pending,
            final(self)@ == after_take(old(self)@),
    {
        self.pending.take()
    }
}


// ── Laws of the schedule ───────────────────────────────────────────────────

/// A file the user chose is never due, whatever the cadence and the clock.
pub proof fn law_file_never_due<P>(w: WallpaperModel<P>, path: String, cadence: Cadence, now: u128)
    ensures
        !is_due(w, Source::File(path), cadence, now),
{
}

/// `Manually` is never due: only asking fetches.
pub proof fn law_manual_never_due<P>(w: WallpaperModel<P>, source: Source, now: u128)
    ensures
        !is_due(w, source, Cadence::Manual, now),
{
}

/// Once a fetch has started, nothing is due until it has been collected:
/// a second fetch is never started on top of the first.
pub proof fn law_nothing_due_while_fetching<P>(
    w: WallpaperModel<P>,
    source: Source,
    cadence: Cadence,
    now: u128,
)
    ensures
        after_fetch(w).loading,
        !is_due(after_fetch(w), source, cadence, now),
{
}

/// `Each launch` means once: after a fetch has started, whatever the
/// fetch thread answers, that cadence is not due again.
pub proof fn law_each_launch_means_once<P>(
    w: WallpaperModel<P>,
    polled: Polled<P>,
    then: u128,
    source: Source,
    now: u128,
)
    requires
        !w.loading,
    ensures
        !is_due(after_poll(after_fetch(w), polled, then), source, Cadence::Launch, now),
{
}

/// Asking before the thread has answered changes nothing, and says so.
pub proof fn law_waiting_changes_nothing<P>(w: WallpaperModel<P>, now: u128)
    ensures
        after_poll(w, Polled::Waiting, now) == w,
        !poll_changed(w, Polled::<P>::Waiting),
        poll_manifest(w, Polled::<P>::Waiting, now) is None,
{
}

/// Any answer from the thread ends the fetch, and is worth a redraw.
pub proof fn law_an_answer_ends_the_fetch<P>(w: WallpaperModel<P>, polled: Polled<P>, now: u128)
    requires
        w.loading,
        !(polled is Waiting),
    ensures
        !after_poll(w, polled, now).loading,
        poll_changed(w, polled),
{
}

/// A failed fetch keeps the picture and credit already there, and says why.
pub proof fn law_failure_keeps_the_picture<P>(w: WallpaperModel<P>, why: String, now: u128)
    requires
        w.loading,
    ensures
        after_poll(w, Polled::Failed(why), now).credit == w.credit,
        after_poll(w, Polled::Failed(why), now).pending == w.pending,
        after_poll(w, Polled::Failed(why), now).error == Some(why@),
{
}

/// A picture that arrives is the one handed to the page, with its credit.
pub proof fn law_arrival_is_shown<P>(w: WallpaperModel<P>, fetched: Fetched<P>, now: u128)
    requires
        w.loading,
    ensures
        after_poll(w, Polled::Arrived(fetched), now).pending == Some(fetched.image),
        after_poll(w, Polled::Arrived(fetched), now).credit == fetched.credit,
{
}

/// A picture that arrived and was cached at `then` makes an hourly or daily
/// cadence due again exactly when its interval has passed since `then`.
pub proof fn law_interval_counts_from_arrival<P>(
    w: WallpaperModel<P>,
    fetched: Fetched<P>,
    then: u128,
    source: Source,
    cadence: Cadence,
    now: u128,
)
    requires
        w.loading,
        fetched.cached is Some,
        !(source is File),
        cadence == Cadence::Hourly || cadence == Cadence::Daily,
        now >= then,
    ensures
        is_due(after_poll(w, Polled::Arrived(fetched), then), source, cadence, now) == (now - then
            >= cadence_interval(cadence)->0 * NANOS_PER_SECOND),
{
}


/// Only a fetch that starts marks the launch: a poll, a restore and taking
/// the picture leave it as it was, and a fetch asked for while another runs
/// changes nothing.
pub proof fn law_only_a_started_fetch_marks_the_launch<P>(
    w: WallpaperModel<P>,
    polled: Polled<P>,
    now: u128,
    credit: Credit,
    at: Option<i64>,
)
    ensures
        after_poll(w, polled, now).launched == w.launched,
        after_restore(w, credit, at).launched == w.launched,
        after_take(w).launched == w.launched,
        after_fetch(w).launched == (w.launched || !w.loading),
{
}

/// With nothing running and a source that is not a file, `Each launch` is
/// due exactly when no fetch has started since the wallpaper was made.
pub proof fn law_launch_due_iff_no_fetch_started<P>(w: WallpaperModel<P>, source: Source, now: u128)
    requires
        !w.loading,
        !(source is File),
    ensures
        is_due(w, source, Cadence::Launch, now) == !w.launched,
{
}

/// Each decoded picture is handed over at most once: once taken, nothing is
/// pending, and only a picture arriving while a fetch runs puts one back.
pub proof fn law_each_picture_is_handed_over_once<P>(
    w: WallpaperModel<P>,
    polled: Polled<P>,
    now: u128,
    credit: Credit,
    at: Option<i64>,
)
    ensures
        after_take(w).pending is None,
        after_take(after_take(w)).pending is None,
        after_fetch(after_take(w)).pending is None,
        after_restore(after_take(w), credit, at).pending is None,
        after_poll(after_take(w), polled, now).pending is Some ==> w.loading && polled is Arrived,
{
}

/// A restored picture keeps the time it was fetched: the manifest's seconds
/// become the moment the schedule counts from, a time before 1970 counts
/// from 1970 itself, and a manifest without a time leaves none.
pub proof fn law_restore_keeps_the_fetch_time<P>(w: WallpaperModel<P>, credit: Credit, seconds: i64)
    ensures
        after_restore(w, credit, Some(seconds)).loading,
        after_restore(w, credit, Some(seconds)).credit == credit,
        seconds >= 0 ==> after_restore(w, credit, Some(seconds)).fetched_at == Some(
            (seconds * 1_000_000_000int) as u128,
        ),
        seconds < 0 ==> after_restore(w, credit, Some(seconds)).fetched_at == Some(0u128),
        after_restore(w, credit, None).fetched_at is None,
{
}

/// After a cached picture fetched at `seconds` is restored and its decode
/// collected, an hourly or daily cadence is not due until its interval has
/// passed since `seconds`, and is due from then on: restoring at launch
/// neither starts the clock again nor forgets it.
pub proof fn law_restored_picture_counts_from_its_fetch<P>(
    w: WallpaperModel<P>,
    credit: Credit,
    seconds: i64,
    decoded: Fetched<P>,
    then: u128,
    source: Source,
    cadence: Cadence,
    now: u128,
)
    requires
        seconds >= 0,
        decoded.cached is None,
        !(source is File),
        cadence == Cadence::Hourly || cadence == Cadence::Daily,
        now >= seconds * 1_000_000_000int,
    ensures
        is_due(
            after_poll(after_restore(w, credit, Some(seconds)), Polled::Arrived(decoded), then),
            source,
            cadence,
            now,
        ) == (now - seconds * 1_000_000_000int >= cadence_interval(cadence)->0 * 1_000_000_000int),
{
    let r = after_poll(after_restore(w, credit, Some(seconds)), Polled::Arrived(decoded), then);
    assert(r.fetched_at == Some((seconds * 1_000_000_000int) as u128));
    assert(!r.loading);
}


/// A character a search for Openverse may hold: a lower-case ASCII letter, or
/// the `+` that stands for a space.
pub open spec fn search_char(c: char) -> bool {
    ('a' <= c && c <= 'z') || c == '+'
}

/// Every subject's search is lower-case words joined by `+`: no spaces,
/// more than one word, and no two subjects ask for the same thing.
pub proof fn law_subject_searches_are_distinct_words(a: Subject, b: Subject)
    ensures
        forall|i: int| 0 <= i < subject_search(a).len() ==> search_char(#[trigger] subject_search(a)[i]),
        exists|i: int| 0 <= i < subject_search(a).len() && #[trigger] subject_search(a)[i] == '+',
        a != b ==> subject_search(a) != subject_search(b),
{
    reveal_strlit("landscape+photograph+scenery");
    reveal_strlit("mountain+range+peaks");
    reveal_strlit("coast+sea+shoreline");
    reveal_strlit("forest+trees+woodland");
    reveal_strlit("sky+clouds+horizon");
    reveal_strlit("night+sky+stars");
    reveal_strlit("city+skyline+architecture");
    reveal_strlit("abstract+texture+pattern");
    let s = subject_search(a);
    assert(exists|i: int| 0 <= i < s.len() && #[trigger] s[i] == '+') by {
        match a {
            Subject::Landscape => assert(s[9] == '+'),
            Subject::Mountains => assert(s[8] == '+'),
            Subject::Coast => assert(s[5] == '+'),
            Subject::Forest => assert(s[6] == '+'),
            Subject::Sky => assert(s[3] == '+'),
            Subject::Night => assert(s[5] == '+'),
            Subject::City => assert(s[4] == '+'),
            Subject::Texture => assert(s[8] == '+'),
        }
    }
    if a != b {
        let t = subject_search(b);
        assert(s[0] != t[0] || s[1] != t[1]);
    }
}

} // verus!
