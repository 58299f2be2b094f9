//! What the fetch thread asks for and what it makes of the answers: the
//! addresses of the two sources, which of Openverse's results are worth
//! downloading and in what order, the credit each source's metadata makes,
//! the day a picture of the day is taken from, and where the bytes are kept.
//!
//! The network, the JSON and the decode are the thread's; every choice made
//! between them is here.

use vstd::prelude::*;

use chrono::Datelike;

use crate::chars::{chars_of, push_char, string_of};
use crate::text::{find_pat, replace_all, replace_chars, starts_with, trim_chars, trimmed};
use crate::wallpaper::{
    licence_name, licence_text, lower_case, pretty_title, prettied, strip_markup, stripped_markup,
    subject_search, upper_case, Credit, Subject,
};

verus! {

// ── Numbers as text ────────────────────────────────────────────────────────

/// The digit for `d`, below ten.
pub open spec fn digit_char(d: nat) -> char {
    (0x30 + d) as char
}

/// `n` in decimal, as `{}` writes it.
pub open spec fn decimal(n: nat) -> Seq<char>
    decreases n,
{
    if n < 10 {
        seq![digit_char(n)]
    } else {
        decimal(n / 10).push(digit_char(n % 10))
    }
}

/// `n` in decimal with at least two digits, as `{:02}` writes it.
pub open spec fn two_digits(n: nat) -> Seq<char> {
    if n < 10 {
        seq!['0'] + decimal(n)
    } else {
        decimal(n)
    }
}

/// `n` in decimal with its sign, as `{}` writes a signed number.
pub open spec fn signed_decimal(n: int) -> Seq<char> {
    if n < 0 {
        seq!['-'] + decimal((-n) as nat)
    } else {
        decimal(n as nat)
    }
}

/// A decimal numeral has at least one digit, and at least two from ten on.
proof fn lemma_decimal_len(n: nat)
    ensures
        decimal(n).len() >= 1,
        n >= 10 ==> decimal(n).len() >= 2,
        n < 10 ==> decimal(n).len() == 1,
    decreases n,
{
    if n >= 10 {
        lemma_decimal_len(n / 10);
    }
}

/// Two digits are written as `{:02}` writes them: a number below ten gets a
/// leading zero, one from ten to ninety-nine is its own two digits, and no
/// number is ever written with fewer than two digits or padded beyond them.
pub proof fn law_two_digits_pads_to_two(n: nat)
    ensures
        n < 10 ==> two_digits(n) == seq!['0', digit_char(n)],
        10 <= n < 100 ==> two_digits(n) == seq![digit_char(n / 10), digit_char(n % 10)],
        n >= 10 ==> two_digits(n) == decimal(n),
        two_digits(n).len() == (if decimal(n).len() < 2 { 2 } else { decimal(n).len() }),
{
    lemma_decimal_len(n);
    if 10 <= n < 100 {
        assert(decimal(n / 10) == seq![digit_char(n / 10)]);
        assert(decimal(n) =~= seq![digit_char(n / 10), digit_char(n % 10)]);
    }
    if n < 10 {
        assert(two_digits(n) =~= seq!['0', digit_char(n)]);
    }
}

/// Append `n` in decimal.
pub fn push_decimal(out: &mut String, n: u64)
    ensures
        final(out)@ == old(out)@ + decimal(n as nat),
    decreases n,
{
    if n >= 10 {
        push_decimal(out, n / 10);
    }
    push_char(out, ((0x30 + (n % 10)) as u8) as char);
    assert(final(out)@ =~= old(out)@ + decimal(n as nat));
}

/// Append `n` in decimal with at least two digits.
pub fn push_two_digits(out: &mut String, n: u64)
    ensures
        final(out)@ == old(out)@ + two_digits(n as nat),
{
    if n < 10 {
        push_char(out, '0');
    }
    push_decimal(out, n);
    assert(final(out)@ =~= old(out)@ + two_digits(n as nat));
}

/// Append `n` in decimal with its sign.
pub fn push_signed(out: &mut String, n: i32)
    ensures
        final(out)@ == old(out)@ + signed_decimal(n as int),
{
    if n < 0 {
        push_char(out, '-');
        let magnitude: i64 = -(n as i64);
        push_decimal(out, magnitude as u64);
    } else {
        push_decimal(out, n as u64);
    }
    assert(final(out)@ =~= old(out)@ + signed_decimal(n as int));
}

// ── Addresses ──────────────────────────────────────────────────────────────

/// Wikimedia's feed of featured content for a day.
pub open spec fn commons_feed_address(year: int, month: nat, day: nat) -> Seq<char> {
    "https://api.wikimedia.org/feed/v1/wikipedia/en/featured/"@ + signed_decimal(year) + "/"@
        + two_digits(month) + "/"@ + two_digits(day)
}

/// The feed of the picture of the day for a given day.
pub fn commons_feed_url(year: i32, month: u32, day: u32) -> (url: String)
    ensures
        url@ == commons_feed_address(year as int, month as nat, day as nat),
{
    let mut url = String::from_str("https://api.wikimedia.org/feed/v1/wikipedia/en/featured/");
    push_signed(&mut url, year);
    url.append("/");
    push_two_digits(&mut url, month as u64);
    url.append("/");
    push_two_digits(&mut url, day as u64);
    url
}

/// Openverse's search for a subject, one page of twenty wide, large,
/// openly licensed photographs.
pub open spec fn openverse_address(subject: Subject, page: nat) -> Seq<char> {
    "https://api.openverse.org/v1/images/?q="@ + subject_search(subject)
        + "&license_type=all-cc&aspect_ratio=wide&size=large&page_size=20&mature=false&page="@
        + decimal(page)
}

/// The search for `subject`, at page `page`.
pub fn openverse_query_url(subject: Subject, page: u32) -> (url: String)
    ensures
        url@ == openverse_address(subject, page as nat),
{
    let mut url = String::from_str("https://api.openverse.org/v1/images/?q=");
    url.append(subject.query());
    url.append("&license_type=all-cc&aspect_ratio=wide&size=large&page_size=20&mature=false&page=");
    push_decimal(&mut url, page as u64);
    url
}

/// The width a picture of the day is asked for at.
pub const WANT_WIDTH: u32 = 1920;

/// What the url crate makes of `base` with `segment` pushed onto its path
/// (percent-encoded, `/` and `%` included) and its query set to `query`,
/// serialized; none when `base` does not parse or cannot take segments.
pub uninterp spec fn url_with_segment(base: Seq<char>, segment: Seq<char>, query: Seq<char>) -> Option<Seq<char>>;

/// The longest address or query the url wrapper is handed, in characters.
pub const MAX_URL_PART: usize = 256;

/// The longest file name that is turned into an address, in characters: as
/// many as the largest metadata body the fetch accepts can hold.
pub const MAX_TITLE: usize = 4194304;

/// `Url::parse`, then `PathSegmentsMut::push` and `Url::set_query`.
///
/// The url crate keeps positions in its serialization as `u32` and panics
/// past that; the bounds in `requires` keep the whole address well under it
/// (every character becomes at most twelve bytes once percent-encoded).
#[verifier::external_body]
fn segment_url(base: &str, segment: &str, query: &str) -> (out: Option<String>)
    requires
        base@.len() <= MAX_URL_PART,
        query@.len() <= MAX_URL_PART,
        segment@.len() <= MAX_TITLE,
    ensures
        match out {
            Some(url) => url_with_segment(base@, segment@, query@) == Some(url@),
            None => url_with_segment(base@, segment@, query@) is None,
        },
{
    let mut url = url::Url::parse(base).ok()?;
    url.path_segments_mut().ok()?.push(segment);
    url.set_query(Some(query));
    Some(url.to_string())
}

/// Where `Special:FilePath` is.
pub open spec fn file_path_base() -> Seq<char> {
    "https://commons.wikimedia.org/wiki/Special:FilePath"@
}

/// The sized copy of a file: `Special:FilePath` with the file name pushed
/// onto it and the width asked for, unless the name is longer than any
/// metadata could hold.
pub open spec fn sized_address(title: Seq<char>) -> Option<Seq<char>> {
    if title.len() > MAX_TITLE {
        None
    } else {
        url_with_segment(file_path_base(), title, "width="@ + decimal(WANT_WIDTH as nat))
    }
}

/// The view of an optional `String`.
pub open spec fn opt_string_view(s: Option<String>) -> Option<Seq<char>> {
    match s {
        Some(t) => Some(t@),
        None => None,
    }
}

/// `Special:FilePath` takes a file name and a width and redirects to the
/// right thumbnail, which saves knowing how the file store lays its paths out.
pub fn file_path_url(title: &str) -> (url: Option<String>)
    ensures
        opt_string_view(url) == sized_address(title@),
{
    if chars_of(title).len() > MAX_TITLE {
        return None;
    }
    let mut query = String::from_str("width=");
    push_decimal(&mut query, WANT_WIDTH as u64);
    let base = "https://commons.wikimedia.org/wiki/Special:FilePath";
    proof {
        reveal_strlit("https://commons.wikimedia.org/wiki/Special:FilePath");
        reveal_strlit("width=");
        reveal_with_fuel(decimal, 5);
        assert(decimal(1920).len() == 4);
    }
    segment_url(base, title, query.as_str())
}

// ── Metadata ───────────────────────────────────────────────────────────────

/// A metadata field as text: the string, trimmed, or nothing.
pub open spec fn field_text(raw: Option<Seq<char>>) -> Seq<char> {
    match raw {
        Some(s) => trimmed(s),
        None => seq![],
    }
}

/// A metadata field as text, given the string it holds if it holds one.
pub fn text(raw: Option<&str>) -> (out: String)
    ensures
        out@ == field_text(match raw {
            Some(s) => Some(s@),
            None => None,
        }),
{
    match raw {
        Some(s) => string_of(&trim_chars(&chars_of(s))),
        None => String::new(),
    }
}

/// One of Openverse's results, its fields already read as text.
pub struct OpenverseItem {
    pub width: Option<u64>,
    pub filesize: Option<u64>,
    pub filetype: String,
    pub url: String,
    pub title: String,
    pub creator: String,
    pub license: String,
    pub license_version: String,
    pub foreign_landing_url: String,
}

/// The largest picture worth downloading, in bytes.
pub const MAX_BYTES: u64 = 25165824;

/// The narrowest picture worth downloading, in pixels.
pub const MIN_WIDTH: u64 = 1600;

/// Whether a result is worth the transfer: wide, not too large, in a format
/// the decoder has, and served over https.
pub open spec fn is_usable(item: OpenverseItem) -> bool {
    &&& item.width matches Some(w) && w >= MIN_WIDTH
    &&& item.filesize matches Some(size) ==> size <= MAX_BYTES
    &&& {
        let kind = lower_case(item.filetype@);
        kind == "jpg"@ || kind == "jpeg"@ || kind == "png"@
    }
    &&& starts_with(item.url@, "https://"@)
}

/// Whether `s` has exactly the characters of `lit`.
fn equals_text(s: &[char], lit: &str) -> (b: bool)
    ensures
        b == (s@ == lit@),
{
    crate::wallpaper::same_chars(s, &chars_of(lit))
}

/// Whether one result is worth the transfer, as [`is_usable`] says.
pub fn usable(item: &OpenverseItem) -> (b: bool)
    ensures
        b == is_usable(*item),
{
    let wide = match item.width {
        Some(w) => w >= MIN_WIDTH,
        None => false,
    };
    let small = match item.filesize {
        Some(size) => size <= MAX_BYTES,
        None => true,
    };
    let kind = chars_of(crate::wallpaper::to_lowercase(item.filetype.as_str()).as_str());
    let format = equals_text(&kind, "jpg") || equals_text(&kind, "jpeg") || equals_text(&kind, "png");
    let url = chars_of(item.url.as_str());
    let https = crate::text::matches_at(&url, 0, &chars_of("https://"));
    proof {
        reveal_strlit("https://");
        if "https://"@.len() <= url@.len() {
            assert(url@.subrange(0, "https://"@.len() as int) =~= url@.take(
                "https://"@.len() as int,
            ));
        }
    }
    wide && small && format && https
}

/// The places, in order, of the usable results among the first `n` of
/// `items`.
pub open spec fn usable_indices(items: Seq<OpenverseItem>, n: nat) -> Seq<usize>
    decreases n,
{
    if n == 0 {
        seq![]
    } else {
        let before = usable_indices(items, (n - 1) as nat);
        if is_usable(items[n - 1]) {
            before.push((n - 1) as usize)
        } else {
            before
        }
    }
}

/// Which results are worth the transfer, as their places in `items`, in
/// order: every usable one, and nothing else.
pub fn usable_items(items: &Vec<OpenverseItem>) -> (out: Vec<usize>)
    ensures
        out@ == usable_indices(items@, items.len() as nat),
        forall|k: int| 0 <= k < out.len() ==> out[k] < items.len() && is_usable(items@[out[k] as int]),
        forall|k: int, l: int| 0 <= k < l < out.len() ==> out[k] < out[l],
        forall|i: int| 0 <= i < items.len() && is_usable(#[trigger] items@[i]) ==> out@.contains(i as usize),
{
    let mut out: Vec<usize> = Vec::new();
    let mut i: usize = 0;
    while i < items.len()
        invariant
            i <= items.len(),
            forall|k: int| 0 <= k < out.len() ==> out[k] < i && is_usable(items@[out[k] as int]),
            forall|k: int, l: int| 0 <= k < l < out.len() ==> out[k] < out[l],
            forall|j: int| 0 <= j < i && is_usable(#[trigger] items@[j]) ==> out@.contains(j as usize),
            out@ == usable_indices(items@, i as nat),
        decreases items.len() - i,
    {
        if usable(&items[i]) {
            let ghost prev = out@;
            out.push(i);
            proof {
                assert forall|j: int| 0 <= j < i + 1 && is_usable(#[trigger] items@[j]) implies out@.contains(j as usize) by {
                    if j == i {
                        assert(out@[out.len() - 1] == i);
                    } else {
                        assert(prev.contains(j as usize));
                        let k = choose|k: int| 0 <= k < prev.len() && prev[k] == j as usize;
                        assert(out@[k] == j as usize);
                    }
                }
            }
        }
        i = i + 1;
    }
    out
}

/// The most results tried before giving up: an index can outlive the file it
/// points at, but four dead links in a row is a source having a bad day.
pub const MAX_TRIES: usize = 4;

/// The order in which `count` usable results are tried, starting from the
/// one `random` picks: up to four, each the next after the last, wrapping.
pub open spec fn try_order(random: nat, count: nat) -> Seq<nat> {
    Seq::new(
        if count < MAX_TRIES { count } else { MAX_TRIES as nat },
        |offset: int| ((random % count) + offset) as nat % count,
    )
}

/// The order in which to try `count` usable results, as [`try_order`] says.
pub fn order_to_try(random: u32, count: usize) -> (out: Vec<usize>)
    requires
        count > 0,
    ensures
        out@.len() == try_order(random as nat, count as nat).len(),
        forall|k: int| 0 <= k < out.len() ==> out[k] as nat == try_order(random as nat, count as nat)[k],
        forall|k: int| 0 <= k < out.len() ==> out[k] < count,
{
    let start = (random as usize) % count;
    let tries = if count < MAX_TRIES { count } else { MAX_TRIES };
    let mut out: Vec<usize> = Vec::new();
    let mut offset: usize = 0;
    while offset < tries
        invariant
            count > 0,
            start == (random as nat) % (count as nat),
            tries == (if count < MAX_TRIES { count } else { MAX_TRIES }),
            offset <= tries,
            out@.len() == offset,
            forall|k: int| 0 <= k < offset ==> out[k] as nat == ((start + k) as nat) % (count as nat),
        decreases tries - offset,
    {
        let next = if offset < count - start {
            start + offset
        } else {
            offset - (count - start)
        };
        assert(next as nat == ((start + offset) as nat) % (count as nat)) by (nonlinear_arith)
            requires
                start < count,
                offset < count,
                next == (if offset < count - start { start + offset } else { offset - (count - start) }),
        {
            if offset < count - start {
                assert(((start + offset) as nat) % (count as nat) == (start + offset) as nat);
            } else {
                assert((start + offset) as nat == (count as nat) + next as nat);
            }
        }
        out.push(next);
        offset = offset + 1;
    }
    out
}

/// No result is tried twice, and every one tried is a usable one.
pub proof fn law_no_result_is_tried_twice(random: nat, count: nat)
    requires
        count > 0,
    ensures
        forall|k: int| 0 <= k < try_order(random, count).len() ==> #[trigger] try_order(random, count)[k] < count,
        forall|k: int, l: int|
            0 <= k < l < try_order(random, count).len() ==> try_order(random, count)[k]
                != try_order(random, count)[l],
{
    let order = try_order(random, count);
    let start = random % count;
    assert forall|k: int| 0 <= k < order.len() implies #[trigger] order[k] < count by {
        assert(((start + k) as nat) % count < count) by (nonlinear_arith)
            requires count > 0;
    }
    assert forall|k: int, l: int| 0 <= k < l < order.len() implies order[k] != order[l] by {
        let a = (start + k) as nat;
        let b = (start + l) as nat;
        assert(a % count != b % count) by (nonlinear_arith)
            requires
                count > 0,
                a < b,
                b - a < count,
        {
            vstd::arithmetic::div_mod::lemma_fundamental_div_mod(a as int, count as int);
            vstd::arithmetic::div_mod::lemma_fundamental_div_mod(b as int, count as int);
            if a % count == b % count {
                assert((b - a) == count * (b / count - a / count));
                if b / count - a / count >= 1 {
                    assert(count * (b / count - a / count) >= count);
                } else {
                    assert(b / count - a / count <= 0);
                    assert(count * (b / count - a / count) <= 0);
                }
            }
        }
    }
}

/// What the fetch makes of a page of Openverse's results: the places of the
/// results to try, in the order to try them, or why there is nothing to try.
/// None for `results` is a page without a list of results in it.
pub open spec fn openverse_plan_for(
    results: Option<Seq<OpenverseItem>>,
    subject: Subject,
    random: u32,
) -> Result<Seq<usize>, Seq<char>> {
    match results {
        None => Err("Openverse returned nothing"@),
        Some(items) => {
            let usable = usable_indices(items, items.len());
            if usable.len() == 0 {
                Err("nothing usable for "@ + crate::wallpaper::subject_name(subject))
            } else {
                let order = try_order(random as nat, usable.len());
                Ok(Seq::new(order.len(), |k: int| usable[order[k] as int]))
            }
        },
    }
}

/// The view of a plan.
pub open spec fn plan_view(plan: Result<Vec<usize>, String>) -> Result<Seq<usize>, Seq<char>> {
    match plan {
        Ok(v) => Ok(v@),
        Err(e) => Err(e@),
    }
}

/// Which of a page of Openverse's results to try, and in what order, as
/// [`openverse_plan_for`] says.
pub fn openverse_plan(results: Option<&Vec<OpenverseItem>>, subject: Subject, random: u32) -> (plan: Result<Vec<usize>, String>)
    ensures
        plan_view(plan) == openverse_plan_for(
            match results {
                Some(items) => Some(items@),
                None => None,
            },
            subject,
            random,
        ),
{
    let items = match results {
        None => return Err(String::from_str("Openverse returned nothing")),
        Some(items) => items,
    };
    let usable = usable_items(items);
    if usable.len() == 0 {
        let mut why = String::from_str("nothing usable for ");
        why.append(subject.label());
        return Err(why);
    }
    let order = order_to_try(random, usable.len());
    let mut plan: Vec<usize> = Vec::new();
    let mut k: usize = 0;
    let ghost spec_order = try_order(random as nat, usable@.len());
    while k < order.len()
        invariant
            k <= order.len(),
            order@.len() == spec_order.len(),
            forall|m: int| 0 <= m < order.len() ==> order[m] as nat == spec_order[m],
            forall|m: int| 0 <= m < order.len() ==> order[m] < usable.len(),
            plan@.len() == k,
            forall|m: int| 0 <= m < k ==> plan@[m] == usable@[spec_order[m] as int],
        decreases order.len() - k,
    {
        plan.push(usable[order[k]]);
        k = k + 1;
    }
    assert(plan@ =~= Seq::new(spec_order.len(), |m: int| usable@[spec_order[m] as int]));
    Ok(plan)
}

/// What a download loop reports when it has not yet had a failure to report.
pub fn nothing_downloaded() -> (why: String)
    ensures
        why@ == "nothing downloaded"@,
{
    String::from_str("nothing downloaded")
}

/// The credit an Openverse result makes: its title and creator with the
/// markup some providers leave in them taken out, and its licence by name.
pub open spec fn openverse_credit(item: OpenverseItem) -> (Seq<char>, Seq<char>, Seq<char>, Seq<char>, Seq<char>) {
    (
        stripped_markup(item.title@),
        stripped_markup(item.creator@),
        licence_text(upper_case(item.license@), item.license_version@),
        item.foreign_landing_url@,
        "Openverse"@,
    )
}

/// The view of a credit, field by field.
pub open spec fn credit_fields(c: Credit) -> (Seq<char>, Seq<char>, Seq<char>, Seq<char>, Seq<char>) {
    (c.title@, c.author@, c.licence@, c.page@, c.source@)
}

/// The view of an optional `&str`.
pub open spec fn opt_text(raw: Option<&str>) -> Option<Seq<char>> {
    match raw {
        Some(s) => Some(s@),
        None => None,
    }
}

impl OpenverseItem {
    /// A result, from the numbers and strings its metadata holds, each string
    /// read as [`field_text`] says.
    pub fn from_fields(
        width: Option<u64>,
        filesize: Option<u64>,
        filetype: Option<&str>,
        url: Option<&str>,
        title: Option<&str>,
        creator: Option<&str>,
        license: Option<&str>,
        license_version: Option<&str>,
        foreign_landing_url: Option<&str>,
    ) -> (item: OpenverseItem)
        ensures
            item.width == width,
            item.filesize == filesize,
            item.filetype@ == field_text(opt_text(filetype)),
            item.url@ == field_text(opt_text(url)),
            item.title@ == field_text(opt_text(title)),
            item.creator@ == field_text(opt_text(creator)),
            item.license@ == field_text(opt_text(license)),
            item.license_version@ == field_text(opt_text(license_version)),
            item.foreign_landing_url@ == field_text(opt_text(foreign_landing_url)),
    {
        OpenverseItem {
            width,
            filesize,
            filetype: text(filetype),
            url: text(url),
            title: text(title),
            creator: text(creator),
            license: text(license),
            license_version: text(license_version),
            foreign_landing_url: text(foreign_landing_url),
        }
    }

    /// The credit this result makes, as [`openverse_credit`] says.
    pub fn credit(&self) -> (c: Credit)
        ensures
            credit_fields(c) == openverse_credit(*self),
    {
        Credit {
            title: strip_markup(self.title.as_str()),
            author: strip_markup(self.creator.as_str()),
            licence: licence_name(self.license.as_str(), self.license_version.as_str()),
            page: self.foreign_landing_url.clone(),
            source: String::from_str("Openverse"),
        }
    }
}

/// A picture of the day, its fields already read as text.
pub struct CommonsImage {
    /// The file's title, `File:` and all.
    pub title: String,
    /// The artist, as HTML.
    pub artist: String,
    pub license: String,
    pub file_page: String,
    /// The feed's own small copy, always there.
    pub thumbnail: String,
}

/// The file name in a Commons title: the title without `File:`.
pub open spec fn commons_file(image: CommonsImage) -> Seq<char> {
    replace_all(image.title@, "File:"@, seq![])
}

/// The credit a picture of the day makes.
pub open spec fn commons_credit(image: CommonsImage) -> (Seq<char>, Seq<char>, Seq<char>, Seq<char>, Seq<char>) {
    (
        prettied(commons_file(image)),
        stripped_markup(image.artist@),
        image.license@,
        image.file_page@,
        "Wikimedia Commons"@,
    )
}

impl CommonsImage {
    /// A picture of the day, from the strings its metadata holds, each read
    /// as [`field_text`] says.
    pub fn from_fields(
        title: Option<&str>,
        artist: Option<&str>,
        license: Option<&str>,
        file_page: Option<&str>,
        thumbnail: Option<&str>,
    ) -> (image: CommonsImage)
        ensures
            image.title@ == field_text(opt_text(title)),
            image.artist@ == field_text(opt_text(artist)),
            image.license@ == field_text(opt_text(license)),
            image.file_page@ == field_text(opt_text(file_page)),
            image.thumbnail@ == field_text(opt_text(thumbnail)),
    {
        CommonsImage {
            title: text(title),
            artist: text(artist),
            license: text(license),
            file_page: text(file_page),
            thumbnail: text(thumbnail),
        }
    }

    /// The file name, without `File:`.
    pub fn file(&self) -> (out: String)
        ensures
            out@ == commons_file(*self),
    {
        proof {
            reveal_strlit("File:");
        }
        let empty: Vec<char> = Vec::new();
        string_of(&replace_chars(&chars_of(self.title.as_str()), &chars_of("File:"), &empty))
    }

    /// The credit this picture makes, as [`commons_credit`] says.
    pub fn credit(&self) -> (c: Credit)
        ensures
            credit_fields(c) == commons_credit(*self),
            c.page@ == self.file_page@,
            c.source@ == "Wikimedia Commons"@,
    {
        let file = self.file();
        Credit {
            title: pretty_title(file.as_str()),
            author: strip_markup(self.artist.as_str()),
            licence: self.license.clone(),
            page: self.file_page.clone(),
            source: String::from_str("Wikimedia Commons"),
        }
    }

    /// Where to download the picture from, in the order to try: the sized
    /// copy `Special:FilePath` redirects to, then the feed's thumbnail.
    pub fn candidates(&self) -> (out: Vec<String>)
        ensures
            out@.len() == (if sized_address(commons_file(*self)) is Some { 1int } else { 0int })
                + (if self.thumbnail@.len() > 0 { 1int } else { 0int }),
            sized_address(commons_file(*self)) matches Some(sized) ==> out@[0]@ == sized,
            self.thumbnail@.len() > 0 ==> out@[out@.len() - 1]@ == self.thumbnail@,
    {
        let mut out: Vec<String> = Vec::new();
        let file = self.file();
        match file_path_url(file.as_str()) {
            Some(sized) => out.push(sized),
            None => {},
        }
        assert(out@.len() == (if sized_address(commons_file(*self)) is Some { 1int } else { 0int }));
        if chars_of(self.thumbnail.as_str()).len() > 0 {
            out.push(self.thumbnail.clone());
        }
        out
    }
}

/// A credit links back to the page it came from and names its source: a
/// picture of the day credits its file page, its licence as the feed gives
/// it, and Wikimedia Commons; an Openverse result credits the page it was
/// found on and Openverse. Titles and authors are shown without markup.
pub proof fn law_credit_links_back_to_its_page(image: CommonsImage, item: OpenverseItem)
    ensures
        commons_credit(image).3 == image.file_page@,
        commons_credit(image).2 == image.license@,
        commons_credit(image).4 == "Wikimedia Commons"@,
        commons_credit(image).1 == stripped_markup(image.artist@),
        commons_credit(image).0 == prettied(replace_all(image.title@, "File:"@, seq![])),
        openverse_credit(item).3 == item.foreign_landing_url@,
        openverse_credit(item).4 == "Openverse"@,
        openverse_credit(item).0 == stripped_markup(item.title@),
        openverse_credit(item).1 == stripped_markup(item.creator@),
{
}


// ── Trying days for a picture of the day ───────────────────────────────────

/// How many days a search for a picture of the day tries: a handful of days
/// have no picture in the feed, and a failure on one is not worth reporting
/// while another day might have one.
pub const COMMONS_DAYS: u32 = 4;

/// Where a search for a picture of the day has got to: which day it is on,
/// and the last thing that went wrong.
pub struct CommonsSearch {
    day: u32,
    last: String,
}

/// What a [`CommonsSearch`] holds, as the contracts speak of it.
pub struct CommonsSearchModel {
    pub day: u32,
    pub last: Seq<char>,
}

impl View for CommonsSearch {
    type V = CommonsSearchModel;

    closed spec fn view(&self) -> CommonsSearchModel {
        CommonsSearchModel { day: self.day, last: self.last@ }
    }
}

/// The salt of the day to try next, while there are days left.
pub open spec fn search_next_day(m: CommonsSearchModel) -> Option<u32> {
    if m.day < COMMONS_DAYS {
        Some(m.day)
    } else {
        None
    }
}

/// The search after a day has been tried, found or not.
pub open spec fn search_after_day(m: CommonsSearchModel) -> CommonsSearchModel {
    CommonsSearchModel {
        day: if m.day < COMMONS_DAYS { (m.day + 1) as u32 } else { m.day },
        ..m
    }
}

/// The search after something went wrong, for this reason.
pub open spec fn search_after_failure(m: CommonsSearchModel, why: Seq<char>) -> CommonsSearchModel {
    CommonsSearchModel { last: why, ..m }
}

impl CommonsSearch {
    /// A search that has tried nothing, and has nothing to report yet.
    pub fn new() -> (s: Self)
        ensures
            s@.day == 0,
            s@.last == "no picture of the day"@,
    {
        CommonsSearch { day: 0, last: String::from_str("no picture of the day") }
    }

    /// The salt for [`random_day`] of the day to try next, or none when the
    /// days are used up.
    pub fn next_day(&self) -> (salt: Option<u32>)
        ensures
            salt == search_next_day(self@),
    {
        if self.day < COMMONS_DAYS {
            Some(self.day)
        } else {
            None
        }
    }

    /// A day has been tried. A day whose feed holds no picture ends with
    /// this alone, so nothing is recorded against it.
    pub fn day_done(&mut self)
        ensures
            final(self)@ == search_after_day(old(self)@),
    {
        if self.day < COMMONS_DAYS {
            self.day = self.day + 1;
        }
    }

    /// Something went wrong, for this reason: the feed, its JSON, or a
    /// download of the picture.
    pub fn failed(&mut self, why: String)
        ensures
            final(self)@ == search_after_failure(old(self)@, why@),
    {
        self.last = why;
    }

    /// What to report when every day has been tried without a picture.
    pub fn give_up(self) -> (why: String)
        ensures
            why@ == self@.last,
    {
        self.last
    }
}

/// A search tries exactly the days its salts count through, and no more than
/// [`COMMONS_DAYS`] of them: from a fresh search the day to try is the
/// number of days already done, and after that many there is none.
pub proof fn law_search_tries_each_day_once(m: CommonsSearchModel)
    requires
        m.day <= COMMONS_DAYS,
    ensures
        search_after_day(m).day <= COMMONS_DAYS,
        search_next_day(m) matches Some(salt) ==> salt == m.day && search_next_day(
            search_after_day(m),
        ) != Some(salt),
        m.day == COMMONS_DAYS ==> search_next_day(m) is None && search_after_day(m) == m,
{
}

/// A failure is remembered until the next one: what is reported at the end
/// is the last thing that went wrong, and trying another day forgets nothing.
pub proof fn law_search_reports_the_last_failure(m: CommonsSearchModel, why: Seq<char>, later: Seq<char>)
    ensures
        search_after_failure(m, why).last == why,
        search_after_day(search_after_failure(m, why)).last == why,
        search_after_failure(search_after_failure(m, why), later).last == later,
{
}

// ── Chance and the calendar ────────────────────────────────────────────────

/// One round of a well-known integer mix over a clock reading and a salt,
/// which spreads the low bits a modulo would otherwise read straight off
/// the clock.
pub open spec fn mixed(clock: u32, salt: u32) -> u32 {
    let v0 = vstd::wrapping::u32_specs::wrapping_add(
        clock,
        vstd::wrapping::u32_specs::wrapping_mul(salt, 2654435761u32),
    );
    let v1 = v0 ^ (v0 >> 16u32);
    let v2 = vstd::wrapping::u32_specs::wrapping_mul(v1, 0x7feb352du32);
    let v3 = v2 ^ (v2 >> 15u32);
    let v4 = vstd::wrapping::u32_specs::wrapping_mul(v3, 0x846ca68bu32);
    v4 ^ (v4 >> 16u32)
}

/// The mix, as [`mixed`] says.
pub fn mix(clock: u32, salt: u32) -> (out: u32)
    ensures
        out == mixed(clock, salt),
{
    let mut value = clock.wrapping_add(salt.wrapping_mul(2654435761));
    value = value ^ (value >> 16);
    value = value.wrapping_mul(0x7feb_352d);
    value = value ^ (value >> 15);
    value = value.wrapping_mul(0x846c_a68b);
    value ^ (value >> 16)
}

/// The time since the Unix epoch, as whole seconds and the nanoseconds past
/// them, from `SystemTime::now`; none when the clock is set before 1970.
#[verifier::external_body]
fn since_epoch() -> (out: Option<(u64, u32)>)
    ensures
        out matches Some((_, nanos)) ==> nanos < 1_000_000_000,
{
    std::time::SystemTime::now().duration_since(std::time::UNIX_EPOCH).ok().map(
        |since| (since.as_secs(), since.subsec_nanos()),
    )
}

/// What the clock contributes to a random number: the nanoseconds, mixed
/// with the low bits of the seconds.
pub open spec fn clock_bits(since: Option<(u64, u32)>) -> u32 {
    match since {
        Some((secs, nanos)) => nanos ^ (secs as u32),
        None => 0,
    }
}

/// Enough randomness to pick a picture with. Not enough for anything else.
pub fn random_u32(salt: u32) -> (out: u32)
    ensures
        exists|since: Option<(u64, u32)>| out == mixed(clock_bits(since), salt),
{
    let since = since_epoch();
    let clock = match since {
        Some((secs, nanos)) => nanos ^ (secs as u32),
        None => 0,
    };
    let out = mix(clock, salt);
    assert(out == mixed(clock_bits(since), salt));
    out
}

/// The date `days` days before the given one, by chrono's calendar; none
/// when the given date does not exist or the answer is out of chrono's range.
pub uninterp spec fn date_minus_days(year: i32, month: u32, day: u32, days: i64) -> Option<(i32, u32, u32)>;

/// `NaiveDate::from_ymd_opt`, then `NaiveDate::checked_sub_signed` by a
/// `TimeDelta` of whole days.
#[verifier::external_body]
fn days_before(year: i32, month: u32, day: u32, days: i64) -> (out: Option<(i32, u32, u32)>)
    ensures
        out == date_minus_days(year, month, day, days),
{
    let date = chrono::NaiveDate::from_ymd_opt(year, month, day)?;
    let earlier = date.checked_sub_signed(chrono::TimeDelta::try_days(days)?)?;
    Some((earlier.year(), earlier.month(), earlier.day()))
}

/// How many days back a picture of the day may come from: ten years.
pub const SPAN_DAYS: u32 = 3650;

/// How far back to go for a random number `random`: a day out of the last
/// ten years, never today.
pub open spec fn days_back(random: u32) -> i64 {
    ((random % SPAN_DAYS) + 1) as i64
}

/// The day before `today` by [`days_back`] of `random`, or `today` itself in
/// the one case chrono cannot count back from it.
pub open spec fn day_from(today: (i32, u32, u32), random: u32) -> (i32, u32, u32) {
    match date_minus_days(today.0, today.1, today.2, days_back(random)) {
        Some(day) => day,
        None => today,
    }
}

/// A day `random` picks out of the ten years before `today`, as
/// [`day_from`] says.
pub fn pick_day(today: (i32, u32, u32), random: u32) -> (out: (i32, u32, u32))
    ensures
        out == day_from(today, random),
{
    let back = ((random % SPAN_DAYS) + 1) as i64;
    match days_before(today.0, today.1, today.2, back) {
        Some(day) => day,
        None => today,
    }
}

/// A day out of the ten years before `today`, as (year, month, day). Cheap
/// and not uniform across month lengths, but it needs no random number
/// generator. `today` is this machine's local date, which the caller reads:
/// the time zone is the environment's.
pub fn random_day(today: (i32, u32, u32), salt: u32) -> (out: (i32, u32, u32))
    ensures
        exists|random: u32| out == #[trigger] day_from(today, random),
{
    let random = random_u32(salt);
    pick_day(today, random)
}

/// Which page of Openverse's results to ask for, out of the first four.
pub open spec fn page_for(random: u32) -> u32 {
    (1 + random % 4) as u32
}

/// A page of Openverse's results, picked at random out of the first four.
pub fn random_page() -> (page: u32)
    ensures
        1 <= page <= 4,
        exists|random: u32| page == page_for(random),
{
    let random = random_u32(0);
    let page = 1 + random % 4;
    assert(page == page_for(random));
    page
}

// ── The cache on disk ──────────────────────────────────────────────────────

/// The extension a picture is cached under: PNG when the address it came
/// from says so, JPEG otherwise.
pub open spec fn cache_extension_for(from: Seq<char>) -> Seq<char> {
    if find_pat(lower_case(from), ".png"@) >= 0 {
        "png"@
    } else {
        "jpg"@
    }
}

/// The extension to cache a picture downloaded from `from` under.
pub fn cache_extension(from: &str) -> (ext: &'static str)
    ensures
        ext@ == cache_extension_for(from@),
{
    let lower = chars_of(crate::wallpaper::to_lowercase(from).as_str());
    let pat = chars_of(".png");
    match crate::text::find_from(&lower, 0, &pat) {
        Some(_) => {
            assert(lower@.skip(0) =~= lower@);
            "png"
        },
        None => {
            assert(lower@.skip(0) =~= lower@);
            "jpg"
        },
    }
}

/// The copy left over under the other extension, which nobody will see.
pub fn stale_extension(extension: &str) -> (ext: &'static str)
    ensures
        ext@ == (if extension@ == "png"@ {
            "jpg"@
        } else {
            "png"@
        }),
{
    if crate::wallpaper::same_chars(&chars_of(extension), &chars_of("png")) {
        "jpg"
    } else {
        "png"
    }
}

} // verus!
