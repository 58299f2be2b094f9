use zervo::wallpaper::{
    licence_name, pretty_title, read_manifest_time, strip_markup, Cadence, Credit, Fetched,
    Polled, Source, Subject, Wallpaper,
};

#[test]
fn strip_markup_drops_tags() {
    assert_eq!(strip_markup("<a href='x'>Jane Doe</a>"), "Jane Doe");
    assert_eq!(strip_markup("<div class='fn'>A\nB</div>"), "A");
}

#[test]
fn strip_markup_keeps_only_the_first_line() {
    assert_eq!(strip_markup("line one\nline two"), "line one");
    assert_eq!(strip_markup("first\rsecond"), "first");
}

#[test]
fn strip_markup_decodes_entities_once() {
    assert_eq!(strip_markup("Tom &amp; Jerry"), "Tom & Jerry");
    assert_eq!(strip_markup("&quot;Quoted&quot;"), "\"Quoted\"");
    assert_eq!(strip_markup("Caf&#39;s"), "Caf's");
    assert_eq!(strip_markup("a&nbsp;b"), "a b");
    assert_eq!(strip_markup("&amp;amp;"), "&amp;");
}

#[test]
fn strip_markup_closes_up_white_space() {
    assert_eq!(strip_markup("  a \t  b  "), "a b");
    assert_eq!(strip_markup(""), "");
}

#[test]
fn strip_markup_cuts_to_a_credit_width() {
    let long = "x".repeat(80);
    let expected = format!("{}…", "x".repeat(69));
    assert_eq!(strip_markup(&long), expected);
    assert_eq!(strip_markup(&"y".repeat(70)), "y".repeat(70));
}

#[test]
fn pretty_title_reads_like_a_title() {
    assert_eq!(pretty_title("Sunset_over_the_sea_2019.jpg"), "Sunset over the sea 2019");
    assert_eq!(pretty_title("no_dot"), "no dot");
    assert_eq!(pretty_title("a.b.c"), "a.b");
    assert_eq!(pretty_title("_x_.png"), "x");
}

#[test]
fn licence_names() {
    assert_eq!(licence_name("by-sa", "4.0"), "CC BY-SA 4.0");
    assert_eq!(licence_name("by", ""), "CC BY");
    assert_eq!(licence_name("cc0", "1.0"), "CC0 1.0");
    assert_eq!(licence_name("pdm", "1.0"), "Public domain");
    assert_eq!(licence_name("", "4.0"), "");
}

#[test]
fn credit_lines() {
    assert_eq!(Credit::default().line(), "Untitled");
    let credit = Credit {
        title: "Fjord".to_owned(),
        author: "Ola".to_owned(),
        licence: "CC BY 4.0".to_owned(),
        ..Credit::default()
    };
    assert_eq!(credit.line(), "Fjord · Ola · CC BY 4.0");
    let credit = Credit { author: "Ola".to_owned(), ..Credit::default() };
    assert_eq!(credit.line(), "Untitled · Ola");
    let credit = Credit { title: "T".to_owned(), licence: "L".to_owned(), ..Credit::default() };
    assert_eq!(credit.line(), "T · L");
}

#[test]
fn credit_for_a_file() {
    let credit = Credit::for_file("/home/me/Pictures/photo.png");
    assert_eq!(credit.title, "photo");
    assert_eq!(credit.source, "This machine");
    assert_eq!(credit.author, "");
}

#[test]
fn source_labels() {
    assert_eq!(Source::Commons.label(), "Wikimedia Commons");
    assert_eq!(Source::Openverse(Subject::Coast).label(), "Openverse — coast");
    assert_eq!(Source::File("/home/me/pic.jpg".to_owned()).label(), "pic.jpg");
    assert_eq!(Source::File("/".to_owned()).label(), "A file");
    assert_eq!(Source::default(), Source::Commons);
}

#[test]
fn subjects_and_cadences() {
    assert_eq!(Subject::ALL.len(), 8);
    assert_eq!(Subject::Night.label(), "Night");
    assert_eq!(Subject::Landscape.query(), "landscape+photograph+scenery");
    assert_eq!(Cadence::Launch.label(), "Each launch");
    assert_eq!(Cadence::Manual.interval(), None);
    assert_eq!(Cadence::Launch.interval(), None);
    assert_eq!(Cadence::Hourly.interval(), Some(3600));
    assert_eq!(Cadence::Daily.interval(), Some(86400));
}

/// Whole seconds, on the nanosecond clock the schedule reads.
fn secs(n: u128) -> u128 {
    n * 1_000_000_000
}

fn arrival(cached: Option<&str>) -> Polled<u8> {
    Polled::Arrived(Fetched {
        credit: Credit { title: "New".to_owned(), ..Credit::default() },
        image: 7,
        cached: cached.map(str::to_owned),
    })
}

#[test]
fn each_launch_means_once() {
    let mut wallpaper: Wallpaper<u8> = Wallpaper::new();
    assert!(wallpaper.due(&Source::Commons, Cadence::Launch, secs(100)));
    assert!(wallpaper.fetch());
    assert!(wallpaper.is_loading());
    assert!(!wallpaper.due(&Source::Commons, Cadence::Launch, secs(100)));
    assert!(!wallpaper.fetch(), "a second fetch is not started on top of the first");
    let (changed, _) = wallpaper.poll(arrival(None), secs(101));
    assert!(changed);
    assert!(!wallpaper.due(&Source::Commons, Cadence::Launch, secs(200)));
}

#[test]
fn waiting_changes_nothing() {
    let mut wallpaper: Wallpaper<u8> = Wallpaper::new();
    wallpaper.fetch();
    let (changed, manifest) = wallpaper.poll(Polled::Waiting, secs(5));
    assert!(!changed);
    assert!(manifest.is_none());
    assert!(wallpaper.is_loading());
}

#[test]
fn an_arrival_is_shown_and_the_interval_counts_from_it() {
    let mut wallpaper: Wallpaper<u8> = Wallpaper::new();
    assert!(wallpaper.due(&Source::Commons, Cadence::Hourly, secs(0)));
    wallpaper.fetch();
    let (changed, manifest) = wallpaper.poll(arrival(Some("/cache/current.jpg")), secs(1000));
    assert!(changed);
    let manifest = manifest.expect("a cached picture is written down");
    assert_eq!(manifest.path, "/cache/current.jpg");
    assert_eq!(manifest.at, Some(1000));
    assert_eq!(manifest.credit.title, "New");
    assert_eq!(wallpaper.credit().title, "New");
    assert!(!wallpaper.due(&Source::Commons, Cadence::Hourly, secs(4599)));
    // Not even a nanosecond early.
    assert!(!wallpaper.due(&Source::Commons, Cadence::Hourly, secs(4600) - 1));
    assert!(wallpaper.due(&Source::Commons, Cadence::Hourly, secs(4600)));
    assert!(!wallpaper.due(&Source::Commons, Cadence::Daily, secs(4600)));
    assert!(wallpaper.due(&Source::Commons, Cadence::Daily, secs(1000 + 86400)));
    // A clock that has gone backwards counts as a whole interval.
    assert!(wallpaper.due(&Source::Commons, Cadence::Hourly, secs(10)));
    assert_eq!(wallpaper.take_image(), Some(7));
    assert_eq!(wallpaper.take_image(), None);
}

#[test]
fn a_failure_keeps_the_picture_and_says_why() {
    let mut wallpaper: Wallpaper<u8> = Wallpaper::new();
    wallpaper.fetch();
    wallpaper.poll(arrival(None), secs(1));
    wallpaper.fetch();
    assert_eq!(wallpaper.error, None);
    let (changed, manifest) = wallpaper.poll(Polled::Failed("offline".to_owned()), secs(2));
    assert!(changed);
    assert!(manifest.is_none());
    assert_eq!(wallpaper.error.as_deref(), Some("offline"));
    assert_eq!(wallpaper.credit().title, "New");
    assert_eq!(wallpaper.take_image(), Some(7));
    wallpaper.fetch();
    wallpaper.poll(Polled::GaveUp, secs(3));
    assert_eq!(wallpaper.error.as_deref(), Some("the fetch gave up"));
    assert!(!wallpaper.is_loading());
}

#[test]
fn a_chosen_file_and_manual_are_never_due() {
    let wallpaper: Wallpaper<u8> = Wallpaper::new();
    let file = Source::File("/pic.jpg".to_owned());
    for cadence in Cadence::ALL {
        assert!(!wallpaper.due(&file, cadence, secs(0)));
    }
    assert!(!wallpaper.due(&Source::Commons, Cadence::Manual, secs(0)));
}

#[test]
fn a_restore_counts_as_loading_and_keeps_its_time() {
    let mut wallpaper: Wallpaper<u8> = Wallpaper::new();
    wallpaper.restore(Credit { title: "Old".to_owned(), ..Credit::default() }, Some(50));
    assert!(wallpaper.is_loading());
    assert_eq!(wallpaper.credit().title, "Old");
    wallpaper.poll(Polled::Waiting, secs(60));
    assert!(wallpaper.is_loading());
    assert_eq!(read_manifest_time(Some(-5)), Some(0));
    assert_eq!(read_manifest_time(Some(5)), Some(secs(5)));
    assert_eq!(read_manifest_time(None), None);
}

#[test]
fn stripped_markup_is_a_name() {
    let messy = "<p class=\"x\">A &amp; B\n<b>second line</b></p>";
    let name = strip_markup(messy);
    assert_eq!(name, "A & B");
    let long = format!("<i>{}</i>", "word ".repeat(40));
    let name = strip_markup(&long);
    assert!(name.chars().count() <= 70);
    assert!(!name.contains(['<', '>', '\n', '\r']));
}

#[test]
fn only_a_started_fetch_marks_the_launch() {
    let mut wallpaper: Wallpaper<u8> = Wallpaper::new();
    wallpaper.restore(Credit::default(), Some(1));
    wallpaper.poll(arrival(None), secs(2));
    assert!(wallpaper.due(&Source::Commons, Cadence::Launch, secs(3)));
    let _ = wallpaper.take_image();
    assert!(wallpaper.due(&Source::Commons, Cadence::Launch, secs(3)));
    wallpaper.fetch();
    wallpaper.poll(Polled::GaveUp, secs(4));
    assert!(!wallpaper.due(&Source::Commons, Cadence::Launch, secs(5)));
}

#[test]
fn each_picture_is_handed_over_once() {
    let mut wallpaper: Wallpaper<u8> = Wallpaper::new();
    wallpaper.fetch();
    wallpaper.poll(arrival(None), secs(1));
    assert_eq!(wallpaper.take_image(), Some(7));
    assert_eq!(wallpaper.take_image(), None);
    wallpaper.fetch();
    assert_eq!(wallpaper.take_image(), None);
    wallpaper.poll(Polled::Failed("no".to_owned()), secs(2));
    assert_eq!(wallpaper.take_image(), None);
    // Polling with nothing running hands nothing over.
    wallpaper.poll(arrival(None), secs(3));
    assert_eq!(wallpaper.take_image(), None);
}

#[test]
fn a_default_wallpaper_is_a_new_one() {
    let wallpaper: Wallpaper<u8> = Wallpaper::default();
    assert!(!wallpaper.is_loading());
    assert!(wallpaper.due(&Source::Commons, Cadence::Launch, 0));
    assert_eq!(wallpaper.credit().title, "");
    assert_eq!(wallpaper.error, None);
}

#[test]
fn subject_searches_are_distinct_words() {
    for (i, a) in Subject::ALL.iter().enumerate() {
        let q = a.query();
        assert!(q.chars().all(|c| c.is_ascii_lowercase() || c == '+'));
        assert!(q.contains('+'));
        for b in &Subject::ALL[i + 1..] {
            assert_ne!(q, b.query());
        }
    }
}
