use zervo::sources::{
    cache_extension, commons_feed_url, file_path_url, mix, openverse_query_url, order_to_try,
    pick_day, random_day, CommonsSearch, nothing_downloaded, openverse_plan, random_page, random_u32, stale_extension, text, usable, usable_items,
    CommonsImage, OpenverseItem,
};
use zervo::wallpaper::Subject;

fn item(width: Option<u64>, size: Option<u64>, kind: &str, url: &str) -> OpenverseItem {
    OpenverseItem {
        width,
        filesize: size,
        filetype: kind.to_owned(),
        url: url.to_owned(),
        title: "<span>Peak</span>".to_owned(),
        creator: "Ann &amp; Bo".to_owned(),
        license: "by".to_owned(),
        license_version: "2.0".to_owned(),
        foreign_landing_url: "https://flickr.example/1".to_owned(),
    }
}

#[test]
fn feed_addresses() {
    assert_eq!(
        commons_feed_url(2015, 3, 7),
        "https://api.wikimedia.org/feed/v1/wikipedia/en/featured/2015/03/07"
    );
    assert_eq!(
        commons_feed_url(2021, 12, 25),
        "https://api.wikimedia.org/feed/v1/wikipedia/en/featured/2021/12/25"
    );
    assert_eq!(
        openverse_query_url(Subject::Sky, 3),
        "https://api.openverse.org/v1/images/?q=sky+clouds+horizon&license_type=all-cc\
         &aspect_ratio=wide&size=large&page_size=20&mature=false&page=3"
    );
}

#[test]
fn file_path_addresses_are_encoded() {
    assert_eq!(
        file_path_url("Sunset at sea.jpg").as_deref(),
        Some("https://commons.wikimedia.org/wiki/Special:FilePath/Sunset%20at%20sea.jpg?width=1920")
    );
    assert_eq!(
        file_path_url("a/b%c").as_deref(),
        Some("https://commons.wikimedia.org/wiki/Special:FilePath/a%2Fb%25c?width=1920")
    );
}

#[test]
fn fields_are_trimmed_text() {
    assert_eq!(text(Some("  hi ")), "hi");
    assert_eq!(text(None), "");
}

#[test]
fn usable_results() {
    assert!(usable(&item(Some(2000), Some(1000), "JPG", "https://a/b.jpg")));
    assert!(usable(&item(Some(1600), None, "png", "https://a/b.png")));
    assert!(!usable(&item(Some(1599), None, "png", "https://a/b.png")));
    assert!(!usable(&item(None, None, "png", "https://a/b.png")));
    assert!(!usable(&item(Some(2000), Some(25165825), "jpeg", "https://a/b")));
    assert!(usable(&item(Some(2000), Some(25165824), "jpeg", "https://a/b")));
    assert!(!usable(&item(Some(2000), None, "gif", "https://a/b.gif")));
    assert!(!usable(&item(Some(2000), None, "jpg", "http://a/b.jpg")));
    let items = vec![
        item(Some(100), None, "jpg", "https://a"),
        item(Some(2000), None, "jpg", "https://b"),
        item(Some(2000), None, "tiff", "https://c"),
        item(Some(3000), None, "png", "https://d"),
    ];
    assert_eq!(usable_items(&items), vec![1, 3]);
}

#[test]
fn results_are_tried_in_turn_from_a_random_start() {
    assert_eq!(order_to_try(5, 10), vec![5, 6, 7, 8]);
    assert_eq!(order_to_try(9, 3), vec![0, 1, 2]);
    assert_eq!(order_to_try(7, 2), vec![1, 0]);
    assert_eq!(order_to_try(18, 10), vec![8, 9, 0, 1]);
    assert_eq!(order_to_try(0, 1), vec![0]);
}

#[test]
fn credits_from_metadata() {
    let credit = item(Some(2000), None, "jpg", "https://a").credit();
    assert_eq!(credit.title, "Peak");
    assert_eq!(credit.author, "Ann & Bo");
    assert_eq!(credit.licence, "CC BY 2.0");
    assert_eq!(credit.page, "https://flickr.example/1");
    assert_eq!(credit.source, "Openverse");
    let image = CommonsImage {
        title: "File:Lake_Bled_at_dawn.jpg".to_owned(),
        artist: "<a href=\"//commons\">Jane</a>".to_owned(),
        license: "CC BY-SA 4.0".to_owned(),
        file_page: "https://commons.wikimedia.org/wiki/File:Lake_Bled_at_dawn.jpg".to_owned(),
        thumbnail: "https://upload.example/thumb.jpg".to_owned(),
    };
    assert_eq!(image.file(), "Lake_Bled_at_dawn.jpg");
    let credit = image.credit();
    assert_eq!(credit.title, "Lake Bled at dawn");
    assert_eq!(credit.author, "Jane");
    assert_eq!(credit.licence, "CC BY-SA 4.0");
    assert_eq!(credit.source, "Wikimedia Commons");
    let candidates = image.candidates();
    assert_eq!(
        candidates,
        vec![
            "https://commons.wikimedia.org/wiki/Special:FilePath/Lake_Bled_at_dawn.jpg?width=1920"
                .to_owned(),
            "https://upload.example/thumb.jpg".to_owned(),
        ]
    );
    let bare = CommonsImage { thumbnail: String::new(), ..image };
    assert_eq!(bare.candidates().len(), 1);
}

#[test]
fn the_mix_spreads_its_input() {
    assert_eq!(mix(0, 0), 0);
    assert_eq!(mix(1, 0), 1753845952);
    assert_eq!(mix(0, 1), 1834104592);
    assert_eq!(mix(123456789, 1), 3794253139);
    let _ = random_u32(3);
    let page = random_page();
    assert!((1..=4).contains(&page));
}

#[test]
fn days_are_counted_back_by_the_calendar() {
    assert_eq!(pick_day((2024, 3, 1), 0), (2024, 2, 29));
    assert_eq!(pick_day((2024, 1, 1), 3649), (2014, 1, 3));
    assert_eq!(pick_day((2024, 1, 1), 3650), (2023, 12, 31));
    // A date that does not exist is kept as it is.
    assert_eq!(pick_day((2023, 2, 30), 0), (2023, 2, 30));
    let (year, month, day) = random_day((2024, 6, 15), 0);
    assert!((2014..=2024).contains(&year) && (1..=12).contains(&month) && (1..=31).contains(&day));
    assert_ne!((year, month, day), (2024, 6, 15), "never today");
}

#[test]
fn cache_extensions() {
    assert_eq!(cache_extension("https://x/y.PNG"), "png");
    assert_eq!(cache_extension("https://x/a.png?x=1"), "png");
    assert_eq!(cache_extension("https://x/a.jpeg"), "jpg");
    assert_eq!(stale_extension("png"), "jpg");
    assert_eq!(stale_extension("jpg"), "png");
}

#[test]
fn no_result_is_tried_twice() {
    for count in 1..12usize {
        for random in [0u32, 1, 7, 1000, u32::MAX] {
            let order = order_to_try(random, count);
            assert_eq!(order.len(), count.min(4));
            for (i, a) in order.iter().enumerate() {
                assert!(*a < count);
                for b in &order[i + 1..] {
                    assert_ne!(a, b);
                }
            }
        }
    }
}

#[test]
fn an_overlong_title_has_no_sized_copy() {
    assert_eq!(file_path_url(&"a".repeat(4_194_305)), None);
    assert!(file_path_url(&"a".repeat(1000)).is_some());
}

#[test]
fn a_search_tries_four_days_and_reports_the_last_failure() {
    let mut search = CommonsSearch::new();
    let mut days = Vec::new();
    while let Some(salt) = search.next_day() {
        days.push(salt);
        search.day_done();
        if salt == 1 {
            search.failed(format!("day {salt} failed"));
        }
    }
    assert_eq!(days, vec![0, 1, 2, 3]);
    search.day_done();
    assert_eq!(search.next_day(), None);
    assert_eq!(search.give_up(), "day 1 failed");
    assert_eq!(CommonsSearch::new().give_up(), "no picture of the day");
}

#[test]
fn metadata_fields_are_read_as_trimmed_text() {
    let image = CommonsImage::from_fields(Some(" File:A_b.jpg "), None, Some("CC0"), None, Some(" https://t "));
    assert_eq!(image.title, "File:A_b.jpg");
    assert_eq!(image.artist, "");
    assert_eq!(image.thumbnail, "https://t");
    let result = OpenverseItem::from_fields(
        Some(2000),
        None,
        Some(" JPG "),
        Some("https://x/y.jpg"),
        None,
        Some(" Ann "),
        Some("by"),
        Some("4.0"),
        None,
    );
    assert_eq!(result.filetype, "JPG");
    assert_eq!(result.creator, "Ann");
    assert!(usable(&result));
}

#[test]
fn what_a_page_of_results_comes_to() {
    assert_eq!(openverse_plan(None, Subject::Sky, 0), Err("Openverse returned nothing".to_owned()));
    let none_usable = vec![item(Some(10), None, "jpg", "https://a")];
    assert_eq!(
        openverse_plan(Some(&none_usable), Subject::Night, 0),
        Err("nothing usable for Night".to_owned())
    );
    let items = vec![
        item(Some(2000), None, "jpg", "https://a"),
        item(Some(10), None, "jpg", "https://b"),
        item(Some(2000), None, "png", "https://c"),
        item(Some(2000), None, "png", "https://d"),
    ];
    // Usable are 0, 2 and 3; a random 4 starts at the second of them.
    assert_eq!(openverse_plan(Some(&items), Subject::Sky, 4), Ok(vec![2, 3, 0]));
    assert_eq!(nothing_downloaded(), "nothing downloaded");
}
