use ff14_avatar::aggregate::build_avatar;
use ff14_avatar::model::{
    Achievement, Achievements, FF14Avatar, FetchError, Job, Minion, Minions, Mount, Mounts,
};
use ff14_avatar::record::{avatar_from_record, avatar_to_record, i64_to_string, parse_i64,
    parse_u64, u64_to_string};
use sha2::Digest;

fn sample_avatar() -> FF14Avatar {
    FF14Avatar {
        id: "12345678".to_string(),
        name: "Luna Nova".to_string(),
        image_url: "https://img.example/portrait-full.png".to_string(),
        jobs: vec![
            Job {
                name: "Paladin".to_string(),
                level: "90".to_string(),
                image_url: "pld.png".to_string(),
            },
            Job {
                name: "White Mage".to_string(),
                level: "".to_string(),
                image_url: "whm.png".to_string(),
            },
        ],
        achievements: Achievements {
            items: vec![Achievement {
                title: "Leaving Limsa".to_string(),
                date: 1609459200,
                image_url: "a1.png".to_string(),
            }],
            count: 42,
        },
        minions: Minions {
            items: vec![
                Minion {
                    name: "".to_string(),
                    image_url: "m1.png".to_string(),
                },
                Minion {
                    name: "".to_string(),
                    image_url: "m2.png".to_string(),
                },
            ],
            count: 277,
        },
        mounts: Mounts {
            items: vec![Mount {
                name: "".to_string(),
                image_url: "chocobo.png".to_string(),
            }],
            count: 44,
        },
        fetched_at: 1700000000,
        image_hash: "ba7816bf8f01cfea414140de5dae2223b00361a396177a9cb410ff61f20015ad"
            .to_string(),
    }
}

#[test]
fn record_round_trips_field_for_field() {
    let avatar = sample_avatar();
    let record = avatar_to_record(&avatar);
    let back = avatar_from_record(&record).expect("record should parse");
    assert_eq!(back, avatar);
}

#[test]
fn record_round_trips_with_empty_lists_and_negative_instant() {
    let mut avatar = sample_avatar();
    avatar.jobs = Vec::new();
    avatar.achievements.items = Vec::new();
    avatar.minions.items = Vec::new();
    avatar.mounts.items = Vec::new();
    avatar.fetched_at = -62135596800;
    let record = avatar_to_record(&avatar);
    let back = avatar_from_record(&record).expect("record should parse");
    assert_eq!(back, avatar);
}

#[test]
fn a_damaged_record_does_not_parse() {
    let avatar = sample_avatar();
    let mut record = avatar_to_record(&avatar);
    record[0] = "identifier".to_string();
    assert!(avatar_from_record(&record).is_none());
}

#[test]
fn a_truncated_record_does_not_parse() {
    let avatar = sample_avatar();
    let mut record = avatar_to_record(&avatar);
    record.pop();
    assert!(avatar_from_record(&record).is_none());
}

#[test]
fn decimal_forms_round_trip_through_their_parsers() {
    assert_eq!(u64_to_string(0), "0");
    assert_eq!(u64_to_string(18446744073709551615), "18446744073709551615");
    assert_eq!(i64_to_string(-1), "-1");
    assert_eq!(i64_to_string(i64::MIN), "-9223372036854775808");
    assert_eq!(parse_u64("18446744073709551615"), Some(18446744073709551615));
    assert_eq!(parse_u64("18446744073709551616"), None);
    assert_eq!(parse_i64("-9223372036854775808"), Some(i64::MIN));
    assert_eq!(parse_i64("9223372036854775808"), None);
    assert_eq!(parse_i64("12a"), None);
    assert_eq!(parse_i64(""), None);
}

#[test]
fn build_avatar_assembles_every_field_from_the_pages() {
    let profile = "<html><body>\
        <p class=\"frame__chara__name\"> Luna Nova </p>\
        <div class=\"character__detail__image\">\
        <a href=\"https://img.example/portrait-full.png\"></a></div>\
        <ul class=\"character__level__list\">\
        <li><img data-tooltip=\"Paladin\" src=\"pld.png\">90</li>\
        </ul></body></html>";
    let achievements = "<html><body>\
        <div class=\"entry__achievement\">\
        <img src=\"a1.png\">\
        <div class=\"entry__activity__time\">\
        <script>ldst_strftime(1609459200, 'YMD')</script></div>\
        <p class=\"entry__activity__txt\">Leaving Limsa</p>\
        </div>\
        <p class=\"parts__total\">42 achievements</p>\
        </body></html>";
    let minions = "<html><body>\
        <div class=\"minion__list_icon\"><img src=\"m1.png\"></div>\
        <div class=\"minion__sort__total\"><span>277</span></div>\
        </body></html>";
    let mounts = "<html><body>\
        <div class=\"character__item_icon\"><img src=\"chocobo.png\"></div>\
        <div class=\"minion__sort__total\"><span>44</span></div>\
        </body></html>";
    let portrait: Vec<u8> = vec![1, 2, 3, 4];
    let avatar = build_avatar(
        "12345678",
        profile,
        &portrait,
        achievements,
        minions,
        mounts,
        1700000000,
    )
    .expect("all pages are well formed");
    assert_eq!(avatar.id, "12345678");
    assert_eq!(avatar.name, "Luna Nova");
    assert_eq!(avatar.image_url, "https://img.example/portrait-full.png");
    assert_eq!(avatar.jobs.len(), 1);
    assert_eq!(avatar.achievements.count, 42);
    assert_eq!(avatar.achievements.items[0].date, 1609459200);
    assert_eq!(avatar.minions.count, 277);
    assert_eq!(avatar.mounts.count, 44);
    assert_eq!(avatar.fetched_at, 1700000000);
    let expected_hash = hex::encode(sha2::Sha256::digest(&portrait));
    assert_eq!(avatar.image_hash, expected_hash);
}

#[test]
fn build_avatar_fails_whole_when_one_page_is_broken() {
    let profile = "<html><body>no name element</body></html>";
    let portrait: Vec<u8> = vec![1];
    let out = build_avatar("x", profile, &portrait, "<p></p>", "<p></p>", "<p></p>", 0);
    assert_eq!(out.expect_err("must fail"), FetchError::MissingField);
}
