use twig::minecraft::{get_tracks, MinecraftMusicTrack, MinecraftServerType};
use twig::snowflake::{
    generate_id, get_generator, is_snowflake_recent, is_snowflake_recent_at, is_snowflake_recent_on,
    saturate_millis, snowflake_to_timestamp, unix_time_ms,
};
use twig::uptime::format_uptime;

#[test]
fn uptimes() {
    assert_eq!(format_uptime(0), "0w 0d 0h 0m 0s");
    assert_eq!(format_uptime(59), "0w 0d 0h 0m 59s");
    assert_eq!(format_uptime(60), "0w 0d 0h 1m 0s");
    assert_eq!(format_uptime(3661), "0w 0d 1h 1m 1s");
    assert_eq!(format_uptime(86400), "0w 1d 0h 0m 0s");
    assert_eq!(format_uptime(604799), "0w 6d 23h 59m 59s");
    assert_eq!(format_uptime(604800), "1w 0d 0h 0m 0s");
    assert_eq!(format_uptime(694861), "1w 1d 1h 1m 1s");
    assert_eq!(format_uptime(u64::MAX), "30500568904943w 0d 7h 0m 15s");
}

#[test]
fn tracks() {
    let tracks = get_tracks();
    assert_eq!(tracks.len(), 24);
    assert_eq!(tracks[0].title, "Key");
    assert_eq!(*tracks[0].duration_secs, 65);
    assert_eq!(tracks[8].title, "Oxygène");
    assert_eq!(tracks[10].title, "Mice on Venus");
    assert_eq!(*tracks[10].duration_secs, 281);
    assert_eq!(tracks[23].title, "Droopy Likes Your Face");
    assert_eq!(*tracks[23].duration_secs, 117);
    assert!(tracks.iter().all(|t| t.author == "C418"));
    assert_eq!(tracks.iter().map(|t| *t.duration_secs).sum::<u64>(), 3532);
    assert_eq!(tracks[2].label(), "Subwoofer Lullaby • C418");
    let own = MinecraftMusicTrack::new("a", "b", &3);
    assert_eq!(own.label(), "a • b");
}

#[test]
fn server_type_codes() {
    assert_eq!(MinecraftServerType::Lobby.code(), 0);
    assert_eq!(MinecraftServerType::Game.code(), 1);
    assert_eq!(MinecraftServerType::from_code(0), MinecraftServerType::Lobby);
    assert_eq!(MinecraftServerType::from_code(1), MinecraftServerType::Game);
    assert_eq!(MinecraftServerType::from_code(7), MinecraftServerType::Game);
}

#[test]
fn snowflake_timestamps() {
    assert_eq!(snowflake_to_timestamp(0), 0);
    assert_eq!(snowflake_to_timestamp(442252698964721669), 105441260091);
    assert_eq!(snowflake_to_timestamp(862026798833074178), 205523204525);
    assert_eq!(snowflake_to_timestamp((1_700_000_000_000i64 << 22) | 4095), 1_700_000_000_000);
    assert_eq!(snowflake_to_timestamp(-1), (1u64 << 42) - 1);
    assert_eq!(snowflake_to_timestamp(i64::MAX), (1u64 << 41) - 1);
}

#[test]
fn snowflake_ages() {
    let id = 1_000_000i64 << 22;
    assert!(is_snowflake_recent_at(id, 300_000, 1_000_000));
    assert!(is_snowflake_recent_at(id, 300_000, 1_300_000));
    assert!(!is_snowflake_recent_at(id, 300_000, 1_300_001));
    assert!(is_snowflake_recent_at(id, 0, 1_000_000));
    assert!(!is_snowflake_recent_at(id, 0, 1_000_001));
    assert!(is_snowflake_recent_at(id, 300_000, 0));
    assert!(is_snowflake_recent_at(id, u64::MAX, u64::MAX));
    assert!(!is_snowflake_recent_at(0, u64::MAX - 1, u64::MAX));
}

#[test]
fn generated_identifiers_carry_the_time() {
    let mut generator = get_generator();
    let before = unix_time_ms().unwrap();
    let first = generate_id(&mut generator).unwrap();
    let second = generate_id(&mut generator).unwrap();
    let after = unix_time_ms().unwrap();
    assert!(first >= 0);
    assert!(second > first);
    assert!(before <= snowflake_to_timestamp(first));
    assert!(snowflake_to_timestamp(second) <= after);
    assert!(before > 1_600_000_000_000);
    assert!(is_snowflake_recent(first, 5 * 60 * 1000));
    assert!(is_snowflake_recent(first, 60_000));
    assert!(!is_snowflake_recent(1_600_000_000_000i64 << 22, 5 * 60 * 1000));
    assert!(is_snowflake_recent(1_600_000_000_000i64 << 22, u64::MAX));
}

#[test]
fn milliseconds_are_held_at_the_largest_value() {
    assert_eq!(saturate_millis(0), 0);
    assert_eq!(saturate_millis(1_700_000_000_000), 1_700_000_000_000);
    assert_eq!(saturate_millis(u64::MAX as u128), u64::MAX);
    assert_eq!(saturate_millis(u64::MAX as u128 + 1), u64::MAX);
    assert_eq!(saturate_millis(u128::MAX), u64::MAX);
}

#[test]
fn nothing_is_recent_by_a_clock_that_cannot_be_read() {
    let id = 1_000_000i64 << 22;
    assert!(!is_snowflake_recent_on(id, u64::MAX, None));
    assert!(is_snowflake_recent_on(id, 300_000, Some(1_300_000)));
    assert!(!is_snowflake_recent_on(id, 300_000, Some(1_300_001)));
    assert!(is_snowflake_recent_on(id, 0, Some(5)));
}

#[test]
fn identifiers_by_the_reading_of_the_clock() {
    let mut generator = get_generator();
    assert_eq!(generator.draw_at(Some(1000)), Some(1000 << 22));
    assert_eq!(generator.draw_at(Some(1000)), Some((1000 << 22) | 1));
    assert_eq!(generator.draw_at(Some(999)), Some((1000 << 22) | 2));
    assert_eq!(generator.draw_at(None), Some((1000 << 22) | 3));
    assert_eq!(generator.draw_at(Some(1001)), Some(1001 << 22));
    assert_eq!(generator.draw_at(Some(1_700_000_000_000)), Some(1_700_000_000_000i64 << 22));
    assert_eq!(snowflake_to_timestamp(generator.draw_at(Some(1_700_000_000_000)).unwrap()), 1_700_000_000_000);
    let mut unread = get_generator();
    assert_eq!(unread.draw_at(None), Some(0));
    assert_eq!(unread.draw_at(None), Some(1));
}

#[test]
fn a_used_up_millisecond_gives_way_to_the_next() {
    let mut generator = get_generator();
    let mut last = -1;
    for expected in 0..4096i64 {
        let id = generator.draw_at(Some(7)).unwrap();
        assert_eq!(id, (7 << 22) | expected);
        assert!(id > last);
        last = id;
    }
    assert_eq!(generator.draw_at(Some(7)), Some(8 << 22));
    assert_eq!(generator.draw_at(Some(7)), Some((8 << 22) | 1));
    assert_eq!(generator.draw_at(Some(8)), Some((8 << 22) | 2));
    assert_eq!(generator.draw_at(Some(9)), Some(9 << 22));
}

#[test]
fn the_last_millisecond_is_the_last() {
    let max_ms: u64 = (1 << 41) - 1;
    let mut generator = get_generator();
    assert_eq!(generator.draw_at(Some(u64::MAX)), Some((max_ms as i64) << 22));
    assert_eq!(generator.draw_at(Some(max_ms)), Some(((max_ms as i64) << 22) | 1));
    for sequence in 2..4096i64 {
        assert_eq!(generator.draw_at(None), Some(((max_ms as i64) << 22) | sequence));
    }
    assert!(generator.is_spent());
    assert_eq!(generator.draw_at(None), None);
    assert_eq!(generator.draw_at(Some(u64::MAX)), None);
    assert_eq!(generate_id(&mut generator), None);
    assert!(!get_generator().is_spent());
}
