//! Runtime checks of the eligibility gate, the text handling and the full
//! message handler.

use advice_bot::commands::parse_command;
use advice_bot::commands::Command;
use advice_bot::handler::handle_message;
use advice_bot::pool::advice_pool;
use advice_bot::pool::Pool;
use advice_bot::records::check_and_touch;
use advice_bot::records::Eligibility;
use advice_bot::records::UserRecord;
use advice_bot::table::UserTable;
use advice_bot::text::decimal_string;
use advice_bot::text::resolve_alias;
use advice_bot::text::substitute;

const HOUR: u64 = 3600;

fn greeting_setup() -> (Pool, UserTable) {
    let pool = Pool::from_templates(vec![String::from("Hello ###!")]);
    let mut table = UserTable::new(1);
    table.init_meta();
    (pool, table)
}

fn full_setup() -> (Pool, UserTable) {
    let pool = advice_pool();
    let mut table = UserTable::new(pool.len());
    table.init_meta();
    (pool, table)
}

#[test]
fn gate_allows_first_draw() {
    let mut r = UserRecord::fresh(7, 5);
    let e = check_and_touch(&mut r, 1000);
    assert!(matches!(e, Eligibility::Allowed));
    assert_eq!(r.last_draw_time, Some(1000));
}

#[test]
fn gate_throttles_within_cooldown() {
    let mut r = UserRecord::fresh(7, 5);
    r.last_draw_time = Some(0);
    let e = check_and_touch(&mut r, 23 * HOUR);
    match e {
        Eligibility::Throttled(h) => assert_eq!(h, 1),
        Eligibility::Allowed => panic!("a draw within the cooldown must be throttled"),
    }
    // a denied attempt alters nothing
    assert_eq!(r.last_draw_time, Some(0));
    assert_eq!(r.history.count(), 0);
}

#[test]
fn gate_allows_at_cooldown_boundary() {
    let mut r = UserRecord::fresh(7, 5);
    r.last_draw_time = Some(0);
    let e = check_and_touch(&mut r, 24 * HOUR);
    assert!(matches!(e, Eligibility::Allowed));
    assert_eq!(r.last_draw_time, Some(24 * HOUR));
}

#[test]
fn alias_table_maps_known_names() {
    assert_eq!(resolve_alias("Kai' Sa"), "Aether");
    assert_eq!(resolve_alias("Kaikalii"), "Kai");
    assert_eq!(resolve_alias("somebody else"), "somebody else");
}

#[test]
fn substitution_replaces_marker() {
    assert_eq!(substitute("###, hi", "Aether"), "Aether, hi");
    assert_eq!(substitute("no marker here", "X"), "no marker here");
    assert_eq!(substitute("a ### b ### c", "Z"), "a Z b Z c");
    assert_eq!(substitute("", "Z"), "");
}

#[test]
fn decimal_rendering_is_exact() {
    assert_eq!(decimal_string(0), "0");
    assert_eq!(decimal_string(7), "7");
    assert_eq!(decimal_string(24), "24");
    assert_eq!(decimal_string(1234567), "1234567");
}

#[test]
fn parse_is_case_insensitive() {
    assert!(matches!(parse_command("help"), Some(Command::Help)));
    assert!(matches!(parse_command("HELP"), Some(Command::Help)));
    assert!(matches!(parse_command("Ping"), Some(Command::Ping)));
    assert!(matches!(parse_command("ADVICE"), Some(Command::Advice)));
    assert!(matches!(parse_command("fortune"), Some(Command::Fortune)));
    assert!(parse_command("xyzzy").is_none());
    assert!(parse_command("").is_none());
}

#[test]
fn help_reply_lists_every_command() {
    let (pool, mut table) = full_setup();
    let r = handle_message(&pool, &mut table, 1, "someone", "!help", 0).unwrap();
    assert_eq!(
        r,
        "!help: Display this message\n!ping: Ping the bot\n!advice: Get your fortune told\n!fortune: Replaced with !advice\n"
    );
}

#[test]
fn ping_gets_pong() {
    let (pool, mut table) = full_setup();
    let r = handle_message(&pool, &mut table, 1, "someone", "!ping", 0).unwrap();
    assert_eq!(r, "Pong!");
}

#[test]
fn fortune_reports_deprecation() {
    let (pool, mut table) = full_setup();
    let r = handle_message(&pool, &mut table, 1, "someone", "!fortune", 0).unwrap();
    assert_eq!(r, "The !fortune command has been replaced with !advice.");
}

#[test]
fn unknown_command_names_the_token() {
    let (pool, mut table) = full_setup();
    let before = table.record_count();
    let r = handle_message(&pool, &mut table, 1, "someone", "!xyzzy abc", 0).unwrap();
    assert_eq!(r, "Unknown command: xyzzy abc");
    assert!(r.contains("xyzzy"));
    // no record mutation occurs
    assert_eq!(table.record_count(), before);
}

#[test]
fn non_commands_are_ignored() {
    let (pool, mut table) = full_setup();
    assert!(handle_message(&pool, &mut table, 1, "someone", "hello", 0).is_none());
    assert!(handle_message(&pool, &mut table, 1, "someone", "", 0).is_none());
    assert!(handle_message(&pool, &mut table, 1, "someone", "!", 0).is_none());
    assert!(handle_message(&pool, &mut table, 1, "someone", "!   ", 0).is_none());
    assert_eq!(table.record_count(), 1);
}

#[test]
fn own_messages_are_ignored() {
    let (pool, mut table) = full_setup();
    assert!(handle_message(&pool, &mut table, 1, "Kai's Cool Bot", "!ping", 0).is_none());
}

#[test]
fn advice_substitutes_the_alias() {
    let (pool, mut table) = greeting_setup();
    let r = handle_message(&pool, &mut table, 1, "Kai' Sa", "!advice", 0).unwrap();
    assert_eq!(r, "Hello Aether!");
}

#[test]
fn advice_cooldown_cycle() {
    let (pool, mut table) = greeting_setup();
    let first = handle_message(&pool, &mut table, 1, "Kai' Sa", "!advice", 0).unwrap();
    assert_eq!(first, "Hello Aether!");
    let denied = handle_message(&pool, &mut table, 1, "Kai' Sa", "!advice", 0).unwrap();
    assert_eq!(denied, "You have already been given advice today. Try again in 24 hours");
    let later = handle_message(&pool, &mut table, 1, "Kai' Sa", "!advice", 23 * HOUR).unwrap();
    assert_eq!(later, "You have already been given advice today. Try again in 1 hours");
    let allowed = handle_message(&pool, &mut table, 1, "Kai' Sa", "!advice", 24 * HOUR).unwrap();
    assert_eq!(allowed, "Hello Aether!");
}

#[test]
fn advice_without_meta_is_skipped() {
    let pool = advice_pool();
    let mut table = UserTable::new(pool.len());
    assert!(handle_message(&pool, &mut table, 1, "someone", "!advice", 0).is_none());
    assert_eq!(table.record_count(), 0);
}

#[test]
fn meta_is_seeded_from_every_history() {
    let mut table = UserTable::new(3);
    let ua = table.find_or_create(9);
    let mut rec = table.record_at(ua);
    rec.history.insert(2);
    table.put(ua, rec);
    table.init_meta();
    let mi = table.lookup(0).expect("the meta record must exist after startup");
    let meta = table.record_at(mi);
    assert!(meta.history.contains(2));
    assert!(!meta.history.contains(0));
    assert!(!meta.history.contains(1));
}

#[test]
fn advice_updates_both_histories() {
    let pool = Pool::from_templates(vec![
        String::from("###a"),
        String::from("###b"),
        String::from("###c"),
    ]);
    let mut table = UserTable::new(3);
    table.init_meta();
    let r = handle_message(&pool, &mut table, 5, "someone", "!advice", 0);
    assert!(r.is_some());
    let ui = table.lookup(5).expect("the requester's record is created lazily");
    let user = table.record_at(ui);
    assert_eq!(user.history.count(), 1);
    assert_eq!(user.last_draw_time, Some(0));
    let mi = table.lookup(0).unwrap();
    let meta = table.record_at(mi);
    assert_eq!(meta.history.count(), 1);
    assert_eq!(meta.last_draw_time, None);
}

#[test]
fn respond_uses_the_wall_clock() {
    let (pool, mut table) = full_setup();
    let r = advice_bot::handler::respond(&pool, &mut table, 1, "someone", "!ping");
    assert_eq!(r.unwrap(), "Pong!");
    let first = advice_bot::handler::respond(&pool, &mut table, 1, "someone", "!advice");
    assert!(first.is_some());
    // a second draw in the same instant falls inside the cooldown
    let second = advice_bot::handler::respond(&pool, &mut table, 1, "someone", "!advice").unwrap();
    assert!(second.starts_with("You have already been given advice today."));
}

#[test]
fn advice_pool_holds_twenty_templates() {
    let pool = advice_pool();
    assert_eq!(pool.len(), 20);
    assert_eq!(pool.template(0), "###, you a good person deserving of love ❤");
    assert_eq!(
        pool.template(19),
        "###, when you find someone's behavior appalling, it may be useful to use words to get to the root of why they would do such a thing. Some people are beyond saving, others are actually reasonable and can be reformed via conversation."
    );
}
