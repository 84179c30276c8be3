use omikron::auth::{
    auth_public_key_of, iota_id_of, iota_id_url, is_success, private_key_hash_url,
    private_key_valid_of, public_key_url, register_id_of, try_auth_user_of, user_public_key_of,
};
use omikron::config::{blank, Config};
use omikron::logger::{colorize, fixed_box, format_log_line, log_internal, LogColor, PrintType};
use omikron::console;
use omikron::text::{
    concat_text, i64_to_string, join_texts, parse_i32, replace_text, split_text, u128_to_string,
    u64_to_string,
};

#[test]
fn decimal_texts() {
    assert_eq!(i64_to_string(-120), "-120");
    assert_eq!(i64_to_string(i64::MIN), "-9223372036854775808");
    assert_eq!(u64_to_string(0), "0");
    assert_eq!(u128_to_string(340282366920938463463374607431768211455), "340282366920938463463374607431768211455");
    assert_eq!(parse_i32("2147483647"), Some(i32::MAX));
    assert_eq!(parse_i32("2147483648"), None);
    assert_eq!(parse_i32("-7"), Some(-7));
}

#[test]
fn splitting_and_joining() {
    assert_eq!(split_text("a,,b", ','), vec!["a".to_string(), "".to_string(), "b".to_string()]);
    assert_eq!(split_text("", ','), vec!["".to_string()]);
    let parts = split_text(",x,y,", ',');
    assert_eq!(join_texts(&parts, ","), ",x,y,");
    assert_eq!(concat_text("ab", "cd"), "abcd");
}

#[test]
fn replacing_text() {
    assert_eq!(replace_text("{\"iota_uuid\":5}", "iota_uuid", "iota_id"), "{\"iota_id\":5}");
    assert_eq!(replace_text("aaa", "aa", "b"), "ba");
    assert_eq!(replace_text("none", "x", "y"), "none");
}

#[test]
fn boxes_of_fixed_width() {
    assert_eq!(fixed_box("42", 5), "[   42]");
    assert_eq!(fixed_box("123456", 3), "123");
    assert_eq!(fixed_box("abc", 3), "abc");
    assert_eq!(fixed_box("", 2), "[  ]");
}

#[test]
fn log_lines() {
    let m = log_internal(1700000000000, 0, PrintType::Iota, ">", false, "hello".to_string());
    assert_eq!(m.sender, None);
    assert_eq!(format_log_line(&m), format!("1700000000000 [{}] > hello", " ".repeat(19)));
    let m2 = log_internal(5, 42, PrintType::Client, "<", true, "x".to_string());
    assert_eq!(m2.sender, Some(42));
    assert_eq!(format_log_line(&m2), format!("[{}5] [{}42] < x", " ".repeat(12), " ".repeat(17)));
    assert_eq!(colorize(PrintType::Client, true), LogColor::Red);
    assert_eq!(colorize(PrintType::Omega, false), LogColor::Cyan);
    assert_eq!(colorize(PrintType::Call, false), LogColor::Purple);
}

#[test]
fn console_lines() {
    assert_eq!(console::line(console::PrintType::IotaIn, "m"), (LogColor::Yellow, ">m".to_string()));
    assert_eq!(console::line_err(console::PrintType::ClientOut, "m"), (LogColor::Blue, "<<m".to_string()));
    assert_eq!(console::line(console::PrintType::General, "m"), (LogColor::White, "m".to_string()));
    assert_eq!(console::line_err(console::PrintType::General, "m"), (LogColor::Red, "m".to_string()));
}

#[test]
fn settings_from_a_blank_file_are_the_defaults() {
    assert!(blank(" \n\t"));
    let c = Config::from_content("  \n");
    assert_eq!(c.omega_server, "omega.tensamin.net");
    assert_eq!(c.auth_server, "auth.tensamin.net");
    assert_eq!(c.omikron_id, 0);
    assert_eq!(c.keep_people_stored_for, 90);
    assert_eq!(c.max_data, 8000000000);
    assert_eq!(c.ip, "0.0.0.0");
    assert_eq!(c.port, 959);
}

#[test]
fn settings_from_json() {
    let c = Config::from_content(
        "{\"omega_server\":\"o.example\",\"omikron_id\":\"00000000-0000-0000-0000-00000000000a\",\"port\":70000,\"keep_people_stored_for\":4294967297,\"ip\":5}",
    );
    assert_eq!(c.omega_server, "o.example");
    assert_eq!(c.auth_server, "auth.tensamin.net");
    assert_eq!(c.omikron_id, 10);
    assert_eq!(c.port, 4464);
    assert_eq!(c.keep_people_stored_for, 1);
    assert_eq!(c.ip, "0.0.0.0");
    assert!(Config::try_from_content("{oops").is_none());
}

#[test]
fn authority_answers() {
    let ok = "{\"id\":\"00000000-0000-0000-0000-000000000001\",\"type\":\"success\",\"data\":{\"iota_uuid\":55,\"public_key\":\"PK\",\"matches\":true}}";
    assert!(is_success(ok));
    assert_eq!(iota_id_of(ok), Some(55));
    assert_eq!(auth_public_key_of(ok), Some("PK".to_string()));
    assert!(private_key_valid_of(ok));
    let failed = "{\"type\":\"error\",\"data\":{\"iota_id\":55}}";
    assert!(!is_success(failed));
    assert_eq!(iota_id_of(failed), None);
    assert!(!private_key_valid_of(failed));
    let zero = "{\"type\":\"success\",\"data\":{\"iota_id\":0}}";
    assert_eq!(iota_id_of(zero), None);
    assert_eq!(register_id_of("{\"type\":\"success\",\"data\":{\"user_id\":12}}"), Some(12));
    assert_eq!(register_id_of("{\"type\":\"success\",\"data\":{}}"), Some(0));
    assert_eq!(register_id_of("{\"type\":\"success\",\"data\":{\"user_id\":\"x\"}}"), None);
    assert_eq!(user_public_key_of("{\"type\":\"message_send\",\"data\":{\"ping_clients\":\"K\"}}"), Some("K".to_string()));
    assert_eq!(user_public_key_of(ok), None);
}

#[test]
fn authority_user_descriptions() {
    let full = "{\"type\":\"success\",\"data\":{\"created_at\":17,\"username\":\"ann\",\"display\":\"Ann\",\"avatar\":\"a.png\",\"about\":\"hi\",\"status\":\"ok\",\"public_key\":\"PK\",\"sub_level\":\"x\",\"sub_end\":3}}";
    let user = try_auth_user_of(full).unwrap().unwrap();
    assert_eq!(user.created_at, 17);
    assert_eq!(user.username, "ann");
    assert_eq!(user.sub_level, -1);
    assert_eq!(user.sub_end, 3);
    let partial = "{\"type\":\"success\",\"data\":{\"username\":\"ann\"}}";
    assert!(try_auth_user_of(partial).is_none());
    assert!(try_auth_user_of("{\"type\":\"error\"}").unwrap().is_none());
}

#[test]
fn authority_addresses() {
    assert_eq!(iota_id_url(-3), "https://auth.tensamin.net/api/get/iota-id/-3");
    assert_eq!(private_key_hash_url(9), "https://auth.tensamin.net/api/get/private-key-hash/9/");
    assert_eq!(public_key_url(9), "https://auth.tensamin.net/api/9/public-key");
}
