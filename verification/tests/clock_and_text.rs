use barbershop::clock::{time_text, time_to_minutes};
use barbershop::text::{decimal, is_blank, normalize_phone, str_eq, trim};

#[test]
fn time_to_minutes_reads_clock_times() {
    assert_eq!(time_to_minutes("08:30"), Some(510));
    assert_eq!(time_to_minutes("00:00"), Some(0));
    assert_eq!(time_to_minutes("23:59"), Some(1439));
    assert_eq!(time_to_minutes("7:05"), Some(425));
}

#[test]
fn time_to_minutes_refuses_out_of_range_and_malformed() {
    assert_eq!(time_to_minutes("24:00"), None);
    assert_eq!(time_to_minutes("12:60"), None);
    assert_eq!(time_to_minutes("12"), None);
    assert_eq!(time_to_minutes("12:"), None);
    assert_eq!(time_to_minutes("ab:10"), None);
    assert_eq!(time_to_minutes(" 7:15"), None);
    assert_eq!(time_to_minutes(""), None);
    assert_eq!(time_to_minutes("99999999999999999999:00"), None);
}

#[test]
fn time_to_minutes_follows_integer_parsing() {
    assert_eq!(time_to_minutes("+1:05"), Some(65));
    assert_eq!(time_to_minutes("-1:30"), Some(-30));
    assert_eq!(time_to_minutes("07:15:99"), Some(435));
    assert_eq!(time_to_minutes("0008:0001"), Some(481));
}

#[test]
fn time_text_pads_to_two_digits() {
    assert_eq!(time_text(510), "08:30");
    assert_eq!(time_text(0), "00:00");
    assert_eq!(time_text(1439), "23:59");
    assert_eq!(time_text(-30), "00:-30");
    assert_eq!(time_text(-90), "-1:-30");
}

#[test]
fn time_text_reads_back_as_the_same_minute() {
    for m in [-1500i64, -90, -30, -1, 0, 1, 59, 60, 510, 1200, 1439] {
        assert_eq!(time_to_minutes(&time_text(m)), Some(m));
    }
}

#[test]
fn trim_drops_unicode_whitespace_at_both_ends() {
    assert_eq!(trim("  Ana Souza \t\n"), "Ana Souza");
    assert_eq!(trim("\u{3000}x y\u{00A0}"), "x y");
    assert_eq!(trim("   "), "");
    assert!(is_blank(" \u{2003} "));
    assert!(!is_blank(" a "));
}

#[test]
fn normalize_phone_keeps_digits_in_order() {
    assert_eq!(normalize_phone("(11) 98765-4321"), "11987654321");
    assert_eq!(normalize_phone("+55 ١٢ 3"), "553");
    assert_eq!(normalize_phone("sem telefone"), "");
}

#[test]
fn decimal_writes_signed_integers() {
    assert_eq!(decimal(0), "0");
    assert_eq!(decimal(-45), "-45");
    assert_eq!(decimal(1234567), "1234567");
    assert_eq!(decimal(i64::MIN), "-9223372036854775808");
    assert_eq!(decimal(i64::MAX), "9223372036854775807");
}

#[test]
fn str_eq_compares_texts() {
    assert!(str_eq("Finalizado", "Finalizado"));
    assert!(!str_eq("Finalizado", "finalizado"));
    assert!(!str_eq("ab", "abc"));
}
