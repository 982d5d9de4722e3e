use barbershop::dates::{valid_date, weekday_of};
use barbershop::opening_hours::{check_opening_hour, check_week, operating_window, OpeningHour};

fn day(d: i64, start: &str, end: &str, enabled: bool) -> OpeningHour {
    OpeningHour { day_of_week: d, start_time: start.to_string(), end_time: end.to_string(), enabled }
}

fn default_week() -> Vec<OpeningHour> {
    vec![
        day(0, "08:00", "12:00", true),
        day(1, "18:00", "20:30", true),
        day(2, "18:00", "20:30", true),
        day(3, "18:00", "20:30", true),
        day(4, "18:00", "20:30", true),
        day(5, "18:00", "20:30", true),
        day(6, "08:00", "20:30", true),
    ]
}

#[test]
fn weekday_counts_from_sunday() {
    assert_eq!(weekday_of("2024-01-07"), Ok(0));
    assert_eq!(weekday_of("2024-01-13"), Ok(6));
    assert_eq!(weekday_of("2025-12-25"), Ok(4));
}

#[test]
fn unreadable_dates_are_refused() {
    assert_eq!(weekday_of("2024-02-30"), Err("Data inválida".to_string()));
    assert_eq!(weekday_of("07/01/2024"), Err("Data inválida".to_string()));
    assert!(valid_date("2024-02-29"));
    assert!(!valid_date("2023-02-29"));
    assert!(!valid_date("2024-13-01"));
}

#[test]
fn the_default_week_can_be_saved() {
    assert_eq!(check_week(&default_week()), Ok(()));
}

#[test]
fn a_week_needs_seven_days() {
    let mut w = default_week();
    w.pop();
    assert_eq!(check_week(&w), Err("Informe os sete dias da semana.".to_string()));
}

#[test]
fn the_first_invalid_day_is_reported() {
    let mut w = default_week();
    w[2] = day(2, "20:00", "18:00", true);
    w[4] = day(9, "08:00", "12:00", true);
    assert_eq!(check_week(&w), Err("O horário final deve ser maior que o inicial.".to_string()));
}

#[test]
fn each_day_error_is_named() {
    assert_eq!(check_opening_hour(&day(7, "08:00", "12:00", true)), Err("Dia da semana inválido.".to_string()));
    assert_eq!(check_opening_hour(&day(1, "8h", "12:00", true)), Err("Horário inicial inválido.".to_string()));
    assert_eq!(check_opening_hour(&day(1, "08:00", "", true)), Err("Horário final inválido.".to_string()));
    assert_eq!(check_opening_hour(&day(1, "12:00", "12:00", true)), Err("O horário final deve ser maior que o inicial.".to_string()));
    assert_eq!(check_opening_hour(&day(1, "lixo", "lixo", false)), Ok(()));
}

#[test]
fn operating_window_of_a_day() {
    assert_eq!(operating_window(None), Ok(None));
    assert_eq!(operating_window(Some(&day(1, "08:00", "12:00", false))), Ok(None));
    assert_eq!(operating_window(Some(&day(1, "08:00", "12:00", true))), Ok(Some((480, 720))));
    assert_eq!(operating_window(Some(&day(1, "x", "12:00", true))), Err("Horário inicial configurado é inválido".to_string()));
    assert_eq!(operating_window(Some(&day(1, "08:00", "y", true))), Err("Horário final configurado é inválido".to_string()));
    assert_eq!(operating_window(Some(&day(1, "12:00", "08:00", true))), Err("Expediente configurado é inválido".to_string()));
}

#[test]
fn a_saved_week_always_has_windows() {
    for d in default_week() {
        assert_eq!(check_opening_hour(&d), Ok(()));
        let w = operating_window(Some(&d)).unwrap().unwrap();
        assert!(w.0 < w.1);
    }
}
