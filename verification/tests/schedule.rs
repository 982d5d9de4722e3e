use barbershop::schedule::{available_times, overlaps, slot_available, BlockedSlot, BookedSlot};
use barbershop::services::{service_names, service_summary, services_to_query, ServiceRow};

fn booked(id: i64, time: &str, duration_min: i64, staff_id: Option<i64>) -> BookedSlot {
    BookedSlot { id, time: time.to_string(), duration_min, staff_id }
}

fn block(time: &str, staff_id: Option<i64>) -> BlockedSlot {
    BlockedSlot { time: time.to_string(), staff_id }
}

#[test]
fn overlaps_is_strict_at_the_edges() {
    assert!(overlaps(600, 30, 620, 30));
    assert!(!overlaps(600, 30, 630, 30));
    assert!(!overlaps(630, 30, 600, 30));
    assert!(overlaps(600, 120, 630, 10));
}

#[test]
fn slot_clashes_with_a_booked_appointment() {
    let appts = vec![booked(1, "10:00", 30, Some(7))];
    let blocks = vec![];
    assert_eq!(slot_available("10:15", 30, Some(7), None, &appts, &blocks), Ok(false));
    assert_eq!(slot_available("10:30", 30, Some(7), None, &appts, &blocks), Ok(true));
    assert_eq!(slot_available("09:30", 30, Some(7), None, &appts, &blocks), Ok(true));
    assert_eq!(slot_available("09:45", 30, None, None, &appts, &blocks), Ok(false));
}

#[test]
fn slot_ignores_other_collaborators_and_the_edited_appointment() {
    let appts = vec![booked(1, "10:00", 30, Some(7))];
    let blocks = vec![];
    assert_eq!(slot_available("10:00", 30, Some(8), None, &appts, &blocks), Ok(true));
    assert_eq!(slot_available("10:00", 30, Some(7), Some(1), &appts, &blocks), Ok(true));
}

#[test]
fn slot_skips_unreadable_stored_times() {
    let appts = vec![booked(1, "depois", 30, None)];
    assert_eq!(slot_available("10:00", 30, None, None, &appts, &vec![]), Ok(true));
}

#[test]
fn slot_refuses_an_unreadable_time() {
    let r = slot_available("10h00", 30, None, None, &vec![], &vec![]);
    assert_eq!(r, Err("Horário inválido".to_string()));
}

#[test]
fn blocks_close_the_day_or_half_an_hour() {
    let whole = vec![block("Dia inteiro", None)];
    assert_eq!(slot_available("15:00", 30, Some(3), None, &vec![], &whole), Ok(false));
    let other = vec![block("Dia inteiro", Some(4))];
    assert_eq!(slot_available("15:00", 30, Some(3), None, &vec![], &other), Ok(true));
    let half = vec![block("09:45", None)];
    assert_eq!(slot_available("10:00", 30, None, None, &vec![], &half), Ok(false));
    assert_eq!(slot_available("10:15", 30, None, None, &vec![], &half), Ok(true));
}

#[test]
fn available_times_steps_every_half_hour() {
    let appts = vec![booked(1, "08:30", 60, None)];
    let r = available_times(480, 600, false, 0, 30, None, &appts, &vec![]);
    assert_eq!(r, vec!["08:00".to_string(), "09:30".to_string()]);
}

#[test]
fn available_times_today_only_offers_later_minutes() {
    let r = available_times(480, 600, true, 540, 30, None, &vec![], &vec![]);
    assert_eq!(r, vec!["09:30".to_string()]);
    let none = available_times(600, 600, false, 0, 30, None, &vec![], &vec![]);
    assert!(none.is_empty());
}

#[test]
fn services_to_query_keeps_each_positive_id_once() {
    let u = services_to_query(&vec![3, 0, 3, -1, 5]).unwrap();
    assert_eq!(u.len(), 2);
    assert!(u.contains(&3) && u.contains(&5));
    assert_eq!(services_to_query(&vec![0, -2]), Err("Escolha pelo menos um serviço.".to_string()));
    assert_eq!(services_to_query(&vec![]), Err("Escolha pelo menos um serviço.".to_string()));
}

fn svc(id: i64, name: &str, price_cents: i64, duration_min: i64) -> ServiceRow {
    ServiceRow { id, name: name.to_string(), price_cents, duration_min }
}

#[test]
fn service_summary_adds_durations_and_prices() {
    let rows = vec![svc(3, "Corte", 4000, 30), svc(5, "Barba", 2500, 20)];
    let (v, dur, total) = service_summary(&vec![3, 5], rows).unwrap();
    assert_eq!(v.len(), 2);
    assert_eq!(dur, 50);
    assert_eq!(total, 6500);
}

#[test]
fn service_summary_refuses_missing_services() {
    let rows = vec![svc(3, "Corte", 4000, 30)];
    assert!(matches!(service_summary(&vec![3, 5], rows), Err(e) if e == "Um ou mais serviços estão indisponíveis."));
}

#[test]
fn service_names_join_with_plus() {
    let rows = vec![svc(3, "Corte", 4000, 30), svc(5, "Barba", 2500, 20)];
    assert_eq!(service_names(&rows), "Corte + Barba");
    assert_eq!(service_names(&vec![svc(1, "Corte", 1, 5)]), "Corte");
    assert_eq!(service_names(&vec![]), "");
}
