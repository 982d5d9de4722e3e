use barbershop::report::{build_monthly_report, check_report_year, month_prefix, summarize_month, CashRow};

fn row(kind: &str, amount: i64, commission: i64, sale_type: &str) -> CashRow {
    CashRow { kind: kind.to_string(), amount_cents: amount, commission_cents: commission, sale_type: sale_type.to_string() }
}

fn sample() -> Vec<CashRow> {
    vec![
        row("entrada", 4000, 1600, "service"),
        row("entrada", 5000, 500, "product"),
        row("despesa", 1200, 0, "other"),
        row("entrada", 3000, 0, "service"),
    ]
}

#[test]
fn month_totals_and_balance() {
    let s = summarize_month(3, &sample()).unwrap();
    assert_eq!(s.month, 3);
    assert_eq!(s.income_cents, 12000);
    assert_eq!(s.expense_cents, 1200);
    assert_eq!(s.commission_cents, 2100);
    assert_eq!(s.balance_cents, 8700);
    assert_eq!(s.transactions, 4);
    assert_eq!(s.attendances, 2);
}

#[test]
fn service_incomes_count_as_attendances() {
    let mut rows = sample();
    let before = summarize_month(1, &rows).unwrap().attendances;
    rows.push(row("entrada", 1000, 400, "service"));
    assert_eq!(summarize_month(1, &rows).unwrap().attendances, before + 1);
    rows.push(row("despesa", 1000, 0, "service"));
    assert_eq!(summarize_month(1, &rows).unwrap().attendances, before + 1);
}

#[test]
fn removing_an_entry_removes_its_value() {
    let rows = sample();
    let full = summarize_month(1, &rows).unwrap();
    let mut less = rows;
    less.remove(1);
    let s = summarize_month(1, &less).unwrap();
    assert_eq!(s.income_cents, full.income_cents - 5000);
    assert_eq!(s.commission_cents, full.commission_cents - 500);
    assert_eq!(s.balance_cents, full.balance_cents - 4500);
    assert_eq!(s.transactions, full.transactions - 1);
}

#[test]
fn overflowing_sums_are_refused() {
    let rows = vec![row("entrada", i64::MAX, 0, "other"), row("entrada", 1, 0, "other")];
    assert!(matches!(summarize_month(1, &rows), Err(e) if e == "integer overflow"));
}

#[test]
fn year_totals_add_the_months() {
    let a = summarize_month(1, &sample()).unwrap();
    let b = summarize_month(2, &vec![row("despesa", 300, 0, "other")]).unwrap();
    let empty = summarize_month(3, &vec![]).unwrap();
    let r = build_monthly_report(2024, vec![a, b, empty]);
    assert_eq!(r.year, 2024);
    assert_eq!(r.months.len(), 3);
    assert_eq!(r.year_income_cents, 12000);
    assert_eq!(r.year_expense_cents, 1500);
    assert_eq!(r.year_commission_cents, 2100);
    assert_eq!(r.year_balance_cents, 8400);
    let sum: i64 = r.months.iter().map(|m| m.balance_cents).sum();
    assert_eq!(sum, r.year_balance_cents);
}

#[test]
fn report_years_and_prefixes() {
    assert_eq!(check_report_year(1999), Err("Ano inválido.".to_string()));
    assert_eq!(check_report_year(2101), Err("Ano inválido.".to_string()));
    assert_eq!(check_report_year(2000), Ok(()));
    assert_eq!(month_prefix(2024, 3), "2024-03");
    assert_eq!(month_prefix(2100, 12), "2100-12");
}
