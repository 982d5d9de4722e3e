//! The monthly cash report: per-month totals of incomes, expenses, commissions and
//! attendances, and the year's totals.
use vstd::prelude::*;
use crate::schedule::fits_i64;
use crate::text::{push_decimal, push_pad2, push_str, spec_decimal, spec_pad2, str_eq};

verus! {

/// A cash entry as the report reads it.
pub struct CashRow {
    pub kind: String,
    pub amount_cents: i64,
    pub commission_cents: i64,
    pub sale_type: String,
}

pub open spec fn is_income(r: CashRow) -> bool {
    r.kind@ == "entrada"@
}

pub open spec fn is_expense(r: CashRow) -> bool {
    r.kind@ == "despesa"@
}

/// What an entry adds to the month's income.
pub open spec fn income_part(r: CashRow) -> int {
    if is_income(r) {
        r.amount_cents as int
    } else {
        0
    }
}

/// What an entry adds to the month's expenses.
pub open spec fn expense_part(r: CashRow) -> int {
    if is_expense(r) {
        r.amount_cents as int
    } else {
        0
    }
}

/// What an entry adds to the month's commissions (only incomes pay commission).
pub open spec fn commission_part(r: CashRow) -> int {
    if is_income(r) {
        r.commission_cents as int
    } else {
        0
    }
}

/// Whether an entry counts as an attendance: an income of a service.
pub open spec fn attendance_part(r: CashRow) -> int {
    if is_income(r) && r.sale_type@ == "service"@ {
        1
    } else {
        0
    }
}

/// The sum of `f` over `rows`.
pub open spec fn sum_by(rows: Seq<CashRow>, f: spec_fn(CashRow) -> int) -> int
    decreases rows.len(),
{
    if rows.len() == 0 {
        0
    } else {
        sum_by(rows.drop_last(), f) + f(rows.last())
    }
}

/// Every running sum of `f` over `rows` stays within `i64`.
pub open spec fn running_sums_fit(rows: Seq<CashRow>, f: spec_fn(CashRow) -> int) -> bool {
    forall|k: int| 0 <= k <= rows.len() ==> fits_i64(#[trigger] sum_by(rows.take(k), f))
}

pub open spec fn income_fn() -> spec_fn(CashRow) -> int {
    |r: CashRow| income_part(r)
}

pub open spec fn expense_fn() -> spec_fn(CashRow) -> int {
    |r: CashRow| expense_part(r)
}

pub open spec fn commission_fn() -> spec_fn(CashRow) -> int {
    |r: CashRow| commission_part(r)
}

pub open spec fn attendance_fn() -> spec_fn(CashRow) -> int {
    |r: CashRow| attendance_part(r)
}

pub open spec fn month_income(rows: Seq<CashRow>) -> int {
    sum_by(rows, income_fn())
}

pub open spec fn month_expense(rows: Seq<CashRow>) -> int {
    sum_by(rows, expense_fn())
}

pub open spec fn month_commission(rows: Seq<CashRow>) -> int {
    sum_by(rows, commission_fn())
}

pub open spec fn month_attendances(rows: Seq<CashRow>) -> int {
    sum_by(rows, attendance_fn())
}

/// The sums of a month can be taken without an integer overflow.
pub open spec fn month_sums_fit(rows: Seq<CashRow>) -> bool {
    &&& running_sums_fit(rows, income_fn())
    &&& running_sums_fit(rows, expense_fn())
    &&& running_sums_fit(rows, commission_fn())
}

/// The totals of one month.
pub struct MonthSummary {
    pub month: u32,
    pub income_cents: i64,
    pub expense_cents: i64,
    pub commission_cents: i64,
    pub balance_cents: i64,
    pub transactions: i64,
    pub attendances: i64,
}

/// The report of a year.
pub struct MonthlyReport {
    pub year: i32,
    pub months: Vec<MonthSummary>,
    pub year_income_cents: i64,
    pub year_expense_cents: i64,
    pub year_commission_cents: i64,
    pub year_balance_cents: i64,
}

/// Reports cover the years 2000 to 2100.
pub fn check_report_year(year: i32) -> (r: Result<(), String>)
    ensures
        r is Ok <==> 2000 <= year <= 2100,
        r matches Err(e) ==> e@ == "Ano inválido."@,
{
    if !(2000 <= year && year <= 2100) {
        return Err("Ano inválido.".to_string());
    }
    Ok(())
}

/// `format!("{:04}-{:02}", year, month)` for a four-digit year: the date prefix of a month.
pub fn month_prefix(year: i32, month: u32) -> (r: String)
    requires
        1000 <= year <= 9999,
        1 <= month <= 12,
    ensures
        r@ == spec_decimal(year as int) + "-"@ + spec_pad2(month as int),
{
    let mut s = String::new();
    push_decimal(&mut s, year as i64);
    push_str(&mut s, "-");
    push_pad2(&mut s, month as i64);
    s
}

proof fn lemma_sum_step(rows: Seq<CashRow>, i: int, f: spec_fn(CashRow) -> int)
    requires
        0 <= i < rows.len(),
    ensures
        sum_by(rows.take(i + 1), f) == sum_by(rows.take(i), f) + f(rows[i]),
{
    assert(rows.take(i + 1).drop_last() =~= rows.take(i));
}

/// Whether `summarize_month` can compute the balance of these entries within `i64`: either
/// one of the sums overflows (and the month is refused with an error), or income less
/// expenses less commissions fits.
pub fn month_balance_fits(rows: &Vec<CashRow>) -> (r: bool)
    requires
        rows@.len() <= i64::MAX,
    ensures
        r == (month_sums_fit(rows@) ==> fits_i64(month_income(rows@) - month_expense(rows@))
            && fits_i64(month_income(rows@) - month_expense(rows@) - month_commission(rows@))),
{
    let ghost fi = income_fn();
    let ghost fe = expense_fn();
    let ghost fc = commission_fn();
    let bound: i128 = 9223372036854775808i128;
    let mut inc: i128 = 0;
    let mut exp: i128 = 0;
    let mut com: i128 = 0;
    let mut ok_i = true;
    let mut ok_e = true;
    let mut ok_c = true;
    let mut i: usize = 0;
    assert(rows@.take(0) =~= Seq::<CashRow>::empty());
    proof {
        reveal_strlit("entrada");
        reveal_strlit("despesa");
        assert("entrada"@[0] != "despesa"@[0]);
    }
    while i < rows.len()
        invariant
            i <= rows@.len(),
            rows@.len() <= i64::MAX,
            bound == 9223372036854775808i128,
            fi == income_fn(),
            fe == expense_fn(),
            fc == commission_fn(),
            inc == sum_by(rows@.take(i as int), fi),
            exp == sum_by(rows@.take(i as int), fe),
            com == sum_by(rows@.take(i as int), fc),
            -bound * i <= inc <= bound * i,
            -bound * i <= exp <= bound * i,
            -bound * i <= com <= bound * i,
            ok_i == (forall|k: int| 0 <= k <= i ==> fits_i64(#[trigger] sum_by(rows@.take(k), fi))),
            ok_e == (forall|k: int| 0 <= k <= i ==> fits_i64(#[trigger] sum_by(rows@.take(k), fe))),
            ok_c == (forall|k: int| 0 <= k <= i ==> fits_i64(#[trigger] sum_by(rows@.take(k), fc))),
        decreases rows@.len() - i,
    {
        let row = &rows[i];
        proof {
            lemma_sum_step(rows@, i as int, fi);
            lemma_sum_step(rows@, i as int, fe);
            lemma_sum_step(rows@, i as int, fc);
            assert(bound * i + bound == bound * (i + 1)) by (nonlinear_arith);
            assert(-bound * i - bound == -bound * (i + 1)) by (nonlinear_arith);
            assert(bound * (i + 1) <= bound * 9223372036854775807) by (nonlinear_arith)
                requires
                    i + 1 <= 9223372036854775807,
                    bound > 0,
            ;
        }
        if str_eq(row.kind.as_str(), "entrada") {
            inc = inc + row.amount_cents as i128;
            com = com + row.commission_cents as i128;
        }
        if str_eq(row.kind.as_str(), "despesa") {
            exp = exp + row.amount_cents as i128;
        }
        let fits_i = i64::MIN as i128 <= inc && inc <= i64::MAX as i128;
        let fits_e = i64::MIN as i128 <= exp && exp <= i64::MAX as i128;
        let fits_c = i64::MIN as i128 <= com && com <= i64::MAX as i128;
        proof {
            assert forall|k: int| 0 <= k <= i + 1 implies (fits_i64(#[trigger] sum_by(rows@.take(k), fi)) <==> (k <= i ==> fits_i64(sum_by(rows@.take(k), fi))) && (k == i + 1 ==> fits_i)) by {}
        }
        ok_i = ok_i && fits_i;
        ok_e = ok_e && fits_e;
        ok_c = ok_c && fits_c;
        i = i + 1;
    }
    assert(rows@.take(rows@.len() as int) =~= rows@);
    if !(ok_i && ok_e && ok_c) {
        return true;
    }
    let d = inc - exp;
    let b = d - com;
    i64::MIN as i128 <= d && d <= i64::MAX as i128 && i64::MIN as i128 <= b && b <= i64::MAX as i128
}

/// The totals of one month from its cash entries. An overflowing sum is refused with the
/// error that SQLite raises for it ("integer overflow").
pub fn summarize_month(month: u32, rows: &Vec<CashRow>) -> (r: Result<MonthSummary, String>)
    requires
        rows@.len() <= i64::MAX,
        month_sums_fit(rows@) ==> fits_i64(month_income(rows@) - month_expense(rows@))
            && fits_i64(month_income(rows@) - month_expense(rows@) - month_commission(rows@)),
    ensures
        !month_sums_fit(rows@) ==> (r matches Err(e) && e@ == "integer overflow"@),
        month_sums_fit(rows@) ==> (r matches Ok(s) && {
            &&& s.month == month
            &&& s.income_cents == month_income(rows@)
            &&& s.expense_cents == month_expense(rows@)
            &&& s.commission_cents == month_commission(rows@)
            &&& s.balance_cents == month_income(rows@) - month_expense(rows@) - month_commission(
                rows@,
            )
            &&& s.transactions == rows@.len()
            &&& s.attendances == month_attendances(rows@)
        }),
{
    let ghost fi = income_fn();
    let ghost fe = expense_fn();
    let ghost fc = commission_fn();
    let ghost fa = attendance_fn();
    let mut income: i64 = 0;
    let mut expense: i64 = 0;
    let mut commission: i64 = 0;
    let mut attendances: i64 = 0;
    let mut i: usize = 0;
    assert(rows@.take(0) =~= Seq::<CashRow>::empty());
    while i < rows.len()
        invariant
            i <= rows@.len(),
            rows@.len() <= i64::MAX,
            fi == income_fn(),
            fe == expense_fn(),
            fc == commission_fn(),
            fa == attendance_fn(),
            forall|k: int| 0 <= k <= i ==> fits_i64(#[trigger] sum_by(rows@.take(k), fi)),
            forall|k: int| 0 <= k <= i ==> fits_i64(#[trigger] sum_by(rows@.take(k), fe)),
            forall|k: int| 0 <= k <= i ==> fits_i64(#[trigger] sum_by(rows@.take(k), fc)),
            income == sum_by(rows@.take(i as int), fi),
            expense == sum_by(rows@.take(i as int), fe),
            commission == sum_by(rows@.take(i as int), fc),
            attendances == sum_by(rows@.take(i as int), fa),
            0 <= attendances <= i,
        decreases rows@.len() - i,
    {
        let row = &rows[i];
        proof {
            lemma_sum_step(rows@, i as int, fi);
            lemma_sum_step(rows@, i as int, fe);
            lemma_sum_step(rows@, i as int, fc);
            lemma_sum_step(rows@, i as int, fa);
        }
        proof {
            reveal_strlit("entrada");
            reveal_strlit("despesa");
            assert("entrada"@[0] != "despesa"@[0]);
        }
        let inc = str_eq(row.kind.as_str(), "entrada");
        let exp = str_eq(row.kind.as_str(), "despesa");
        if inc {
            match income.checked_add(row.amount_cents) {
                Some(v) => income = v,
                None => {
                    assert(!fits_i64(sum_by(rows@.take(i + 1), fi)));
                    return Err("integer overflow".to_string());
                },
            }
            match commission.checked_add(row.commission_cents) {
                Some(v) => commission = v,
                None => {
                    assert(!fits_i64(sum_by(rows@.take(i + 1), fc)));
                    return Err("integer overflow".to_string());
                },
            }
            if str_eq(row.sale_type.as_str(), "service") {
                attendances = attendances + 1;
            }
        }
        if exp {
            match expense.checked_add(row.amount_cents) {
                Some(v) => expense = v,
                None => {
                    assert(!fits_i64(sum_by(rows@.take(i + 1), fe)));
                    return Err("integer overflow".to_string());
                },
            }
        }
        i = i + 1;
    }
    assert(rows@.take(rows@.len() as int) =~= rows@);
    assert(month_sums_fit(rows@));
    Ok(
        MonthSummary {
            month,
            income_cents: income,
            expense_cents: expense,
            commission_cents: commission,
            balance_cents: income - expense - commission,
            transactions: rows.len() as i64,
            attendances,
        },
    )
}


/// The sum of `f` over the months `ms`.
pub open spec fn months_sum(ms: Seq<MonthSummary>, f: spec_fn(MonthSummary) -> int) -> int
    decreases ms.len(),
{
    if ms.len() == 0 {
        0
    } else {
        months_sum(ms.drop_last(), f) + f(ms.last())
    }
}

pub open spec fn m_income() -> spec_fn(MonthSummary) -> int {
    |m: MonthSummary| m.income_cents as int
}

pub open spec fn m_expense() -> spec_fn(MonthSummary) -> int {
    |m: MonthSummary| m.expense_cents as int
}

pub open spec fn m_commission() -> spec_fn(MonthSummary) -> int {
    |m: MonthSummary| m.commission_cents as int
}

pub open spec fn m_balance() -> spec_fn(MonthSummary) -> int {
    |m: MonthSummary| m.balance_cents as int
}

/// The year's sums can be taken, and its balance computed, within `i64`.
pub open spec fn year_sums_fit(ms: Seq<MonthSummary>) -> bool {
    &&& forall|k: int|
        0 <= k <= ms.len() ==> fits_i64(#[trigger] months_sum(ms.take(k), m_income()))
            && fits_i64(months_sum(ms.take(k), m_expense())) && fits_i64(
            months_sum(ms.take(k), m_commission()),
        )
    &&& fits_i64(months_sum(ms, m_income()) - months_sum(ms, m_expense()))
    &&& fits_i64(
        months_sum(ms, m_income()) - months_sum(ms, m_expense()) - months_sum(ms, m_commission()),
    )
}

/// The report of a year from its month totals: the year's income, expenses and commissions
/// are the sums over the months, and its balance is income minus expenses minus commissions.
pub fn build_monthly_report(year: i32, months: Vec<MonthSummary>) -> (r: MonthlyReport)
    requires
        year_sums_fit(months@),
    ensures
        r.year == year,
        r.months@ == months@,
        r.year_income_cents == months_sum(months@, m_income()),
        r.year_expense_cents == months_sum(months@, m_expense()),
        r.year_commission_cents == months_sum(months@, m_commission()),
        r.year_balance_cents == months_sum(months@, m_income()) - months_sum(months@, m_expense())
            - months_sum(months@, m_commission()),
{
    let mut yi: i64 = 0;
    let mut ye: i64 = 0;
    let mut yc: i64 = 0;
    let mut i: usize = 0;
    assert(months@.take(0) =~= Seq::<MonthSummary>::empty());
    while i < months.len()
        invariant
            i <= months@.len(),
            year_sums_fit(months@),
            yi == months_sum(months@.take(i as int), m_income()),
            ye == months_sum(months@.take(i as int), m_expense()),
            yc == months_sum(months@.take(i as int), m_commission()),
        decreases months@.len() - i,
    {
        assert(months@.take(i + 1).drop_last() =~= months@.take(i as int));
        assert(fits_i64(months_sum(months@.take(i + 1), m_income())));
        yi = yi + months[i].income_cents;
        ye = ye + months[i].expense_cents;
        yc = yc + months[i].commission_cents;
        i = i + 1;
    }
    assert(months@.take(months@.len() as int) =~= months@);
    MonthlyReport {
        year,
        months,
        year_income_cents: yi,
        year_expense_cents: ye,
        year_commission_cents: yc,
        year_balance_cents: yi - ye - yc,
    }
}

/// The year's balance is the sum of the months' balances, when each month's balance is its
/// income minus its expenses minus its commissions (as `summarize_month` gives it).
pub proof fn lemma_year_balance_sums_months(ms: Seq<MonthSummary>)
    requires
        forall|i: int|
            0 <= i < ms.len() ==> (#[trigger] ms[i]).balance_cents == ms[i].income_cents
                - ms[i].expense_cents - ms[i].commission_cents,
    ensures
        months_sum(ms, m_balance()) == months_sum(ms, m_income()) - months_sum(ms, m_expense())
            - months_sum(ms, m_commission()),
    decreases ms.len(),
{
    if ms.len() > 0 {
        let d = ms.drop_last();
        assert forall|i: int| 0 <= i < d.len() implies (#[trigger] d[i]).balance_cents
            == d[i].income_cents - d[i].expense_cents - d[i].commission_cents by {
            assert(d[i] == ms[i]);
        }
        lemma_year_balance_sums_months(d);
        assert(ms.last() == ms[ms.len() - 1]);
    }
}

proof fn lemma_sum_remove(rows: Seq<CashRow>, i: int, f: spec_fn(CashRow) -> int)
    requires
        0 <= i < rows.len(),
    ensures
        sum_by(rows, f) == sum_by(rows.remove(i), f) + f(rows[i]),
    decreases rows.len(),
{
    if i == rows.len() - 1 {
        assert(rows.remove(i) =~= rows.drop_last());
    } else {
        lemma_sum_remove(rows.drop_last(), i, f);
        assert(rows.remove(i).drop_last() =~= rows.drop_last().remove(i));
        assert(rows.remove(i).last() == rows.last());
        assert(rows.drop_last()[i] == rows[i]);
    }
}

/// Taking an entry out of a month takes exactly its value out of the month's totals: its
/// amount out of the income (or the expenses), its commission out of the commissions, and
/// its attendance, if it is one, out of the attendances.
pub proof fn lemma_removed_entry_leaves_totals(rows: Seq<CashRow>, i: int)
    requires
        0 <= i < rows.len(),
    ensures
        month_income(rows.remove(i)) == month_income(rows) - income_part(rows[i]),
        month_expense(rows.remove(i)) == month_expense(rows) - expense_part(rows[i]),
        month_commission(rows.remove(i)) == month_commission(rows) - commission_part(rows[i]),
        month_attendances(rows.remove(i)) == month_attendances(rows) - attendance_part(rows[i]),
        rows.remove(i).len() == rows.len() - 1,
{
    lemma_sum_remove(rows, i, income_fn());
    lemma_sum_remove(rows, i, expense_fn());
    lemma_sum_remove(rows, i, commission_fn());
    lemma_sum_remove(rows, i, attendance_fn());
}

/// A service income counts as one attendance of its month, and adds its amount to the
/// income and its commission to the commissions.
pub proof fn lemma_service_entry_is_attendance(rows: Seq<CashRow>, r: CashRow)
    requires
        r.kind@ == "entrada"@,
        r.sale_type@ == "service"@,
    ensures
        month_attendances(rows.push(r)) == month_attendances(rows) + 1,
        month_income(rows.push(r)) == month_income(rows) + r.amount_cents,
        month_commission(rows.push(r)) == month_commission(rows) + r.commission_cents,
        month_expense(rows.push(r)) == month_expense(rows),
{
    assert(rows.push(r).drop_last() =~= rows);
    reveal_strlit("entrada");
    reveal_strlit("despesa");
    assert("entrada"@[0] != "despesa"@[0]);
}

/// What an entry leaves in the business's result: an income its amount less its
/// commission, an expense minus its amount.
pub open spec fn net_part(r: CashRow) -> int {
    if is_income(r) {
        r.amount_cents - r.commission_cents
    } else if is_expense(r) {
        -r.amount_cents
    } else {
        0
    }
}

pub open spec fn net_fn() -> spec_fn(CashRow) -> int {
    |r: CashRow| net_part(r)
}

/// Commissions come out of the result: a month's balance (income less expenses less
/// commissions) is the sum of what each entry leaves, its amount less its commission for an
/// income, minus its amount for an expense.
pub proof fn lemma_balance_is_sum_of_nets(rows: Seq<CashRow>)
    ensures
        month_income(rows) - month_expense(rows) - month_commission(rows) == sum_by(
            rows,
            net_fn(),
        ),
    decreases rows.len(),
{
    if rows.len() > 0 {
        lemma_balance_is_sum_of_nets(rows.drop_last());
        let r = rows.last();
        reveal_strlit("entrada");
        reveal_strlit("despesa");
        assert("entrada"@[0] != "despesa"@[0]);
        assert(is_income(r) ==> !is_expense(r));
    }
}


/// A month's attendances are the number of its entries that are incomes ("entrada") of a
/// service ("service"); no other entry counts.
pub proof fn lemma_attendances_count_service_incomes(rows: Seq<CashRow>)
    ensures
        month_attendances(rows) == rows.filter(
            |r: CashRow| r.kind@ == "entrada"@ && r.sale_type@ == "service"@,
        ).len(),
    decreases rows.len(),
{
    reveal_with_fuel(Seq::<_>::filter, 1);
    if rows.len() > 0 {
        lemma_attendances_count_service_incomes(rows.drop_last());
    }
}

/// Adding an entry that is not an income of a service (an expense, a product sale, a tip)
/// leaves the month's attendances as they were.
pub proof fn lemma_other_entry_is_no_attendance(rows: Seq<CashRow>, r: CashRow)
    requires
        !(r.kind@ == "entrada"@ && r.sale_type@ == "service"@),
    ensures
        month_attendances(rows.push(r)) == month_attendances(rows),
{
    assert(rows.push(r).drop_last() =~= rows);
}

} // verus!
