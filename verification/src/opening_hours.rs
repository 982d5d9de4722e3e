//! The weekly opening hours: which weeks can be saved, and the window a day opens for.
use vstd::prelude::*;
use crate::clock::{spec_time_to_minutes, time_arith_fits, time_arith_ok, time_to_minutes};

verus! {

/// The opening hours of one day of the week (0 = Sunday).
pub struct OpeningHour {
    pub day_of_week: i64,
    pub start_time: String,
    pub end_time: String,
    pub enabled: bool,
}

/// Why a day's row cannot be saved, if it cannot.
pub open spec fn hour_row_error(row: OpeningHour) -> Option<Seq<char>> {
    if !(0 <= row.day_of_week <= 6) {
        Some("Dia da semana inválido."@)
    } else if !row.enabled {
        None
    } else {
        match spec_time_to_minutes(row.start_time@) {
            None => Some("Horário inicial inválido."@),
            Some(s) => match spec_time_to_minutes(row.end_time@) {
                None => Some("Horário final inválido."@),
                Some(e) => if e <= s {
                    Some("O horário final deve ser maior que o inicial."@)
                } else {
                    None
                },
            },
        }
    }
}

/// The times of a row that its check reads can be read without leaving `i64`.
pub open spec fn hour_row_safe(row: OpeningHour) -> bool {
    (0 <= row.day_of_week <= 6 && row.enabled) ==> {
        &&& time_arith_ok(row.start_time@)
        &&& (spec_time_to_minutes(row.start_time@) is Some ==> time_arith_ok(row.end_time@))
    }
}

/// Whether the check of a day's row stays within `i64` (see `hour_row_safe`).
pub fn hour_row_fits(row: &OpeningHour) -> (r: bool)
    ensures
        r == hour_row_safe(*row),
{
    if !(0 <= row.day_of_week && row.day_of_week <= 6 && row.enabled) {
        return true;
    }
    if !time_arith_fits(row.start_time.as_str()) {
        return false;
    }
    if time_to_minutes(row.start_time.as_str()).is_some() {
        time_arith_fits(row.end_time.as_str())
    } else {
        true
    }
}

/// The check of one day's row before it is saved.
pub fn check_opening_hour(row: &OpeningHour) -> (r: Result<(), String>)
    requires
        hour_row_safe(*row),
    ensures
        match hour_row_error(*row) {
            Some(m) => r matches Err(e) && e@ == m,
            None => r is Ok,
        },
{
    if !(0 <= row.day_of_week && row.day_of_week <= 6) {
        return Err("Dia da semana inválido.".to_string());
    }
    if row.enabled {
        let start = match time_to_minutes(row.start_time.as_str()) {
            Some(s) => s,
            None => return Err("Horário inicial inválido.".to_string()),
        };
        let end = match time_to_minutes(row.end_time.as_str()) {
            Some(e) => e,
            None => return Err("Horário final inválido.".to_string()),
        };
        if end <= start {
            return Err("O horário final deve ser maior que o inicial.".to_string());
        }
    }
    Ok(())
}

/// The error of the first row, from index `i` on, that cannot be saved.
pub open spec fn first_row_error(rows: Seq<OpeningHour>, i: int) -> Option<Seq<char>>
    decreases rows.len() - i,
{
    if i < 0 || i >= rows.len() {
        None
    } else {
        match hour_row_error(rows[i]) {
            Some(m) => Some(m),
            None => first_row_error(rows, i + 1),
        }
    }
}

/// Why a week cannot be saved, if it cannot: it must hold seven rows, each of them valid.
pub open spec fn week_error(rows: Seq<OpeningHour>) -> Option<Seq<char>> {
    if rows.len() != 7 {
        Some("Informe os sete dias da semana."@)
    } else {
        first_row_error(rows, 0)
    }
}

/// Every row up to the first invalid one can be checked without leaving `i64`.
pub open spec fn week_safe(rows: Seq<OpeningHour>) -> bool {
    forall|i: int| #![trigger rows[i]]
        0 <= i < rows.len() && (forall|j: int| 0 <= j < i ==> #[trigger] hour_row_error(rows[j]) is None)
            ==> hour_row_safe(rows[i])
}

proof fn lemma_first_row_error(rows: Seq<OpeningHour>, i: int)
    requires
        0 <= i <= rows.len(),
    ensures
        first_row_error(rows, i) is None <==> forall|j: int| i <= j < rows.len() ==> #[trigger] hour_row_error(rows[j]) is None,
        first_row_error(rows, i) matches Some(m) ==> exists|j: int| i <= j < rows.len() && hour_row_error(rows[j]) == Some(m) && forall|k: int| i <= k < j ==> #[trigger] hour_row_error(rows[k]) is None,
    decreases rows.len() - i,
{
    if i < rows.len() {
        lemma_first_row_error(rows, i + 1);
        if hour_row_error(rows[i]) is None {
            if let Some(m) = first_row_error(rows, i + 1) {
                let j = choose|j: int| i + 1 <= j < rows.len() && hour_row_error(rows[j]) == Some(m) && forall|k: int| i + 1 <= k < j ==> #[trigger] hour_row_error(rows[k]) is None;
                assert(forall|k: int| i <= k < j ==> #[trigger] hour_row_error(rows[k]) is None);
            }
        }
    }
}

/// The check of a whole week before it is saved: seven rows, each valid; the error of the
/// first invalid row otherwise.
pub fn check_week(rows: &Vec<OpeningHour>) -> (r: Result<(), String>)
    requires
        rows@.len() == 7 ==> week_safe(rows@),
    ensures
        match week_error(rows@) {
            Some(m) => r matches Err(e) && e@ == m,
            None => r is Ok,
        },
{
    if rows.len() != 7 {
        return Err("Informe os sete dias da semana.".to_string());
    }
    let mut i: usize = 0;
    while i < rows.len()
        invariant
            i <= rows@.len(),
            rows@.len() == 7,
            week_safe(rows@),
            forall|j: int| 0 <= j < i ==> #[trigger] hour_row_error(rows@[j]) is None,
            first_row_error(rows@, 0) == first_row_error(rows@, i as int),
        decreases rows@.len() - i,
    {
        assert(hour_row_safe(rows@[i as int]));
        let c = check_opening_hour(&rows[i]);
        if c.is_err() {
            return c;
        }
        i = i + 1;
    }
    Ok(())
}

/// The opening window of a day: `None` when no row is stored for it or the day is closed;
/// its start and end minute otherwise, which must be readable and in order.
pub open spec fn window_of(row: Option<OpeningHour>) -> Result<Option<(int, int)>, Seq<char>> {
    match row {
        None => Ok(None),
        Some(h) => if !h.enabled {
            Ok(None)
        } else {
            match spec_time_to_minutes(h.start_time@) {
                None => Err("Horário inicial configurado é inválido"@),
                Some(s) => match spec_time_to_minutes(h.end_time@) {
                    None => Err("Horário final configurado é inválido"@),
                    Some(e) => if e <= s {
                        Err("Expediente configurado é inválido"@)
                    } else {
                        Ok(Some((s, e)))
                    },
                },
            }
        },
    }
}

/// `operating_window` once the day's row has been read: the day's opening window, if open.
pub fn operating_window(row: Option<&OpeningHour>) -> (r: Result<Option<(i64, i64)>, String>)
    requires
        match row {
            Some(h) => h.enabled ==> {
                &&& time_arith_ok(h.start_time@)
                &&& (spec_time_to_minutes(h.start_time@) is Some ==> time_arith_ok(h.end_time@))
            },
            None => true,
        },
    ensures
        match (r, window_of(
            match row {
                Some(h) => Some(*h),
                None => None,
            },
        )) {
            (Ok(None), Ok(None)) => true,
            (Ok(Some((s, e))), Ok(Some((ws, we)))) => s == ws && e == we,
            (Err(e), Err(m)) => e@ == m,
            _ => false,
        },
{
    let h = match row {
        None => return Ok(None),
        Some(h) => h,
    };
    if !h.enabled {
        return Ok(None);
    }
    let start = match time_to_minutes(h.start_time.as_str()) {
        Some(s) => s,
        None => return Err("Horário inicial configurado é inválido".to_string()),
    };
    let end = match time_to_minutes(h.end_time.as_str()) {
        Some(e) => e,
        None => return Err("Horário final configurado é inválido".to_string()),
    };
    if end <= start {
        return Err("Expediente configurado é inválido".to_string());
    }
    Ok(Some((start, end)))
}

/// A day's row that passed the check before saving always yields an opening window when
/// read back: `None` if the day is closed, a window that opens before it closes otherwise.
pub proof fn lemma_saved_row_has_window(row: OpeningHour)
    requires
        hour_row_error(row) is None,
    ensures
        window_of(Some(row)) matches Ok(w) && (w matches Some((s, e)) ==> s < e),
        window_of(Some(row)) == Ok::<Option<(int, int)>, Seq<char>>(None) <==> !row.enabled,
{
}

/// A week that passed the check holds no day whose stored row would make reading its
/// opening window fail.
pub proof fn lemma_saved_week_has_windows(rows: Seq<OpeningHour>, i: int)
    requires
        week_error(rows) is None,
        0 <= i < rows.len(),
    ensures
        rows.len() == 7,
        window_of(Some(rows[i])) is Ok,
{
    lemma_first_row_error(rows, 0);
    assert(hour_row_error(rows[i]) is None);
}

} // verus!
