//! Appointment rules: accepted statuses, who the client and collaborator are, and the one
//! cash entry that finishing an appointment records.
use vstd::prelude::*;
use crate::schedule::fits_i64;
use crate::text::{digits_only, is_blank, normalize_phone, push_str, spec_is_blank, spec_trim, str_eq, trim};

verus! {

/// The statuses an appointment can take.
pub open spec fn known_status(s: Seq<char>) -> bool {
    s == "Pendente"@ || s == "Confirmado"@ || s == "Finalizado"@ || s == "Cancelado"@
}

/// A status update must name one of the four statuses.
pub fn check_status(status: &str) -> (r: Result<(), String>)
    ensures
        r is Ok <==> known_status(status@),
        r matches Err(e) ==> e@ == "Status inválido."@,
{
    if !(str_eq(status, "Pendente") || str_eq(status, "Confirmado") || str_eq(status, "Finalizado")
        || str_eq(status, "Cancelado")) {
        return Err("Status inválido.".to_string());
    }
    Ok(())
}

/// A finished or cancelled appointment is no longer edited in place.
pub fn check_editable(status: &str) -> (r: Result<(), String>)
    ensures
        r is Ok <==> !(status@ == "Finalizado"@ || status@ == "Cancelado"@),
        r matches Err(e) ==> e@ == "Atendimento finalizado/cancelado não pode ser alterado diretamente. Exclua/corrija o lançamento ou faça um novo agendamento."@,
{
    if str_eq(status, "Finalizado") || str_eq(status, "Cancelado") {
        return Err(
            "Atendimento finalizado/cancelado não pode ser alterado diretamente. Exclua/corrija o lançamento ou faça um novo agendamento.".to_string(),
        );
    }
    Ok(())
}

/// The client of an appointment: a name that is not blank (kept trimmed) and the phone's
/// digits.
pub fn appointment_client(client_name: &str, phone: &str) -> (r: Result<(String, String), String>)
    ensures
        spec_is_blank(client_name@) ==> (r matches Err(e) && e@ == "Informe o cliente."@),
        !spec_is_blank(client_name@) ==> (r matches Ok((n, p)) && n@ == spec_trim(client_name@)
            && p@ == digits_only(phone@)),
{
    let name = trim(client_name);
    if name.as_str().is_empty() {
        return Err("Informe o cliente.".to_string());
    }
    Ok((name, normalize_phone(phone)))
}

/// The collaborator label of an appointment: the active collaborator's name, a fixed label
/// when none is chosen, and a refusal when the chosen one is not active.
pub fn staff_label(staff_id: Option<i64>, found_name: Option<String>) -> (r: Result<String, String>)
    ensures
        staff_id is None ==> (r matches Ok(n) && n@ == "Sem colaborador definido"@),
        staff_id is Some && found_name is None ==> (r matches Err(e) && e@
            == "Colaborador indisponível"@),
        staff_id is Some && found_name is Some ==> r == Ok::<String, String>(found_name->0),
{
    match staff_id {
        None => Ok("Sem colaborador definido".to_string()),
        Some(_) => match found_name {
            Some(n) => Ok(n),
            None => Err("Colaborador indisponível".to_string()),
        },
    }
}

/// `staff_identity`: the name and the default service and product commission percents of
/// the collaborator of an entry; empty and zero without one; a refusal when the chosen one
/// is not found among the active ones.
pub fn staff_identity(staff_id: Option<i64>, found: Option<(String, i64, i64)>) -> (r: Result<
    (String, i64, i64),
    String,
>)
    ensures
        staff_id is None ==> (r matches Ok((n, a, b)) && n@.len() == 0 && a == 0 && b == 0),
        staff_id is Some && found is None ==> (r matches Err(e) && e@
            == "Colaborador não encontrado ou inativo."@),
        staff_id is Some && found is Some ==> r == Ok::<(String, i64, i64), String>(found->0),
{
    match staff_id {
        None => Ok((String::new(), 0, 0)),
        Some(_) => match found {
            Some(f) => Ok(f),
            None => Err("Colaborador não encontrado ou inativo.".to_string()),
        },
    }
}

/// The cash entry that finishing an appointment records.
pub struct FinishEntry {
    pub description: String,
    pub amount_cents: i64,
    pub net_cents: i64,
}

/// Whether a status update records a cash entry: it finishes an appointment that has no
/// cash entry yet, with a payment method that is not blank.
pub open spec fn records_entry(status: Seq<char>, linked: bool, payment: Seq<char>) -> bool {
    status == "Finalizado"@ && !linked && !spec_is_blank(payment)
}

/// The cash entry of a status update, if it records one. Finishing an appointment that has
/// no cash entry yet needs a payment method; its entry is labelled
/// "{services} — {client}", for the appointment's total, less the commission.
pub fn finish_entry(
    status: &str,
    cash_transaction_id: Option<i64>,
    payment: &str,
    service_names: &str,
    client_name: &str,
    total_cents: i64,
    commission_cents: i64,
) -> (r: Result<Option<FinishEntry>, String>)
    requires
        status@ == "Finalizado"@ && cash_transaction_id is None && !spec_is_blank(payment@)
            ==> fits_i64(total_cents - commission_cents),
    ensures
        !(status@ == "Finalizado"@ && cash_transaction_id is None) ==> r matches Ok(None),
        status@ == "Finalizado"@ && cash_transaction_id is None && spec_is_blank(payment@) ==> (r matches Err(e)
            && e@ == "Informe a forma de pagamento."@),
        r matches Ok(Some(_)) <==> records_entry(status@, cash_transaction_id is Some, payment@),
        r matches Ok(Some(c)) ==> c.description@ == service_names@ + " — "@ + client_name@
            && c.amount_cents == total_cents && c.net_cents == total_cents - commission_cents,
{
    if str_eq(status, "Finalizado") && cash_transaction_id.is_none() {
        if is_blank(payment) {
            return Err("Informe a forma de pagamento.".to_string());
        }
        let mut d = String::new();
        push_str(&mut d, service_names);
        push_str(&mut d, " — ");
        push_str(&mut d, client_name);
        assert(d@ =~= service_names@ + " — "@ + client_name@);
        return Ok(
            Some(
                FinishEntry {
                    description: d,
                    amount_cents: total_cents,
                    net_cents: total_cents - commission_cents,
                },
            ),
        );
    }
    Ok(None)
}

/// How many cash entries a run of status updates (status, payment method) records for one
/// appointment, starting linked to an entry or not. An update that records an entry links
/// the appointment to it.
pub open spec fn entries_recorded(updates: Seq<(Seq<char>, Seq<char>)>, linked: bool) -> int
    decreases updates.len(),
{
    if updates.len() == 0 {
        0
    } else {
        let (status, payment) = updates[0];
        if records_entry(status, linked, payment) {
            1 + entries_recorded(updates.drop_first(), true)
        } else {
            entries_recorded(updates.drop_first(), linked)
        }
    }
}

/// Finishing an appointment records at most one cash entry, whatever updates follow; none
/// at all once it is linked to an entry.
pub proof fn lemma_at_most_one_entry(updates: Seq<(Seq<char>, Seq<char>)>, linked: bool)
    ensures
        0 <= entries_recorded(updates, linked) <= 1,
        linked ==> entries_recorded(updates, linked) == 0,
    decreases updates.len(),
{
    if updates.len() > 0 {
        lemma_at_most_one_entry(updates.drop_first(), true);
        lemma_at_most_one_entry(updates.drop_first(), linked);
    }
}

} // verus!
