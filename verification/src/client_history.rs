//! A client's visit history, summary and the clients to win back.
use vstd::prelude::*;

verus! {

/// One income of a client's history.
pub struct ClientHistoryItem {
    pub id: i64,
    pub date: String,
    pub description: String,
    pub amount_cents: i64,
    pub sale_type: String,
    pub staff_name: String,
    pub payment_method: String,
}

/// A client with the count of their entries, what they spent and their last visit.
pub struct ClientSummary {
    pub client_id: i64,
    pub client_name: String,
    pub phone: String,
    pub birth_date: String,
    pub visits: i64,
    pub total_spent_cents: i64,
    pub last_visit: String,
}

/// A client who has not come back for a while.
pub struct RemarketingClient {
    pub client_id: i64,
    pub client_name: String,
    pub phone: String,
    pub last_visit: String,
    pub days_without_visit: i64,
    pub total_spent_cents: i64,
}

/// The period of the inactive-client list is at least one day.
pub fn check_minimum_days(minimum_days: i64) -> (r: Result<(), String>)
    ensures
        r is Ok <==> minimum_days >= 1,
        r matches Err(e) ==> e@ == "O período mínimo deve ser de pelo menos um dia."@,
{
    if minimum_days < 1 {
        return Err("O período mínimo deve ser de pelo menos um dia.".to_string());
    }
    Ok(())
}

} // verus!
