//! Maintenance: the diagnosis of the local database, the safe repairs it offers, and the
//! support report written from a diagnosis.
use vstd::prelude::*;
use crate::text::{chars_of, decimal, push_char, push_str, spec_decimal, str_eq};

verus! {

/// One line of a diagnosis.
pub struct MaintenanceCheck {
    pub key: String,
    pub label: String,
    pub status: String,
    pub detail: String,
    pub repairable: bool,
}

/// A diagnosis: the overall status, each check, and what to do about it.
pub struct MaintenanceDiagnosis {
    pub overall_status: String,
    pub checks: Vec<MaintenanceCheck>,
    pub recommended_actions: Vec<String>,
}

/// The outcome of a safe repair.
pub struct RepairResult {
    pub action: String,
    pub success: bool,
    pub message: String,
    pub safety_backup: String,
}

/// What the database reports about itself, read before a diagnosis is put together.
pub struct DiagnosisFacts {
    pub integrity: String,
    pub quick_check: String,
    pub foreign_key_issues: i64,
    pub negative_stock: i64,
    pub inconsistent_cash: i64,
    pub orphan_links: i64,
    pub invalid_commissions: i64,
    pub schema_version: i64,
    pub database_exists: bool,
    pub database_path: String,
}

/// `c` has these key, label, status, detail and repairability.
pub open spec fn check_is(
    c: MaintenanceCheck,
    key: Seq<char>,
    label: Seq<char>,
    status: Seq<char>,
    detail: Seq<char>,
    repairable: bool,
) -> bool {
    &&& c.key@ == key
    &&& c.label@ == label
    &&& c.status@ == status
    &&& c.detail@ == detail
    &&& c.repairable == repairable
}

/// "ok" when `good`, `bad` otherwise.
pub open spec fn ok_or(good: bool, bad: Seq<char>) -> Seq<char> {
    if good {
        "ok"@
    } else {
        bad
    }
}

/// The detail of a counting check: a fixed text when nothing was found, the count followed
/// by `suffix` otherwise.
pub open spec fn count_detail(n: int, none: Seq<char>, suffix: Seq<char>) -> Seq<char> {
    if n == 0 {
        none
    } else {
        spec_decimal(n) + suffix
    }
}

/// The nine checks of a diagnosis, in order.
pub open spec fn expected_check(f: DiagnosisFacts, i: int, c: MaintenanceCheck) -> bool {
    if i == 0 {
        check_is(c, "integrity"@, "Integridade SQLite"@, ok_or(f.integrity@ == "ok"@, "error"@), f.integrity@, f.integrity@ != "ok"@)
    } else if i == 1 {
        check_is(c, "quick_check"@, "Verificação rápida"@, ok_or(f.quick_check@ == "ok"@, "warning"@), f.quick_check@, true)
    } else if i == 2 {
        check_is(c, "foreign_keys"@, "Relacionamentos do banco"@, ok_or(f.foreign_key_issues == 0, "error"@), count_detail(f.foreign_key_issues as int, "Nenhuma referência quebrada."@, " referência(s) quebrada(s)."@), f.foreign_key_issues > 0)
    } else if i == 3 {
        check_is(c, "stock"@, "Estoque"@, ok_or(f.negative_stock == 0, "error"@), count_detail(f.negative_stock as int, "Nenhum estoque negativo."@, " produto(s) com estoque negativo."@), f.negative_stock > 0)
    } else if i == 4 {
        check_is(c, "cash"@, "Consistência do Caixa"@, ok_or(f.inconsistent_cash == 0, "warning"@), count_detail(f.inconsistent_cash as int, "Valores bruto, comissão e líquido consistentes."@, " lançamento(s) precisam de revisão/reparo."@), f.inconsistent_cash > 0)
    } else if i == 5 {
        check_is(c, "appointments"@, "Agenda x Caixa"@, ok_or(f.orphan_links == 0, "warning"@), count_detail(f.orphan_links as int, "Vínculos entre atendimentos e Caixa íntegros."@, " atendimento(s) apontam para lançamento inexistente."@), f.orphan_links > 0)
    } else if i == 6 {
        check_is(c, "commissions"@, "Regras de comissão"@, ok_or(f.invalid_commissions == 0, "warning"@), count_detail(f.invalid_commissions as int, "Percentuais dentro de 0% a 100%."@, " regra(s) fora do intervalo permitido."@), f.invalid_commissions > 0)
    } else if i == 7 {
        check_is(c, "schema"@, "Versão do banco"@, "ok"@, "Schema local v"@ + spec_decimal(f.schema_version as int) + "."@, false)
    } else {
        check_is(c, "database_file"@, "Arquivo de dados"@, ok_or(f.database_exists, "error"@), f.database_path@, false)
    }
}

/// The overall status of a list of checks: "error" if any check is an error, otherwise
/// "warning" if any is a warning, otherwise "ok".
pub open spec fn overall_of(checks: Seq<MaintenanceCheck>) -> Seq<char> {
    if exists|i: int| 0 <= i < checks.len() && (#[trigger] checks[i]).status@ == "error"@ {
        "error"@
    } else if exists|i: int| 0 <= i < checks.len() && (#[trigger] checks[i]).status@ == "warning"@ {
        "warning"@
    } else {
        "ok"@
    }
}

pub open spec fn action_if(cond: bool, text: Seq<char>) -> Seq<Seq<char>> {
    if cond {
        seq![text]
    } else {
        Seq::empty()
    }
}

/// The recommended actions of a diagnosis, in order; a reassuring line when none applies.
pub open spec fn recommended(f: DiagnosisFacts) -> Seq<Seq<char>> {
    let all = action_if(f.integrity@ != "ok"@, "Restaurar o último backup íntegro antes de continuar usando o sistema."@)
        + action_if(f.foreign_key_issues > 0, "Executar reparo seguro de referências após criar backup."@)
        + action_if(f.inconsistent_cash > 0, "Recalcular campos derivados do Caixa sem alterar o valor bruto histórico."@)
        + action_if(f.negative_stock > 0, "Corrigir estoque negativo para zero e registrar a ocorrência no log."@)
        + action_if(f.invalid_commissions > 0, "Limitar regras de comissão ao intervalo de 0% a 100%."@);
    if all.len() == 0 {
        seq!["Nenhuma correção necessária agora."@]
    } else {
        all
    }
}

/// The overall status that the facts read from the database lead to.
pub open spec fn overall_from_facts(f: DiagnosisFacts) -> Seq<char> {
    if f.integrity@ != "ok"@ || f.foreign_key_issues != 0 || f.negative_stock != 0
        || !f.database_exists {
        "error"@
    } else if f.quick_check@ != "ok"@ || f.inconsistent_cash != 0 || f.orphan_links != 0
        || f.invalid_commissions != 0 {
        "warning"@
    } else {
        "ok"@
    }
}

/// A diagnosis is an error exactly when the integrity check fails, a reference is broken,
/// a stock is negative or the data file is missing; otherwise a warning exactly when the
/// quick check fails, cash entries are inconsistent, appointments point to missing entries
/// or a commission rule is out of range; otherwise ok.
pub proof fn lemma_overall_from_facts(f: DiagnosisFacts, checks: Seq<MaintenanceCheck>)
    requires
        checks.len() == 9,
        forall|i: int| 0 <= i < 9 ==> expected_check(f, i, #[trigger] checks[i]),
    ensures
        overall_of(checks) == overall_from_facts(f),
{
    reveal_strlit("ok");
    reveal_strlit("error");
    reveal_strlit("warning");
    assert("ok"@ != "error"@ && "ok"@ != "warning"@ && "error"@ != "warning"@) by {
        assert("ok"@.len() != "error"@.len());
        assert("ok"@.len() != "warning"@.len());
        assert("error"@.len() != "warning"@.len());
    }
    assert(expected_check(f, 0, checks[0]));
    assert(expected_check(f, 1, checks[1]));
    assert(expected_check(f, 2, checks[2]));
    assert(expected_check(f, 3, checks[3]));
    assert(expected_check(f, 4, checks[4]));
    assert(expected_check(f, 5, checks[5]));
    assert(expected_check(f, 6, checks[6]));
    assert(expected_check(f, 7, checks[7]));
    assert(expected_check(f, 8, checks[8]));
}

/// Each problem that has a fix is met by its recommended action: a failed integrity check
/// by restoring the last sound backup, broken references by the reference repair,
/// inconsistent cash entries by recomputing their derived fields, negative stock by the
/// stock repair, and commission rules out of range by bringing them into range. The line
/// that nothing needs fixing appears exactly when none of these problems is found, and it
/// is then the only line. (A failed quick check and appointments pointing to a missing cash
/// entry are reported as warnings, with no action of their own.)
pub proof fn lemma_problems_get_their_actions(f: DiagnosisFacts)
    ensures
        f.integrity@ != "ok"@ ==> recommended(f).contains(
            "Restaurar o último backup íntegro antes de continuar usando o sistema."@,
        ),
        f.foreign_key_issues > 0 ==> recommended(f).contains(
            "Executar reparo seguro de referências após criar backup."@,
        ),
        f.inconsistent_cash > 0 ==> recommended(f).contains(
            "Recalcular campos derivados do Caixa sem alterar o valor bruto histórico."@,
        ),
        f.negative_stock > 0 ==> recommended(f).contains(
            "Corrigir estoque negativo para zero e registrar a ocorrência no log."@,
        ),
        f.invalid_commissions > 0 ==> recommended(f).contains(
            "Limitar regras de comissão ao intervalo de 0% a 100%."@,
        ),
        recommended(f).contains("Nenhuma correção necessária agora."@) <==> (f.integrity@ == "ok"@
            && f.foreign_key_issues <= 0 && f.inconsistent_cash <= 0 && f.negative_stock <= 0
            && f.invalid_commissions <= 0),
        recommended(f).contains("Nenhuma correção necessária agora."@) ==> recommended(f)
            =~= seq!["Nenhuma correção necessária agora."@],
{
    let a1 = action_if(f.integrity@ != "ok"@, "Restaurar o último backup íntegro antes de continuar usando o sistema."@);
    let a2 = action_if(f.foreign_key_issues > 0, "Executar reparo seguro de referências após criar backup."@);
    let a3 = action_if(f.inconsistent_cash > 0, "Recalcular campos derivados do Caixa sem alterar o valor bruto histórico."@);
    let a4 = action_if(f.negative_stock > 0, "Corrigir estoque negativo para zero e registrar a ocorrência no log."@);
    let a5 = action_if(f.invalid_commissions > 0, "Limitar regras de comissão ao intervalo de 0% a 100%."@);
    let all = a1 + a2 + a3 + a4 + a5;
    let none = "Nenhuma correção necessária agora."@;
    reveal_strlit("Nenhuma correção necessária agora.");
    reveal_strlit("Restaurar o último backup íntegro antes de continuar usando o sistema.");
    reveal_strlit("Executar reparo seguro de referências após criar backup.");
    reveal_strlit("Recalcular campos derivados do Caixa sem alterar o valor bruto histórico.");
    reveal_strlit("Corrigir estoque negativo para zero e registrar a ocorrência no log.");
    reveal_strlit("Limitar regras de comissão ao intervalo de 0% a 100%.");
    assert(forall|j: int| 0 <= j < all.len() ==> (#[trigger] all[j])[0] != none[0]) by {
        assert forall|j: int| 0 <= j < all.len() implies (#[trigger] all[j])[0] != none[0] by {
            let l1 = a1.len() as int;
            let l2 = l1 + a2.len();
            let l3 = l2 + a3.len();
            let l4 = l3 + a4.len();
            if j < l1 {
                assert(all[j] == a1[j]);
            } else if j < l2 {
                assert(all[j] == a2[j - l1]);
            } else if j < l3 {
                assert(all[j] == a3[j - l2]);
            } else if j < l4 {
                assert(all[j] == a4[j - l3]);
            } else {
                assert(all[j] == a5[j - l4]);
            }
        }
    }
    if f.integrity@ != "ok"@ {
        assert(all[0] == a1[0]);
    }
    if f.foreign_key_issues > 0 {
        assert(all[a1.len() as int] == a2[0]);
    }
    if f.inconsistent_cash > 0 {
        assert(all[(a1.len() + a2.len()) as int] == a3[0]);
    }
    if f.negative_stock > 0 {
        assert(all[(a1.len() + a2.len() + a3.len()) as int] == a4[0]);
    }
    if f.invalid_commissions > 0 {
        assert(all[(a1.len() + a2.len() + a3.len() + a4.len()) as int] == a5[0]);
    }
    if all.len() > 0 {
        if recommended(f).contains(none) {
            let k = choose|k: int| 0 <= k < all.len() && all[k] == none;
            assert(all[k][0] != none[0]);
        }
    } else {
        assert(recommended(f)[0] == none);
    }
}

fn make_check(key: &str, label: &str, status: &str, detail: String, repairable: bool) -> (c: MaintenanceCheck)
    ensures
        check_is(c, key@, label@, status@, detail@, repairable),
{
    MaintenanceCheck {
        key: key.to_string(),
        label: label.to_string(),
        status: status.to_string(),
        detail,
        repairable,
    }
}

fn status_text(good: bool, bad: &str) -> (r: &str)
    ensures
        r@ == ok_or(good, bad@),
{
    if good {
        "ok"
    } else {
        bad
    }
}

fn count_text(n: i64, none: &str, suffix: &str) -> (r: String)
    ensures
        r@ == count_detail(n as int, none@, suffix@),
{
    if n == 0 {
        none.to_string()
    } else {
        let mut s = decimal(n);
        push_str(&mut s, suffix);
        s
    }
}

/// The overall status of a list of checks.
pub fn overall_status(checks: &Vec<MaintenanceCheck>) -> (r: String)
    ensures
        r@ == overall_of(checks@),
{
    let mut has_error = false;
    let mut has_warning = false;
    let mut i: usize = 0;
    while i < checks.len()
        invariant
            i <= checks@.len(),
            has_error <==> exists|j: int| 0 <= j < i && (#[trigger] checks@[j]).status@ == "error"@,
            has_warning <==> exists|j: int| 0 <= j < i && (#[trigger] checks@[j]).status@ == "warning"@,
        decreases checks@.len() - i,
    {
        if str_eq(checks[i].status.as_str(), "error") {
            has_error = true;
        }
        if str_eq(checks[i].status.as_str(), "warning") {
            has_warning = true;
        }
        i = i + 1;
    }
    if has_error {
        "error".to_string()
    } else if has_warning {
        "warning".to_string()
    } else {
        "ok".to_string()
    }
}

fn push_action(v: &mut Vec<String>, cond: bool, text: &str)
    ensures
        final(v)@.map_values(|s: String| s@) == old(v)@.map_values(|s: String| s@) + action_if(
            cond,
            text@,
        ),
{
    let ghost before = v@.map_values(|s: String| s@);
    if cond {
        v.push(text.to_string());
    }
    assert(v@.map_values(|s: String| s@) =~= before + action_if(cond, text@));
}

/// `diagnose` once the database has been read: the nine checks (integrity, quick check,
/// broken references, negative stock, cash consistency, appointment links, commission
/// rules, schema version, data file), the overall status and the recommended actions.
pub fn diagnose(f: DiagnosisFacts) -> (r: MaintenanceDiagnosis)
    ensures
        r.checks@.len() == 9,
        forall|i: int| 0 <= i < 9 ==> expected_check(f, i, #[trigger] r.checks@[i]),
        r.overall_status@ == overall_of(r.checks@),
        r.recommended_actions@.map_values(|s: String| s@) == recommended(f),
        r.recommended_actions@.len() >= 1,
{
    let integrity_ok = str_eq(f.integrity.as_str(), "ok");
    let quick_ok = str_eq(f.quick_check.as_str(), "ok");
    let mut checks: Vec<MaintenanceCheck> = Vec::new();
    checks.push(make_check("integrity", "Integridade SQLite", status_text(integrity_ok, "error"), f.integrity.clone(), !integrity_ok));
    checks.push(make_check("quick_check", "Verificação rápida", status_text(quick_ok, "warning"), f.quick_check.clone(), true));
    checks.push(make_check("foreign_keys", "Relacionamentos do banco", status_text(f.foreign_key_issues == 0, "error"), count_text(f.foreign_key_issues, "Nenhuma referência quebrada.", " referência(s) quebrada(s)."), f.foreign_key_issues > 0));
    checks.push(make_check("stock", "Estoque", status_text(f.negative_stock == 0, "error"), count_text(f.negative_stock, "Nenhum estoque negativo.", " produto(s) com estoque negativo."), f.negative_stock > 0));
    checks.push(make_check("cash", "Consistência do Caixa", status_text(f.inconsistent_cash == 0, "warning"), count_text(f.inconsistent_cash, "Valores bruto, comissão e líquido consistentes.", " lançamento(s) precisam de revisão/reparo."), f.inconsistent_cash > 0));
    checks.push(make_check("appointments", "Agenda x Caixa", status_text(f.orphan_links == 0, "warning"), count_text(f.orphan_links, "Vínculos entre atendimentos e Caixa íntegros.", " atendimento(s) apontam para lançamento inexistente."), f.orphan_links > 0));
    checks.push(make_check("commissions", "Regras de comissão", status_text(f.invalid_commissions == 0, "warning"), count_text(f.invalid_commissions, "Percentuais dentro de 0% a 100%.", " regra(s) fora do intervalo permitido."), f.invalid_commissions > 0));
    let mut schema = "Schema local v".to_string();
    let v = decimal(f.schema_version);
    push_str(&mut schema, v.as_str());
    push_str(&mut schema, ".");
    checks.push(make_check("schema", "Versão do banco", "ok", schema, false));
    checks.push(make_check("database_file", "Arquivo de dados", status_text(f.database_exists, "error"), f.database_path.clone(), false));
    let overall = overall_status(&checks);
    let mut actions: Vec<String> = Vec::new();
    assert(actions@.map_values(|s: String| s@) =~= Seq::<Seq<char>>::empty());
    push_action(&mut actions, !integrity_ok, "Restaurar o último backup íntegro antes de continuar usando o sistema.");
    push_action(&mut actions, f.foreign_key_issues > 0, "Executar reparo seguro de referências após criar backup.");
    push_action(&mut actions, f.inconsistent_cash > 0, "Recalcular campos derivados do Caixa sem alterar o valor bruto histórico.");
    push_action(&mut actions, f.negative_stock > 0, "Corrigir estoque negativo para zero e registrar a ocorrência no log.");
    push_action(&mut actions, f.invalid_commissions > 0, "Limitar regras de comissão ao intervalo de 0% a 100%.");
    if actions.len() == 0 {
        actions.push("Nenhuma correção necessária agora.".to_string());
        assert(actions@.map_values(|s: String| s@) =~= seq!["Nenhuma correção necessária agora."@]);
    }
    MaintenanceDiagnosis { overall_status: overall, checks, recommended_actions: actions }
}


/// The safe repairs on offer.
pub enum RepairAction {
    Checkpoint,
    Reindex,
    Optimize,
    Vacuum,
    RepairCash,
    RepairStock,
    RepairCommissions,
    RepairAppointmentLinks,
    StandardRepair,
}

/// The repair that an action name asks for.
pub open spec fn spec_repair_action(a: Seq<char>) -> Option<RepairAction> {
    if a == "checkpoint"@ {
        Some(RepairAction::Checkpoint)
    } else if a == "reindex"@ {
        Some(RepairAction::Reindex)
    } else if a == "optimize"@ {
        Some(RepairAction::Optimize)
    } else if a == "vacuum"@ {
        Some(RepairAction::Vacuum)
    } else if a == "repair_cash"@ {
        Some(RepairAction::RepairCash)
    } else if a == "repair_stock"@ {
        Some(RepairAction::RepairStock)
    } else if a == "repair_commissions"@ {
        Some(RepairAction::RepairCommissions)
    } else if a == "repair_appointment_links"@ {
        Some(RepairAction::RepairAppointmentLinks)
    } else if a == "standard_repair"@ {
        Some(RepairAction::StandardRepair)
    } else {
        None
    }
}

/// The repair that an action name asks for; an unknown name is refused.
pub fn repair_action(action: &str) -> (r: Result<RepairAction, String>)
    ensures
        match spec_repair_action(action@) {
            Some(a) => r == Ok::<RepairAction, String>(a),
            None => r matches Err(e) && e@ == "Ação de manutenção desconhecida."@,
        },
{
    if str_eq(action, "checkpoint") {
        Ok(RepairAction::Checkpoint)
    } else if str_eq(action, "reindex") {
        Ok(RepairAction::Reindex)
    } else if str_eq(action, "optimize") {
        Ok(RepairAction::Optimize)
    } else if str_eq(action, "vacuum") {
        Ok(RepairAction::Vacuum)
    } else if str_eq(action, "repair_cash") {
        Ok(RepairAction::RepairCash)
    } else if str_eq(action, "repair_stock") {
        Ok(RepairAction::RepairStock)
    } else if str_eq(action, "repair_commissions") {
        Ok(RepairAction::RepairCommissions)
    } else if str_eq(action, "repair_appointment_links") {
        Ok(RepairAction::RepairAppointmentLinks)
    } else if str_eq(action, "standard_repair") {
        Ok(RepairAction::StandardRepair)
    } else {
        Err("Ação de manutenção desconhecida.".to_string())
    }
}

/// The SQL that a repair runs.
pub open spec fn spec_repair_sql(a: RepairAction) -> Seq<char> {
    match a {
        RepairAction::Checkpoint => "PRAGMA wal_checkpoint(TRUNCATE);"@,
        RepairAction::Reindex => "REINDEX; PRAGMA optimize;"@,
        RepairAction::Optimize => "PRAGMA optimize;"@,
        RepairAction::Vacuum => "VACUUM; PRAGMA optimize;"@,
        RepairAction::RepairCash => "UPDATE cash_transactions SET commission_cents=CASE WHEN commission_cents < 0 THEN 0 WHEN commission_cents > amount_cents THEN amount_cents ELSE commission_cents END; UPDATE cash_transactions SET net_cents=CASE WHEN kind='entrada' THEN amount_cents-commission_cents ELSE -amount_cents END;"@,
        RepairAction::RepairStock => "UPDATE products SET stock=0 WHERE stock < 0;"@,
        RepairAction::RepairCommissions => "UPDATE staff SET commission_percent=MAX(0,MIN(100,commission_percent)), product_commission_percent=MAX(0,MIN(100,product_commission_percent)); UPDATE staff_service_commissions SET commission_percent=MAX(0,MIN(100,commission_percent));"@,
        RepairAction::RepairAppointmentLinks => "UPDATE appointments SET cash_transaction_id=NULL WHERE cash_transaction_id IS NOT NULL AND NOT EXISTS(SELECT 1 FROM cash_transactions c WHERE c.id=appointments.cash_transaction_id);"@,
        RepairAction::StandardRepair => "PRAGMA wal_checkpoint(FULL); REINDEX; UPDATE cash_transactions SET commission_cents=CASE WHEN commission_cents < 0 THEN 0 WHEN commission_cents > amount_cents THEN amount_cents ELSE commission_cents END; UPDATE cash_transactions SET net_cents=CASE WHEN kind='entrada' THEN amount_cents-commission_cents ELSE -amount_cents END; UPDATE products SET stock=0 WHERE stock < 0; UPDATE staff SET commission_percent=MAX(0,MIN(100,commission_percent)), product_commission_percent=MAX(0,MIN(100,product_commission_percent)); UPDATE staff_service_commissions SET commission_percent=MAX(0,MIN(100,commission_percent)); UPDATE appointments SET cash_transaction_id=NULL WHERE cash_transaction_id IS NOT NULL AND NOT EXISTS(SELECT 1 FROM cash_transactions c WHERE c.id=appointments.cash_transaction_id); PRAGMA optimize;"@,
    }
}

/// The SQL that a repair runs.
pub fn repair_sql(a: &RepairAction) -> (r: &'static str)
    ensures
        r@ == spec_repair_sql(*a),
{
    match a {
        RepairAction::Checkpoint => "PRAGMA wal_checkpoint(TRUNCATE);",
        RepairAction::Reindex => "REINDEX; PRAGMA optimize;",
        RepairAction::Optimize => "PRAGMA optimize;",
        RepairAction::Vacuum => "VACUUM; PRAGMA optimize;",
        RepairAction::RepairCash => "UPDATE cash_transactions SET commission_cents=CASE WHEN commission_cents < 0 THEN 0 WHEN commission_cents > amount_cents THEN amount_cents ELSE commission_cents END; UPDATE cash_transactions SET net_cents=CASE WHEN kind='entrada' THEN amount_cents-commission_cents ELSE -amount_cents END;",
        RepairAction::RepairStock => "UPDATE products SET stock=0 WHERE stock < 0;",
        RepairAction::RepairCommissions => "UPDATE staff SET commission_percent=MAX(0,MIN(100,commission_percent)), product_commission_percent=MAX(0,MIN(100,product_commission_percent)); UPDATE staff_service_commissions SET commission_percent=MAX(0,MIN(100,commission_percent));",
        RepairAction::RepairAppointmentLinks => "UPDATE appointments SET cash_transaction_id=NULL WHERE cash_transaction_id IS NOT NULL AND NOT EXISTS(SELECT 1 FROM cash_transactions c WHERE c.id=appointments.cash_transaction_id);",
        RepairAction::StandardRepair => "PRAGMA wal_checkpoint(FULL); REINDEX; UPDATE cash_transactions SET commission_cents=CASE WHEN commission_cents < 0 THEN 0 WHEN commission_cents > amount_cents THEN amount_cents ELSE commission_cents END; UPDATE cash_transactions SET net_cents=CASE WHEN kind='entrada' THEN amount_cents-commission_cents ELSE -amount_cents END; UPDATE products SET stock=0 WHERE stock < 0; UPDATE staff SET commission_percent=MAX(0,MIN(100,commission_percent)), product_commission_percent=MAX(0,MIN(100,product_commission_percent)); UPDATE staff_service_commissions SET commission_percent=MAX(0,MIN(100,commission_percent)); UPDATE appointments SET cash_transaction_id=NULL WHERE cash_transaction_id IS NOT NULL AND NOT EXISTS(SELECT 1 FROM cash_transactions c WHERE c.id=appointments.cash_transaction_id); PRAGMA optimize;",
    }
}

/// The value SQLite gives a column expression of a `cash_transactions` row with these
/// amount and commission, for the expressions that the repairs write.
pub open spec fn sql_value(e: Seq<char>, amount: int, commission: int) -> Option<int> {
    if e == "amount_cents-commission_cents"@ {
        Some(amount - commission)
    } else if e == "-amount_cents"@ {
        Some(-amount)
    } else if e == "amount_cents"@ {
        Some(amount)
    } else if e == "commission_cents"@ {
        Some(commission)
    } else if e == "0"@ {
        Some(0)
    } else {
        None
    }
}

/// `CASE WHEN kind='entrada' THEN {income} ELSE {other} END`.
pub open spec fn kind_case_sql(income: Seq<char>, other: Seq<char>) -> Seq<char> {
    "CASE WHEN kind='entrada' THEN "@ + income + " ELSE "@ + other + " END"@
}

/// The SQL `pre`, then the statement `stmt`, then `post`.
pub open spec fn statements_around(pre: Seq<char>, stmt: Seq<char>, post: Seq<char>) -> Seq<char> {
    pre + stmt + post
}

/// `CASE WHEN commission_cents < 0 THEN {below} WHEN commission_cents > amount_cents THEN
/// {above} ELSE {within} END`.
pub open spec fn commission_case_sql(below: Seq<char>, above: Seq<char>, within: Seq<char>) -> Seq<char> {
    "CASE WHEN commission_cents < 0 THEN "@ + below + " WHEN commission_cents > amount_cents THEN "@
        + above + " ELSE "@ + within + " END"@
}

/// The statements of a repair first bring every commission into `0..=amount` (a negative one
/// becomes 0, one above the amount becomes the amount), then set the net of every cash
/// entry by the rule the cash book records it with: an income's net is its amount less its
/// commission, any other entry's net is minus its amount.
pub open spec fn sets_net_by_rule(sql: Seq<char>) -> bool {
    exists|pre: Seq<char>, below: Seq<char>, above: Seq<char>, within: Seq<char>, income: Seq<char>, other: Seq<char>, post: Seq<char>|
        sql == #[trigger] statements_around(
            pre,
            "UPDATE cash_transactions SET commission_cents="@ + commission_case_sql(below, above, within)
                + "; UPDATE cash_transactions SET net_cents="@ + kind_case_sql(income, other) + ";"@,
            post,
        )
            && (forall|a: int, c: int| #[trigger] sql_value(below, a, c) == Some(0int))
            && (forall|a: int, c: int| #[trigger] sql_value(above, a, c) == Some(a))
            && (forall|a: int, c: int| #[trigger] sql_value(within, a, c) == Some(c))
            && (forall|a: int, c: int| #[trigger] sql_value(income, a, c) == Some(a - c))
            && (forall|a: int, c: int| #[trigger] sql_value(other, a, c) == Some(-a))
}

/// The cash repair, alone or as part of the standard repair, rewrites each entry's net
/// with the cash book's rule: amount less commission for an income, minus the amount for
/// anything else.
pub proof fn lemma_cash_repair_sets_net_by_rule()
    ensures
        sets_net_by_rule(spec_repair_sql(RepairAction::RepairCash)),
        sets_net_by_rule(spec_repair_sql(RepairAction::StandardRepair)),
{
    let income = "amount_cents-commission_cents"@;
    let other = "-amount_cents"@;
    let zero = "0"@;
    let amount = "amount_cents"@;
    let comm = "commission_cents"@;
    reveal_strlit("amount_cents-commission_cents");
    reveal_strlit("-amount_cents");
    reveal_strlit("0");
    reveal_strlit("amount_cents");
    reveal_strlit("commission_cents");
    assert(income[0] != other[0] && zero[0] != income[0] && zero[0] != other[0] && zero.len() != amount.len() && zero.len() != comm.len());
    assert(amount.len() != income.len() && amount[0] != other[0]);
    assert(comm[0] != income[0] && comm[0] != other[0] && comm.len() != amount.len());
    assert forall|a: int, c: int| #[trigger] sql_value(income, a, c) == Some(a - c) by {}
    assert forall|a: int, c: int| #[trigger] sql_value(other, a, c) == Some(-a) by {}
    assert forall|a: int, c: int| #[trigger] sql_value(zero, a, c) == Some(0int) by {}
    assert forall|a: int, c: int| #[trigger] sql_value(amount, a, c) == Some(a) by {}
    assert forall|a: int, c: int| #[trigger] sql_value(comm, a, c) == Some(c) by {}
    reveal_strlit("UPDATE cash_transactions SET commission_cents=");
    reveal_strlit("; UPDATE cash_transactions SET net_cents=");
    reveal_strlit("CASE WHEN commission_cents < 0 THEN ");
    reveal_strlit(" WHEN commission_cents > amount_cents THEN ");
    reveal_strlit("CASE WHEN kind='entrada' THEN ");
    reveal_strlit(" ELSE ");
    reveal_strlit(" END");
    reveal_strlit(";");
    let stmt = "UPDATE cash_transactions SET commission_cents="@ + commission_case_sql(zero, amount, comm)
        + "; UPDATE cash_transactions SET net_cents="@ + kind_case_sql(income, other) + ";"@;
    reveal_strlit("UPDATE cash_transactions SET commission_cents=CASE WHEN commission_cents < 0 THEN 0 WHEN commission_cents > amount_cents THEN amount_cents ELSE commission_cents END; UPDATE cash_transactions SET net_cents=CASE WHEN kind='entrada' THEN amount_cents-commission_cents ELSE -amount_cents END;");
    let e = Seq::<char>::empty();
    assert(spec_repair_sql(RepairAction::RepairCash) =~= statements_around(e, stmt, e));
    let pre2 = "PRAGMA wal_checkpoint(FULL); REINDEX; "@;
    let post2 = " UPDATE products SET stock=0 WHERE stock < 0; UPDATE staff SET commission_percent=MAX(0,MIN(100,commission_percent)), product_commission_percent=MAX(0,MIN(100,product_commission_percent)); UPDATE staff_service_commissions SET commission_percent=MAX(0,MIN(100,commission_percent)); UPDATE appointments SET cash_transaction_id=NULL WHERE cash_transaction_id IS NOT NULL AND NOT EXISTS(SELECT 1 FROM cash_transactions c WHERE c.id=appointments.cash_transaction_id); PRAGMA optimize;"@;
    reveal_strlit("PRAGMA wal_checkpoint(FULL); REINDEX; ");
    reveal_strlit(" UPDATE products SET stock=0 WHERE stock < 0; UPDATE staff SET commission_percent=MAX(0,MIN(100,commission_percent)), product_commission_percent=MAX(0,MIN(100,product_commission_percent)); UPDATE staff_service_commissions SET commission_percent=MAX(0,MIN(100,commission_percent)); UPDATE appointments SET cash_transaction_id=NULL WHERE cash_transaction_id IS NOT NULL AND NOT EXISTS(SELECT 1 FROM cash_transactions c WHERE c.id=appointments.cash_transaction_id); PRAGMA optimize;");
    reveal_strlit("PRAGMA wal_checkpoint(FULL); REINDEX; UPDATE cash_transactions SET commission_cents=CASE WHEN commission_cents < 0 THEN 0 WHEN commission_cents > amount_cents THEN amount_cents ELSE commission_cents END; UPDATE cash_transactions SET net_cents=CASE WHEN kind='entrada' THEN amount_cents-commission_cents ELSE -amount_cents END; UPDATE products SET stock=0 WHERE stock < 0; UPDATE staff SET commission_percent=MAX(0,MIN(100,commission_percent)), product_commission_percent=MAX(0,MIN(100,product_commission_percent)); UPDATE staff_service_commissions SET commission_percent=MAX(0,MIN(100,commission_percent)); UPDATE appointments SET cash_transaction_id=NULL WHERE cash_transaction_id IS NOT NULL AND NOT EXISTS(SELECT 1 FROM cash_transactions c WHERE c.id=appointments.cash_transaction_id); PRAGMA optimize;");
    assert(spec_repair_sql(RepairAction::StandardRepair) =~= statements_around(pre2, stmt, post2));
}

/// The report of a repair that ran: it names the action and the safety backup made before.
pub fn repair_result(action: &str, safety_backup: String) -> (r: RepairResult)
    ensures
        r.action@ == action@,
        r.success,
        r.message@ == "Manutenção concluída. Um backup de segurança foi criado antes da alteração."@,
        r.safety_backup@ == safety_backup@,
{
    RepairResult {
        action: action.to_string(),
        success: true,
        message: "Manutenção concluída. Um backup de segurança foi criado antes da alteração.".to_string(),
        safety_backup,
    }
}

/// How a character is written inside an SQL string literal: a quote is doubled.
pub open spec fn quote_piece(c: char) -> Seq<char> {
    if c == '\'' {
        seq!['\'', '\'']
    } else {
        seq![c]
    }
}

/// `s.replace('\'', "''")`: the text written inside an SQL string literal.
pub open spec fn spec_sql_escape(s: Seq<char>) -> Seq<char>
    decreases s.len(),
{
    if s.len() == 0 {
        Seq::empty()
    } else {
        quote_piece(s[0]) + spec_sql_escape(s.drop_first())
    }
}

/// How SQL reads the inside of a string literal back: a doubled quote is one quote.
pub open spec fn spec_sql_unescape(t: Seq<char>) -> Seq<char>
    decreases t.len(),
{
    if t.len() == 0 {
        Seq::empty()
    } else if t.len() >= 2 && t[0] == '\'' && t[1] == '\'' {
        seq!['\''] + spec_sql_unescape(t.subrange(2, t.len() as int))
    } else {
        seq![t[0]] + spec_sql_unescape(t.drop_first())
    }
}

/// Every quote in `t` is doubled, so `t` cannot end an SQL string literal early.
pub open spec fn quotes_doubled(t: Seq<char>) -> bool
    decreases t.len(),
{
    if t.len() == 0 {
        true
    } else if t[0] == '\'' {
        t.len() >= 2 && t[1] == '\'' && quotes_doubled(t.subrange(2, t.len() as int))
    } else {
        quotes_doubled(t.drop_first())
    }
}

proof fn lemma_escape_concat(a: Seq<char>, b: Seq<char>)
    ensures
        spec_sql_escape(a + b) == spec_sql_escape(a) + spec_sql_escape(b),
    decreases a.len(),
{
    if a.len() == 0 {
        assert(a + b =~= b);
    } else {
        lemma_escape_concat(a.drop_first(), b);
        assert((a + b).drop_first() =~= a.drop_first() + b);
        assert((a + b)[0] == a[0]);
        assert(spec_sql_escape(a + b) =~= quote_piece(a[0]) + spec_sql_escape(a.drop_first() + b));
        assert(spec_sql_escape(a) + spec_sql_escape(b) =~= quote_piece(a[0]) + (spec_sql_escape(
            a.drop_first(),
        ) + spec_sql_escape(b)));
    }
}

/// A path escaped for an SQL string literal reads back as the same path, and holds no quote
/// that could end the literal early.
pub proof fn lemma_sql_escape_roundtrip(s: Seq<char>)
    ensures
        spec_sql_unescape(spec_sql_escape(s)) == s,
        quotes_doubled(spec_sql_escape(s)),
    decreases s.len(),
{
    if s.len() > 0 {
        lemma_sql_escape_roundtrip(s.drop_first());
        let rest = spec_sql_escape(s.drop_first());
        let t = spec_sql_escape(s);
        if s[0] == '\'' {
            assert(t =~= seq!['\'', '\''] + rest);
            assert(t.subrange(2, t.len() as int) =~= rest);
        } else {
            assert(t =~= seq![s[0]] + rest);
            assert(t.drop_first() =~= rest);
        }
        assert(s =~= seq![s[0]] + s.drop_first());
    }
}

/// `path.replace('\'', "''")`: the text of a path written inside an SQL string literal.
pub fn sql_escape(path: &str) -> (r: String)
    ensures
        r@ == spec_sql_escape(path@),
{
    let cs = chars_of(path);
    let mut out = String::new();
    let mut i: usize = 0;
    while i < cs.len()
        invariant
            cs@ == path@,
            i <= cs@.len(),
            out@ == spec_sql_escape(cs@.take(i as int)),
        decreases cs@.len() - i,
    {
        let c = cs[i];
        proof {
            assert(cs@.take(i + 1) =~= cs@.take(i as int) + seq![c]);
            lemma_escape_concat(cs@.take(i as int), seq![c]);
            assert(seq![c].drop_first() =~= Seq::<char>::empty());
            assert(spec_sql_escape(Seq::<char>::empty()) =~= Seq::<char>::empty());
            assert(seq![c][0] == c);
            assert(spec_sql_escape(seq![c]) =~= quote_piece(c) + spec_sql_escape(Seq::<char>::empty()));
        }
        if c == '\'' {
            push_str(&mut out, "''");
            proof {
                reveal_strlit("''");
            }
        } else {
            push_char(&mut out, c);
        }
        i = i + 1;
    }
    assert(cs@.take(cs@.len() as int) =~= cs@);
    out
}

/// `format!("VACUUM INTO '{}';", escaped)`: the statement that copies the database into a
/// backup file at `path`.
pub fn vacuum_into_sql(path: &str) -> (r: String)
    ensures
        r@ == "VACUUM INTO '"@ + spec_sql_escape(path@) + "';"@,
{
    let mut s = "VACUUM INTO '".to_string();
    let e = sql_escape(path);
    push_str(&mut s, e.as_str());
    push_str(&mut s, "';");
    s
}

/// `format!("{}-{}.db", prefix, stamp)`: the file name of a backup.
pub fn backup_file_name(prefix: &str, stamp: &str) -> (r: String)
    ensures
        r@ == prefix@ + "-"@ + stamp@ + ".db"@,
{
    let mut s = prefix.to_string();
    push_str(&mut s, "-");
    push_str(&mut s, stamp);
    push_str(&mut s, ".db");
    s
}


/// What `str::to_uppercase` gives back for `s`.
pub uninterp spec fn uppercase(s: Seq<char>) -> Seq<char>;

/// Calls `str::to_uppercase`. Claimed: the result depends on the text alone (named
/// `uppercase`); the Unicode case mapping itself is not stated.
#[verifier::external_body]
fn to_upper(s: &str) -> (r: String)
    ensures
        r@ == uppercase(s@),
{
    s.to_uppercase()
}

/// One line per check: "[STATUS] label - detail".
pub open spec fn check_lines(checks: Seq<MaintenanceCheck>) -> Seq<char>
    decreases checks.len(),
{
    if checks.len() == 0 {
        Seq::empty()
    } else {
        let c = checks.last();
        check_lines(checks.drop_last()) + "["@ + uppercase(c.status@) + "] "@ + c.label@ + " - "@
            + c.detail@ + "\n"@
    }
}

/// One line per recommended action: "- action".
pub open spec fn action_lines(actions: Seq<Seq<char>>) -> Seq<char>
    decreases actions.len(),
{
    if actions.len() == 0 {
        Seq::empty()
    } else {
        action_lines(actions.drop_last()) + "- "@ + actions.last() + "\n"@
    }
}

/// The text of a support report.
pub open spec fn spec_support_report(
    date_text: Seq<char>,
    storage_mode: Seq<char>,
    database_path: Seq<char>,
    d: MaintenanceDiagnosis,
) -> Seq<char> {
    "GESTAO DA BARBEARIA - RELATORIO DE DIAGNOSTICO\n"@ + "Data: "@ + date_text + "\n"@
        + "Modo: "@ + storage_mode + "\n"@ + "Banco: "@ + database_path + "\n"@
        + "Status geral: "@ + d.overall_status@ + "\n\n"@ + check_lines(d.checks@)
        + "\nAções recomendadas:\n"@ + action_lines(d.recommended_actions@.map_values(|s: String| s@))
}

/// The text of the support report that `write_support_report` saves: a header with the date,
/// storage mode, database and overall status, one line per check, and the recommended
/// actions.
pub fn support_report_text(
    date_text: &str,
    storage_mode: &str,
    database_path: &str,
    d: &MaintenanceDiagnosis,
) -> (r: String)
    ensures
        r@ == spec_support_report(date_text@, storage_mode@, database_path@, *d),
{
    let mut t = String::new();
    push_str(&mut t, "GESTAO DA BARBEARIA - RELATORIO DE DIAGNOSTICO\n");
    push_str(&mut t, "Data: ");
    push_str(&mut t, date_text);
    push_str(&mut t, "\n");
    push_str(&mut t, "Modo: ");
    push_str(&mut t, storage_mode);
    push_str(&mut t, "\n");
    push_str(&mut t, "Banco: ");
    push_str(&mut t, database_path);
    push_str(&mut t, "\n");
    push_str(&mut t, "Status geral: ");
    push_str(&mut t, d.overall_status.as_str());
    push_str(&mut t, "\n\n");
    let ghost head = t@;
    let mut i: usize = 0;
    while i < d.checks.len()
        invariant
            i <= d.checks@.len(),
            t@ == head + check_lines(d.checks@.take(i as int)),
        decreases d.checks@.len() - i,
    {
        let c = &d.checks[i];
        assert(d.checks@.take(i + 1).drop_last() =~= d.checks@.take(i as int));
        assert(d.checks@.take(i + 1).last() == d.checks@[i as int]);
        push_str(&mut t, "[");
        let u = to_upper(c.status.as_str());
        push_str(&mut t, u.as_str());
        push_str(&mut t, "] ");
        push_str(&mut t, c.label.as_str());
        push_str(&mut t, " - ");
        push_str(&mut t, c.detail.as_str());
        push_str(&mut t, "\n");
        assert(t@ =~= head + check_lines(d.checks@.take(i + 1)));
        i = i + 1;
    }
    assert(d.checks@.take(d.checks@.len() as int) =~= d.checks@);
    push_str(&mut t, "\nAções recomendadas:\n");
    let ghost mid = t@;
    let ghost acts = d.recommended_actions@.map_values(|s: String| s@);
    let mut j: usize = 0;
    while j < d.recommended_actions.len()
        invariant
            j <= d.recommended_actions@.len(),
            acts == d.recommended_actions@.map_values(|s: String| s@),
            t@ == mid + action_lines(acts.take(j as int)),
        decreases d.recommended_actions@.len() - j,
    {
        assert(acts.take(j + 1).drop_last() =~= acts.take(j as int));
        assert(acts.take(j + 1).last() == d.recommended_actions@[j as int]@);
        push_str(&mut t, "- ");
        push_str(&mut t, d.recommended_actions[j].as_str());
        push_str(&mut t, "\n");
        assert(t@ =~= mid + action_lines(acts.take(j + 1)));
        j = j + 1;
    }
    assert(acts.take(acts.len() as int) =~= acts);
    assert(t@ =~= spec_support_report(date_text@, storage_mode@, database_path@, *d));
    t
}

} // verus!
