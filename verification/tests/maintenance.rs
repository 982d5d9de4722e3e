use barbershop::maintenance::{
    backup_file_name, diagnose, overall_status, repair_action, repair_result, repair_sql,
    sql_escape, support_report_text, vacuum_into_sql, DiagnosisFacts, MaintenanceCheck,
    RepairAction,
};

fn facts() -> DiagnosisFacts {
    DiagnosisFacts {
        integrity: "ok".to_string(),
        quick_check: "ok".to_string(),
        foreign_key_issues: 0,
        negative_stock: 0,
        inconsistent_cash: 0,
        orphan_links: 0,
        invalid_commissions: 0,
        schema_version: 6,
        database_exists: true,
        database_path: "C:/dados/barbershop.db".to_string(),
    }
}

#[test]
fn a_healthy_database() {
    let d = diagnose(facts());
    assert_eq!(d.overall_status, "ok");
    assert_eq!(d.checks.len(), 9);
    assert!(d.checks.iter().all(|c| c.status == "ok"));
    assert_eq!(d.checks[7].detail, "Schema local v6.");
    assert_eq!(d.checks[2].detail, "Nenhuma referência quebrada.");
    assert_eq!(d.checks[8].detail, "C:/dados/barbershop.db");
    assert!(d.checks[1].repairable);
    assert_eq!(d.recommended_actions, vec!["Nenhuma correção necessária agora.".to_string()]);
}

#[test]
fn broken_references_are_an_error() {
    let mut f = facts();
    f.foreign_key_issues = 2;
    f.invalid_commissions = 1;
    let d = diagnose(f);
    assert_eq!(d.overall_status, "error");
    assert_eq!(d.checks[2].status, "error");
    assert_eq!(d.checks[2].detail, "2 referência(s) quebrada(s).");
    assert!(d.checks[2].repairable);
    assert_eq!(d.checks[6].status, "warning");
    assert_eq!(d.checks[6].detail, "1 regra(s) fora do intervalo permitido.");
    assert_eq!(
        d.recommended_actions,
        vec![
            "Executar reparo seguro de referências após criar backup.".to_string(),
            "Limitar regras de comissão ao intervalo de 0% a 100%.".to_string(),
        ]
    );
}

#[test]
fn warnings_only() {
    let mut f = facts();
    f.quick_check = "row 3 missing".to_string();
    f.orphan_links = 4;
    let d = diagnose(f);
    assert_eq!(d.overall_status, "warning");
    assert_eq!(d.checks[5].detail, "4 atendimento(s) apontam para lançamento inexistente.");
    assert_eq!(d.recommended_actions, vec!["Nenhuma correção necessária agora.".to_string()]);
}

#[test]
fn damaged_file() {
    let mut f = facts();
    f.integrity = "*** page 4 corrupted".to_string();
    f.database_exists = false;
    let d = diagnose(f);
    assert_eq!(d.overall_status, "error");
    assert_eq!(d.checks[0].status, "error");
    assert_eq!(d.checks[8].status, "error");
    assert_eq!(d.recommended_actions[0], "Restaurar o último backup íntegro antes de continuar usando o sistema.");
}

#[test]
fn overall_status_is_the_worst() {
    let c = |s: &str| MaintenanceCheck { key: "k".into(), label: "l".into(), status: s.into(), detail: "d".into(), repairable: false };
    assert_eq!(overall_status(&vec![]), "ok");
    assert_eq!(overall_status(&vec![c("ok"), c("warning")]), "warning");
    assert_eq!(overall_status(&vec![c("warning"), c("error"), c("ok")]), "error");
}

#[test]
fn repair_actions() {
    assert!(matches!(repair_action("repair_stock"), Ok(RepairAction::RepairStock)));
    assert!(matches!(repair_action("drop_all"), Err(e) if e == "Ação de manutenção desconhecida."));
    assert_eq!(repair_sql(&RepairAction::RepairStock), "UPDATE products SET stock=0 WHERE stock < 0;");
    assert_eq!(repair_sql(&repair_action("checkpoint").unwrap()), "PRAGMA wal_checkpoint(TRUNCATE);");
    let r = repair_result("vacuum", "/b/pre-repair-1.db".to_string());
    assert!(r.success);
    assert_eq!(r.action, "vacuum");
    assert_eq!(r.safety_backup, "/b/pre-repair-1.db");
}

#[test]
fn paths_are_escaped_for_sql() {
    assert_eq!(sql_escape("C:/it's/back'up.db"), "C:/it''s/back''up.db");
    assert_eq!(vacuum_into_sql("/tmp/o'hara.db"), "VACUUM INTO '/tmp/o''hara.db';");
    assert_eq!(backup_file_name("pre-repair", "20240105-101500"), "pre-repair-20240105-101500.db");
}

#[test]
fn the_support_report_lists_checks_and_actions() {
    let mut f = facts();
    f.negative_stock = 1;
    let d = diagnose(f);
    let t = support_report_text("05/01/2024 10:15:00", "portable", "C:/db", &d);
    assert!(t.starts_with("GESTAO DA BARBEARIA - RELATORIO DE DIAGNOSTICO\nData: 05/01/2024 10:15:00\nModo: portable\nBanco: C:/db\nStatus geral: error\n\n"));
    assert!(t.contains("[OK] Integridade SQLite - ok\n"));
    assert!(t.contains("[ERROR] Estoque - 1 produto(s) com estoque negativo.\n"));
    assert!(t.ends_with("\nAções recomendadas:\n- Corrigir estoque negativo para zero e registrar a ocorrência no log.\n"));
}
