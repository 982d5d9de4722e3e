use barbershop::appointments::{
    appointment_client, check_editable, check_status, finish_entry, staff_identity, staff_label,
};
use barbershop::client_history::check_minimum_days;
use barbershop::records::{
    adjusted_stock, backup_dir, check_adjust_quantity, check_commission_percent, client_input,
    product_input, save_settings, schedule_block_input, service_input, staff_input,
    BusinessSettings,
};

#[test]
fn statuses() {
    for s in ["Pendente", "Confirmado", "Finalizado", "Cancelado"] {
        assert_eq!(check_status(s), Ok(()));
    }
    assert_eq!(check_status("Concluído"), Err("Status inválido.".to_string()));
    assert_eq!(check_editable("Pendente"), Ok(()));
    assert!(check_editable("Finalizado").is_err());
    assert!(check_editable("Cancelado").is_err());
}

#[test]
fn appointment_client_and_staff() {
    assert_eq!(appointment_client("  ", "119"), Err("Informe o cliente.".to_string()));
    assert_eq!(appointment_client(" João ", "(11) 9-8"), Ok(("João".to_string(), "1198".to_string())));
    assert_eq!(staff_label(None, None), Ok("Sem colaborador definido".to_string()));
    assert_eq!(staff_label(Some(2), None), Err("Colaborador indisponível".to_string()));
    assert_eq!(staff_label(Some(2), Some("Rui".to_string())), Ok("Rui".to_string()));
    assert_eq!(staff_identity(None, None), Ok((String::new(), 0, 0)));
    assert_eq!(staff_identity(Some(2), None), Err("Colaborador não encontrado ou inativo.".to_string()));
    assert_eq!(staff_identity(Some(2), Some(("Rui".to_string(), 40, 10))), Ok(("Rui".to_string(), 40, 10)));
}

#[test]
fn finishing_records_one_entry() {
    let e = finish_entry("Finalizado", None, "pix", "Corte + Barba", "Ana", 6500, 2600).unwrap().unwrap();
    assert_eq!(e.description, "Corte + Barba — Ana");
    assert_eq!(e.amount_cents, 6500);
    assert_eq!(e.net_cents, 3900);
    assert!(finish_entry("Finalizado", Some(31), "pix", "Corte", "Ana", 6500, 0).unwrap().is_none());
    assert!(finish_entry("Confirmado", None, "", "Corte", "Ana", 6500, 0).unwrap().is_none());
    assert!(matches!(finish_entry("Finalizado", None, "  ", "Corte", "Ana", 6500, 0), Err(e) if e == "Informe a forma de pagamento."));
}

#[test]
fn a_run_of_updates_records_at_most_one_entry() {
    let mut linked: Option<i64> = None;
    let mut recorded = 0;
    for (status, payment) in [("Confirmado", ""), ("Finalizado", "pix"), ("Finalizado", "dinheiro"), ("Pendente", ""), ("Finalizado", "pix")] {
        if let Ok(Some(_)) = finish_entry(status, linked, payment, "Corte", "Ana", 4000, 0) {
            recorded += 1;
            linked = Some(100 + recorded);
        }
    }
    assert_eq!(recorded, 1);
}

#[test]
fn client_and_service_inputs() {
    assert_eq!(client_input(" ", "11987654321"), Err("Informe o nome do cliente.".to_string()));
    assert_eq!(client_input("Ana", "123-4567"), Err("Informe um telefone válido.".to_string()));
    assert_eq!(client_input(" Ana ", "(11) 9876-5432"), Ok(("Ana".to_string(), "1198765432".to_string())));
    assert_eq!(service_input("", 1000, 30), Err("Informe o nome do serviço.".to_string()));
    assert_eq!(service_input("Corte", 0, 30), Err("Informe um preço maior que zero.".to_string()));
    assert_eq!(service_input("Corte", 1000, 4), Err("A duração mínima é de 5 minutos.".to_string()));
    assert_eq!(service_input(" Corte ", 1000, 5), Ok("Corte".to_string()));
}

#[test]
fn staff_input_defaults_and_clamps() {
    let s = staff_input(" Rui ", None, None, None, None).unwrap();
    assert_eq!((s.name.as_str(), s.phone.as_str(), s.commission_percent, s.product_commission_percent, s.owner), ("Rui", "", 40, 0, false));
    let t = staff_input("Lia", Some("(21) 9".to_string()), Some(130), Some(-4), Some(true)).unwrap();
    assert_eq!((t.phone.as_str(), t.commission_percent, t.product_commission_percent, t.owner), ("219", 100, 0, true));
    assert!(matches!(staff_input("\t", None, None, None, None), Err(e) if e == "Informe o nome do colaborador."));
    assert_eq!(check_commission_percent(101), Err("Percentual inválido.".to_string()));
    assert_eq!(check_commission_percent(0), Ok(()));
}

#[test]
fn products_and_stock() {
    assert_eq!(product_input("", 10, 0), Err("Informe o nome do produto.".to_string()));
    assert_eq!(product_input("Gel", -1, 0), Err("Informe um preço maior que zero.".to_string()));
    assert_eq!(product_input("Gel", 10, -1), Err("Estoque inválido.".to_string()));
    assert_eq!(product_input("Gel", 10, 0), Ok("Gel".to_string()));
    assert_eq!(check_adjust_quantity(0), Err("Informe uma quantidade diferente de zero.".to_string()));
    assert_eq!(adjusted_stock(None, 3), Err("Produto não encontrado.".to_string()));
    assert_eq!(adjusted_stock(Some(2), -3), Err("Estoque insuficiente.".to_string()));
    assert_eq!(adjusted_stock(Some(2), -2), Ok(0));
    assert_eq!(adjusted_stock(Some(2), 5), Ok(7));
}

#[test]
fn schedule_blocks() {
    assert_eq!(schedule_block_input(" ", None), Err("Informe o motivo do bloqueio.".to_string()));
    assert_eq!(schedule_block_input(" Folga ", None), Ok(("Folga".to_string(), "Dia inteiro".to_string())));
    assert_eq!(schedule_block_input("Médico", Some("14:30".to_string())), Ok(("Médico".to_string(), "14:30".to_string())));
    assert_eq!(schedule_block_input("Médico", Some("tarde".to_string())), Err("Horário inválido.".to_string()));
}

fn settings(name: &str, currency: &str, timezone: &str) -> BusinessSettings {
    BusinessSettings {
        business_name: name.to_string(),
        owner_name: " Dono ".to_string(),
        phone: "11".to_string(),
        whatsapp: "".to_string(),
        address: "Rua 1 ".to_string(),
        logo_path: "".to_string(),
        currency: currency.to_string(),
        timezone: timezone.to_string(),
        backup_destination: " ".to_string(),
        configured: false,
    }
}

#[test]
fn business_settings_are_trimmed_with_defaults() {
    assert!(matches!(save_settings(settings("  ", "", "")), Err(e) if e == "Informe o nome da barbearia."));
    let (stored, back) = save_settings(settings(" Barbearia X ", " ", "")).unwrap();
    assert_eq!(stored.business_name, "Barbearia X");
    assert_eq!(stored.owner_name, "Dono");
    assert_eq!(stored.currency, "BRL");
    assert_eq!(stored.timezone, "America/Sao_Paulo");
    assert_eq!(stored.backup_destination, "");
    assert!(stored.configured && back.configured);
    assert_eq!(back.business_name, "Barbearia X");
    assert_eq!(back.owner_name, " Dono ");
    assert_eq!(back.currency, "BRL");
    let (s2, _) = save_settings(settings("X", " USD ", " Europe/Lisbon")).unwrap();
    assert_eq!((s2.currency.as_str(), s2.timezone.as_str()), ("USD", "Europe/Lisbon"));
}

#[test]
fn backup_dir_and_minimum_days() {
    assert_eq!(backup_dir("/dados/backups", "  "), "/dados/backups");
    assert_eq!(backup_dir("/dados/backups", " D:\\copias "), " D:\\copias ");
    assert_eq!(check_minimum_days(0), Err("O período mínimo deve ser de pelo menos um dia.".to_string()));
    assert_eq!(check_minimum_days(30), Ok(()));
}
