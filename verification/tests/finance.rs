use barbershop::finance::{
    appointment_commission, check_cash_header, plan_other_entry, plan_product_sale,
    plan_service_sale, product_sale_request, sale_branch, service_commission_percent,
    CommissionLine, ProductRow, SaleBranch,
};

#[test]
fn commission_percent_is_clamped() {
    assert_eq!(service_commission_percent(Some(150), 40), 100);
    assert_eq!(service_commission_percent(Some(-3), 40), 0);
    assert_eq!(service_commission_percent(Some(25), 40), 25);
    assert_eq!(service_commission_percent(None, 40), 40);
    assert_eq!(service_commission_percent(None, -5), 0);
}

#[test]
fn appointment_commission_pays_each_rule() {
    let lines = vec![
        CommissionLine { price_cents: 5000, rule: Some(50) },
        CommissionLine { price_cents: 3000, rule: None },
    ];
    assert_eq!(appointment_commission(&lines, 40), (46, 3700));
    assert_eq!(appointment_commission(&vec![], 40), (0, 0));
    let odd = vec![CommissionLine { price_cents: 999, rule: Some(33) }];
    assert_eq!(appointment_commission(&odd, 0), (32, 329));
}

#[test]
fn cash_header_checks_description_and_date() {
    assert!(matches!(check_cash_header("entrada", "   ", "2024-05-01", None, None), Err(e) if e == "Informe a descrição do lançamento."));
    assert!(matches!(check_cash_header("entrada", "Corte", "2024-05-32", None, None), Err(e) if e == "Data inválida."));
    let h = check_cash_header("despesa", "  Aluguel ", "2024-05-01", Some("pix".to_string()), None).unwrap();
    assert!(h.is_expense);
    assert_eq!(h.description, "Aluguel");
    assert_eq!(h.sale_type, "other");
    assert_eq!(h.payment_method, "pix");
    let h2 = check_cash_header("qualquer", "Corte", "2024-05-01", None, Some("service".to_string())).unwrap();
    assert!(!h2.is_expense);
    assert!(matches!(sale_branch(&h2), SaleBranch::Service));
    assert!(matches!(sale_branch(&h), SaleBranch::Other));
}

#[test]
fn product_sale_request_defaults() {
    assert_eq!(product_sale_request(None, Some(2)), Err("Selecione o produto vendido.".to_string()));
    assert_eq!(product_sale_request(Some(9), None), Ok((9, 1)));
    assert_eq!(product_sale_request(Some(9), Some(0)), Ok((9, 1)));
    assert_eq!(product_sale_request(Some(9), Some(3)), Ok((9, 3)));
}

#[test]
fn product_sale_prices_and_withdraws_stock() {
    let p = ProductRow { name: "Pomada".to_string(), price_cents: 2500, stock: 3 };
    let c = plan_product_sale(9, 2, Some(p), true, 10).unwrap();
    assert_eq!(c.kind, "entrada");
    assert_eq!(c.description, "Venda de produto — Pomada x2");
    assert_eq!(c.amount_cents, 5000);
    assert_eq!(c.commission_percent, 10);
    assert_eq!(c.commission_cents, 500);
    assert_eq!(c.net_cents, 4500);
    let s = c.stock_sale.unwrap();
    assert_eq!((s.product_id, s.quantity), (9, 2));
    assert_eq!(s.note, "Venda no caixa — Venda de produto — Pomada x2");
}

#[test]
fn product_sale_without_collaborator_pays_no_commission() {
    let p = ProductRow { name: "Gel".to_string(), price_cents: 1999, stock: 10 };
    let c = plan_product_sale(1, 3, Some(p), false, 50).unwrap();
    assert_eq!(c.amount_cents, 5997);
    assert_eq!(c.commission_cents, 0);
    assert_eq!(c.net_cents, 5997);
}

#[test]
fn product_sale_errors() {
    assert!(matches!(plan_product_sale(1, 1, None, false, 0), Err(e) if e == "Produto não encontrado."));
    let p = ProductRow { name: "Gel".to_string(), price_cents: 1999, stock: 1 };
    assert!(matches!(plan_product_sale(1, 2, Some(p), false, 0), Err(e) if e == "Estoque insuficiente para esta venda."));
}

#[test]
fn service_sale_takes_commission_out_of_the_net() {
    let c = plan_service_sale("Corte".to_string(), 4000, true, None, 40).unwrap();
    assert_eq!((c.amount_cents, c.commission_percent, c.commission_cents, c.net_cents), (4000, 40, 1600, 2400));
    let c2 = plan_service_sale("Corte".to_string(), 3333, true, Some(15), 40).unwrap();
    assert_eq!((c2.commission_cents, c2.net_cents), (499, 2834));
    let c3 = plan_service_sale("Corte".to_string(), 4000, false, Some(90), 40).unwrap();
    assert_eq!((c3.commission_percent, c3.net_cents), (0, 4000));
    assert!(matches!(plan_service_sale("Corte".to_string(), 0, true, None, 40), Err(e) if e == "Informe um valor maior que zero."));
}

#[test]
fn other_entries_count_in_full() {
    let e = plan_other_entry(true, "Aluguel".to_string(), 150000).unwrap();
    assert_eq!((e.kind.as_str(), e.net_cents, e.commission_cents), ("despesa", -150000, 0));
    let i = plan_other_entry(false, "Gorjeta".to_string(), 500).unwrap();
    assert_eq!((i.kind.as_str(), i.net_cents), ("entrada", 500));
    assert!(matches!(plan_other_entry(true, "x".to_string(), -1), Err(e) if e == "Informe um valor maior que zero."));
}
