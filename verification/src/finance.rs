//! Cash book rules: commissions, the amounts of a new entry, and the monthly report.
use vstd::prelude::*;
use crate::clock::tdiv;
use crate::dates::{parsed_weekday, valid_date};
use crate::schedule::fits_i64;
use crate::text::{decimal, push_str, spec_decimal, spec_trim, str_eq, trim};

verus! {

/// A percentage brought into the range 0..=100.
pub open spec fn clamp_percent(p: int) -> int {
    if p < 0 {
        0
    } else if p > 100 {
        100
    } else {
        p
    }
}

fn clamp_pct(p: i64) -> (r: i64)
    ensures
        r == clamp_percent(p as int),
{
    if p < 0 {
        0
    } else if p > 100 {
        100
    } else {
        p
    }
}

/// `service_commission_percent`: the collaborator's own rule for the service when there is
/// one, the collaborator's default otherwise, brought into 0..=100.
pub fn service_commission_percent(rule: Option<i64>, default_percent: i64) -> (r: i64)
    ensures
        r == clamp_percent(
            match rule {
                Some(v) => v as int,
                None => default_percent as int,
            },
        ),
        0 <= r <= 100,
{
    match rule {
        Some(v) => clamp_pct(v),
        None => clamp_pct(default_percent),
    }
}

/// A service of an appointment: its price and the collaborator's rule for it, if any.
pub struct CommissionLine {
    pub price_cents: i64,
    pub rule: Option<i64>,
}

pub open spec fn line_percent(l: CommissionLine, default_percent: int) -> int {
    clamp_percent(
        match l.rule {
            Some(v) => v as int,
            None => default_percent,
        },
    )
}

pub open spec fn line_commission(l: CommissionLine, default_percent: int) -> int {
    tdiv(l.price_cents * line_percent(l, default_percent), 100)
}

pub open spec fn gross_of(lines: Seq<CommissionLine>) -> int
    decreases lines.len(),
{
    if lines.len() == 0 {
        0
    } else {
        gross_of(lines.drop_last()) + lines.last().price_cents
    }
}

pub open spec fn commission_of(lines: Seq<CommissionLine>, default_percent: int) -> int
    decreases lines.len(),
{
    if lines.len() == 0 {
        0
    } else {
        commission_of(lines.drop_last(), default_percent) + line_commission(
            lines.last(),
            default_percent,
        )
    }
}

/// The share of the gross that the commission makes, in whole percent within 0..=100
/// (0 when there is no positive gross).
pub open spec fn effective_percent(lines: Seq<CommissionLine>, default_percent: int) -> int {
    let gross = gross_of(lines);
    if gross > 0 {
        clamp_percent(tdiv(commission_of(lines, default_percent) * 100, gross))
    } else {
        0
    }
}

/// Every step of the commission computation stays within `i64`.
pub open spec fn commission_arith_ok(lines: Seq<CommissionLine>, default_percent: int) -> bool {
    &&& forall|k: int|
        0 <= k <= lines.len() ==> fits_i64(#[trigger] gross_of(lines.take(k))) && fits_i64(
            commission_of(lines.take(k), default_percent),
        )
    &&& forall|i: int|
        0 <= i < lines.len() ==> fits_i64(
            (#[trigger] lines[i]).price_cents * line_percent(lines[i], default_percent),
        )
    &&& gross_of(lines) > 0 ==> fits_i64(commission_of(lines, default_percent) * 100)
}

/// `appointment_commission`: the effective percent and the commission of an appointment,
/// each service paying its own rule (or the default) on its price.
pub fn appointment_commission(lines: &Vec<CommissionLine>, default_percent: i64) -> (r: (i64, i64))
    requires
        commission_arith_ok(lines@, default_percent as int),
    ensures
        r.0 == effective_percent(lines@, default_percent as int),
        r.1 == commission_of(lines@, default_percent as int),
{
    let mut gross: i64 = 0;
    let mut commission: i64 = 0;
    let mut i: usize = 0;
    while i < lines.len()
        invariant
            i <= lines@.len(),
            commission_arith_ok(lines@, default_percent as int),
            gross == gross_of(lines@.take(i as int)),
            commission == commission_of(lines@.take(i as int), default_percent as int),
        decreases lines@.len() - i,
    {
        let l = &lines[i];
        assert(lines@.take(i + 1).drop_last() =~= lines@.take(i as int));
        assert(lines@.take(i + 1).last() == lines@[i as int]);
        assert(fits_i64(gross_of(lines@.take(i + 1))));
        assert(fits_i64(lines@[i as int].price_cents * line_percent(lines@[i as int], default_percent as int)));
        let pct = service_commission_percent(l.rule, default_percent);
        gross = gross + l.price_cents;
        commission = commission + l.price_cents * pct / 100;
        i = i + 1;
    }
    assert(lines@.take(lines@.len() as int) =~= lines@);
    let effective = if gross > 0 {
        clamp_pct(commission * 100 / gross)
    } else {
        0
    };
    (effective, commission)
}

/// The part of a new cash entry that is checked before anything is read.
pub struct CashHeader {
    pub is_expense: bool,
    pub description: String,
    pub sale_type: String,
    pub payment_method: String,
}

/// The first checks of a new cash entry: a description that is not blank and a readable
/// date. Any kind other than "despesa" is an income ("entrada"); the payment method
/// defaults to "" and the sale type to "other".
pub fn check_cash_header(
    kind: &str,
    description: &str,
    date: &str,
    payment_method: Option<String>,
    sale_type: Option<String>,
) -> (r: Result<CashHeader, String>)
    ensures
        spec_trim(description@).len() == 0 ==> (r matches Err(e) && e@
            == "Informe a descrição do lançamento."@),
        spec_trim(description@).len() != 0 && parsed_weekday(date@) is None ==> (r matches Err(e)
            && e@ == "Data inválida."@),
        spec_trim(description@).len() != 0 && parsed_weekday(date@) is Some ==> (r matches Ok(h)
            && h.is_expense == (kind@ == "despesa"@) && h.description@ == spec_trim(description@)
            && h.payment_method@ == (match payment_method {
            Some(p) => p@,
            None => Seq::<char>::empty(),
        }) && h.sale_type@ == (match sale_type {
            Some(t) => t@,
            None => "other"@,
        })),
{
    let is_expense = str_eq(kind, "despesa");
    let desc = trim(description);
    if desc.as_str().is_empty() {
        return Err("Informe a descrição do lançamento.".to_string());
    }
    if !valid_date(date) {
        return Err("Data inválida.".to_string());
    }
    let payment = match payment_method {
        Some(p) => p,
        None => String::new(),
    };
    let sale = match sale_type {
        Some(t) => t,
        None => "other".to_string(),
    };
    Ok(CashHeader { is_expense, description: desc, sale_type: sale, payment_method: payment })
}

/// How a new entry is priced.
pub enum SaleBranch {
    Product,
    Service,
    Other,
}

/// Incomes of type "product" sell stock, incomes of type "service" pay service commission,
/// everything else is taken as typed.
pub fn sale_branch(h: &CashHeader) -> (r: SaleBranch)
    ensures
        r is Product <==> (!h.is_expense && h.sale_type@ == "product"@),
        r is Service <==> (!h.is_expense && h.sale_type@ == "service"@),
{
    proof {
        reveal_strlit("product");
        reveal_strlit("service");
        assert("product"@[0] != "service"@[0]);
    }
    if !h.is_expense && str_eq(h.sale_type.as_str(), "product") {
        SaleBranch::Product
    } else if !h.is_expense && str_eq(h.sale_type.as_str(), "service") {
        SaleBranch::Service
    } else {
        SaleBranch::Other
    }
}

/// A stock withdrawal that goes with a product sale.
pub struct StockSale {
    pub product_id: i64,
    pub quantity: i64,
    pub note: String,
}

/// What a new cash entry records.
pub struct CashPlan {
    pub kind: String,
    pub description: String,
    pub amount_cents: i64,
    pub commission_percent: i64,
    pub commission_cents: i64,
    pub net_cents: i64,
    pub stock_sale: Option<StockSale>,
}

/// A product of the catalogue as a sale reads it.
pub struct ProductRow {
    pub name: String,
    pub price_cents: i64,
    pub stock: i64,
}

/// The product and quantity of a product sale: a product must be chosen, and the quantity
/// is at least 1 (1 when none is given).
pub fn product_sale_request(product_id: Option<i64>, quantity: Option<i64>) -> (r: Result<
    (i64, i64),
    String,
>)
    ensures
        product_id is None ==> (r matches Err(e) && e@ == "Selecione o produto vendido."@),
        product_id matches Some(p) ==> (r matches Ok((id, q)) && id == p && q == (match quantity {
            Some(x) => if x < 1 {
                1
            } else {
                x as int
            },
            None => 1,
        })),
{
    let id = match product_id {
        Some(p) => p,
        None => return Err("Selecione o produto vendido.".to_string()),
    };
    let q = match quantity {
        Some(x) => if x < 1 {
            1
        } else {
            x
        },
        None => 1,
    };
    Ok((id, q))
}

/// "Venda de produto — {name} x{quantity}".
pub open spec fn product_sale_text(name: Seq<char>, quantity: int) -> Seq<char> {
    "Venda de produto — "@ + name + " x"@ + spec_decimal(quantity)
}

/// The computation of a product sale stays within `i64`.
pub open spec fn product_sale_ok(p: ProductRow, quantity: int, percent: int) -> bool {
    p.stock >= quantity ==> fits_i64(p.price_cents * quantity) && fits_i64(
        p.price_cents * quantity * percent,
    )
}

/// A product sale: the product must exist and have the quantity in stock; the amount is
/// price times quantity, the commission is the collaborator's product percent (none without
/// a collaborator), and the stock goes down by the quantity.
pub fn plan_product_sale(
    product_id: i64,
    quantity: i64,
    product: Option<ProductRow>,
    has_staff: bool,
    product_default: i64,
) -> (r: Result<CashPlan, String>)
    requires
        product matches Some(p) ==> product_sale_ok(
            p,
            quantity as int,
            if has_staff {
                clamp_percent(product_default as int)
            } else {
                0
            },
        ),
    ensures
        match product {
            None => r matches Err(e) && e@ == "Produto não encontrado."@,
            Some(p) => if p.stock < quantity {
                r matches Err(e) && e@ == "Estoque insuficiente para esta venda."@
            } else {
                r matches Ok(c) && {
                    let pct = if has_staff {
                        clamp_percent(product_default as int)
                    } else {
                        0
                    };
                    let amount = p.price_cents * quantity;
                    let commission = tdiv(amount * pct, 100);
                    &&& c.kind@ == "entrada"@
                    &&& c.description@ == product_sale_text(p.name@, quantity as int)
                    &&& c.amount_cents == amount
                    &&& c.commission_percent == pct
                    &&& c.commission_cents == commission
                    &&& c.net_cents == amount - commission
                    &&& c.stock_sale matches Some(s) && s.product_id == product_id && s.quantity
                        == quantity && s.note@ == "Venda no caixa — "@ + product_sale_text(
                        p.name@,
                        quantity as int,
                    )
                }
            },
        },
{
    let p = match product {
        Some(p) => p,
        None => return Err("Produto não encontrado.".to_string()),
    };
    if p.stock < quantity {
        return Err("Estoque insuficiente para esta venda.".to_string());
    }
    let amount = p.price_cents * quantity;
    let mut desc = String::new();
    push_str(&mut desc, "Venda de produto — ");
    push_str(&mut desc, p.name.as_str());
    push_str(&mut desc, " x");
    let q = decimal(quantity);
    push_str(&mut desc, q.as_str());
    let mut note = String::new();
    push_str(&mut note, "Venda no caixa — ");
    push_str(&mut note, desc.as_str());
    let pct = if has_staff {
        clamp_pct(product_default)
    } else {
        0
    };
    assert(fits_i64(amount * pct));
    let commission = amount * pct / 100;
    assert(fits_i64(amount - commission)) by {
        if amount >= 0 {
            assert(0 <= amount * pct <= amount * 100) by (nonlinear_arith)
                requires
                    amount >= 0,
                    0 <= pct <= 100,
            ;
        } else {
            assert(amount * 100 <= amount * pct <= 0) by (nonlinear_arith)
                requires
                    amount < 0,
                    0 <= pct <= 100,
            ;
        }
    }
    assert(note@ =~= "Venda no caixa — "@ + product_sale_text(p.name@, quantity as int));
    assert(desc@ =~= product_sale_text(p.name@, quantity as int));
    Ok(
        CashPlan {
            kind: "entrada".to_string(),
            description: desc,
            amount_cents: amount,
            commission_percent: pct,
            commission_cents: commission,
            net_cents: amount - commission,
            stock_sale: Some(StockSale { product_id, quantity, note }),
        },
    )
}

proof fn lemma_commission_bounds(amount: int, pct: int)
    requires
        0 <= pct <= 100,
    ensures
        amount >= 0 ==> 0 <= tdiv(amount * pct, 100) <= amount,
        amount < 0 ==> amount <= tdiv(amount * pct, 100) <= 0,
{
    if amount >= 0 {
        assert(0 <= amount * pct <= amount * 100) by (nonlinear_arith)
            requires
                amount >= 0,
                0 <= pct <= 100,
        ;
    } else {
        assert(amount * 100 <= amount * pct <= 0) by (nonlinear_arith)
            requires
                amount < 0,
                0 <= pct <= 100,
        ;
    }
}

/// A service sale: the amount must be positive; with a collaborator, the commission is the
/// collaborator's percent for the service (`service_commission_percent` of `rule` and
/// `service_default`), without one there is none.
pub fn plan_service_sale(
    description: String,
    amount: i64,
    has_staff: bool,
    rule: Option<i64>,
    service_default: i64,
) -> (r: Result<CashPlan, String>)
    requires
        amount > 0 && has_staff ==> fits_i64(
            amount * clamp_percent(
                match rule {
                    Some(v) => v as int,
                    None => service_default as int,
                },
            ),
        ),
    ensures
        amount <= 0 ==> (r matches Err(e) && e@ == "Informe um valor maior que zero."@),
        amount > 0 ==> (r matches Ok(c) && {
            let pct = if has_staff {
                clamp_percent(
                    match rule {
                        Some(v) => v as int,
                        None => service_default as int,
                    },
                )
            } else {
                0
            };
            let commission = tdiv(amount * pct, 100);
            &&& c.kind@ == "entrada"@
            &&& c.description@ == description@
            &&& c.amount_cents == amount
            &&& c.commission_percent == pct
            &&& c.commission_cents == commission
            &&& c.net_cents == amount - commission
            &&& c.stock_sale is None
        }),
{
    if amount <= 0 {
        return Err("Informe um valor maior que zero.".to_string());
    }
    let pct = if has_staff {
        service_commission_percent(rule, service_default)
    } else {
        0
    };
    assert(fits_i64(amount * pct));
    let commission = amount * pct / 100;
    proof {
        lemma_commission_bounds(amount as int, pct as int);
    }
    Ok(
        CashPlan {
            kind: "entrada".to_string(),
            description,
            amount_cents: amount,
            commission_percent: pct,
            commission_cents: commission,
            net_cents: amount - commission,
            stock_sale: None,
        },
    )
}

/// Any other entry: the amount must be positive; an income counts in full, an expense
/// counts negatively, and there is no commission.
pub fn plan_other_entry(is_expense: bool, description: String, amount: i64) -> (r: Result<
    CashPlan,
    String,
>)
    ensures
        amount <= 0 ==> (r matches Err(e) && e@ == "Informe um valor maior que zero."@),
        amount > 0 ==> (r matches Ok(c) && {
            &&& c.kind@ == (if is_expense {
                "despesa"@
            } else {
                "entrada"@
            })
            &&& c.description@ == description@
            &&& c.amount_cents == amount
            &&& c.commission_percent == 0
            &&& c.commission_cents == 0
            &&& c.net_cents == (if is_expense {
                -amount
            } else {
                amount as int
            })
            &&& c.stock_sale is None
        }),
{
    if amount <= 0 {
        return Err("Informe um valor maior que zero.".to_string());
    }
    let kind = if is_expense {
        "despesa".to_string()
    } else {
        "entrada".to_string()
    };
    Ok(
        CashPlan {
            kind,
            description,
            amount_cents: amount,
            commission_percent: 0,
            commission_cents: 0,
            net_cents: if is_expense {
                -amount
            } else {
                amount
            },
            stock_sale: None,
        },
    )
}

} // verus!
