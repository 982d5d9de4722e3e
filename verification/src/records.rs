//! Checks of the records that the register forms create: clients, services, collaborators,
//! products, stock adjustments, schedule blocks and the business settings.
use vstd::prelude::*;
use crate::clock::{spec_time_to_minutes, time_arith_ok, time_to_minutes};
use crate::finance::clamp_percent;
use crate::schedule::fits_i64;
use crate::text::{digits_only, normalize_phone, spec_is_blank, spec_trim, str_eq, trim};

verus! {

/// A new client: a name that is not blank (kept trimmed) and a phone of at least eight digits
/// (kept as its digits).
pub fn client_input(name: &str, phone: &str) -> (r: Result<(String, String), String>)
    ensures
        spec_is_blank(name@) ==> (r matches Err(e) && e@ == "Informe o nome do cliente."@),
        !spec_is_blank(name@) && digits_only(phone@).len() < 8 ==> (r matches Err(e) && e@
            == "Informe um telefone válido."@),
        !spec_is_blank(name@) && digits_only(phone@).len() >= 8 ==> (r matches Ok((n, p)) && n@
            == spec_trim(name@) && p@ == digits_only(phone@)),
{
    let n = trim(name);
    let p = normalize_phone(phone);
    if n.as_str().is_empty() {
        return Err("Informe o nome do cliente.".to_string());
    }
    if p.as_str().unicode_len() < 8 {
        return Err("Informe um telefone válido.".to_string());
    }
    Ok((n, p))
}

/// A new service: a name that is not blank, a positive price and at least five minutes.
pub fn service_input(name: &str, price_cents: i64, duration_min: i64) -> (r: Result<String, String>)
    ensures
        spec_is_blank(name@) ==> (r matches Err(e) && e@ == "Informe o nome do serviço."@),
        !spec_is_blank(name@) && price_cents <= 0 ==> (r matches Err(e) && e@
            == "Informe um preço maior que zero."@),
        !spec_is_blank(name@) && price_cents > 0 && duration_min < 5 ==> (r matches Err(e) && e@
            == "A duração mínima é de 5 minutos."@),
        !spec_is_blank(name@) && price_cents > 0 && duration_min >= 5 ==> (r matches Ok(n) && n@
            == spec_trim(name@)),
{
    let n = trim(name);
    if n.as_str().is_empty() {
        return Err("Informe o nome do serviço.".to_string());
    }
    if price_cents <= 0 {
        return Err("Informe um preço maior que zero.".to_string());
    }
    if duration_min < 5 {
        return Err("A duração mínima é de 5 minutos.".to_string());
    }
    Ok(n)
}

/// A new collaborator as it is stored.
pub struct StaffInput {
    pub name: String,
    pub phone: String,
    pub commission_percent: i64,
    pub product_commission_percent: i64,
    pub owner: bool,
}

/// A new collaborator: a name that is not blank; the phone's digits; the service commission
/// (40 when not given) and the product commission (0 when not given) brought into 0..=100;
/// not an owner unless said.
pub fn staff_input(
    name: &str,
    phone: Option<String>,
    commission_percent: Option<i64>,
    product_commission_percent: Option<i64>,
    owner: Option<bool>,
) -> (r: Result<StaffInput, String>)
    ensures
        spec_is_blank(name@) ==> (r matches Err(e) && e@ == "Informe o nome do colaborador."@),
        !spec_is_blank(name@) ==> (r matches Ok(s) && {
            &&& s.name@ == spec_trim(name@)
            &&& s.phone@ == digits_only(
                match phone {
                    Some(p) => p@,
                    None => Seq::<char>::empty(),
                },
            )
            &&& s.commission_percent == clamp_percent(
                match commission_percent {
                    Some(c) => c as int,
                    None => 40,
                },
            )
            &&& s.product_commission_percent == clamp_percent(
                match product_commission_percent {
                    Some(c) => c as int,
                    None => 0,
                },
            )
            &&& s.owner == (match owner {
                Some(o) => o,
                None => false,
            })
        }),
{
    let n = trim(name);
    if n.as_str().is_empty() {
        return Err("Informe o nome do colaborador.".to_string());
    }
    let p = match phone {
        Some(p) => normalize_phone(p.as_str()),
        None => normalize_phone(""),
    };
    proof {
        reveal_strlit("");
    }
    let c = match commission_percent {
        Some(c) => c,
        None => 40,
    };
    let pc = match product_commission_percent {
        Some(c) => c,
        None => 0,
    };
    let c = if c < 0 {
        0
    } else if c > 100 {
        100
    } else {
        c
    };
    let pc = if pc < 0 {
        0
    } else if pc > 100 {
        100
    } else {
        pc
    };
    let o = match owner {
        Some(o) => o,
        None => false,
    };
    Ok(StaffInput { name: n, phone: p, commission_percent: c, product_commission_percent: pc, owner: o })
}

/// A collaborator's own commission rule for a service must lie in 0..=100.
pub fn check_commission_percent(percent: i64) -> (r: Result<(), String>)
    ensures
        r is Ok <==> 0 <= percent <= 100,
        r matches Err(e) ==> e@ == "Percentual inválido."@,
{
    if !(0 <= percent && percent <= 100) {
        return Err("Percentual inválido.".to_string());
    }
    Ok(())
}

/// A new product: a name that is not blank, a positive price and a stock that is not negative.
pub fn product_input(name: &str, price_cents: i64, stock: i64) -> (r: Result<String, String>)
    ensures
        spec_is_blank(name@) ==> (r matches Err(e) && e@ == "Informe o nome do produto."@),
        !spec_is_blank(name@) && price_cents <= 0 ==> (r matches Err(e) && e@
            == "Informe um preço maior que zero."@),
        !spec_is_blank(name@) && price_cents > 0 && stock < 0 ==> (r matches Err(e) && e@
            == "Estoque inválido."@),
        !spec_is_blank(name@) && price_cents > 0 && stock >= 0 ==> (r matches Ok(n) && n@
            == spec_trim(name@)),
{
    let n = trim(name);
    if n.as_str().is_empty() {
        return Err("Informe o nome do produto.".to_string());
    }
    if price_cents <= 0 {
        return Err("Informe um preço maior que zero.".to_string());
    }
    if stock < 0 {
        return Err("Estoque inválido.".to_string());
    }
    Ok(n)
}

/// A stock adjustment must move the stock.
pub fn check_adjust_quantity(quantity: i64) -> (r: Result<(), String>)
    ensures
        r is Ok <==> quantity != 0,
        r matches Err(e) ==> e@ == "Informe uma quantidade diferente de zero."@,
{
    if quantity == 0 {
        return Err("Informe uma quantidade diferente de zero.".to_string());
    }
    Ok(())
}

/// The stock after an adjustment of an active product; the product must exist and the stock
/// may not drop below zero.
pub fn adjusted_stock(current: Option<i64>, quantity: i64) -> (r: Result<i64, String>)
    requires
        current matches Some(c) ==> fits_i64(c + quantity),
    ensures
        match current {
            None => r matches Err(e) && e@ == "Produto não encontrado."@,
            Some(c) => if c + quantity < 0 {
                r matches Err(e) && e@ == "Estoque insuficiente."@
            } else {
                r matches Ok(s) && s == c + quantity
            },
        },
        r matches Ok(s) ==> s >= 0,
{
    let c = match current {
        Some(c) => c,
        None => return Err("Produto não encontrado.".to_string()),
    };
    if c + quantity < 0 {
        return Err("Estoque insuficiente.".to_string());
    }
    Ok(c + quantity)
}

/// A new schedule block: a reason that is not blank (kept trimmed) and a time, which is
/// "Dia inteiro" (the whole day) when not given and otherwise must be a clock time.
pub fn schedule_block_input(reason: &str, time: Option<String>) -> (r: Result<(String, String), String>)
    requires
        !spec_is_blank(reason@) ==> (time matches Some(t) ==> (t@ != "Dia inteiro"@ ==> time_arith_ok(t@))),
    ensures
        spec_is_blank(reason@) ==> (r matches Err(e) && e@ == "Informe o motivo do bloqueio."@),
        !spec_is_blank(reason@) ==> match time {
            None => r matches Ok((rs, t)) && rs@ == spec_trim(reason@) && t@ == "Dia inteiro"@,
            Some(t) => if t@ != "Dia inteiro"@ && spec_time_to_minutes(t@) is None {
                r matches Err(e) && e@ == "Horário inválido."@
            } else {
                r matches Ok((rs, tt)) && rs@ == spec_trim(reason@) && tt@ == t@
            },
        },
{
    let rs = trim(reason);
    if rs.as_str().is_empty() {
        return Err("Informe o motivo do bloqueio.".to_string());
    }
    let t = match time {
        Some(t) => t,
        None => "Dia inteiro".to_string(),
    };
    if !str_eq(t.as_str(), "Dia inteiro") && time_to_minutes(t.as_str()).is_none() {
        return Err("Horário inválido.".to_string());
    }
    Ok((rs, t))
}

/// The business settings.
pub struct BusinessSettings {
    pub business_name: String,
    pub owner_name: String,
    pub phone: String,
    pub whatsapp: String,
    pub address: String,
    pub logo_path: String,
    pub currency: String,
    pub timezone: String,
    pub backup_destination: String,
    pub configured: bool,
}

/// A blank text replaced by a default, any other one trimmed.
pub open spec fn trimmed_or(s: Seq<char>, default: Seq<char>) -> Seq<char> {
    if spec_trim(s).len() == 0 {
        default
    } else {
        spec_trim(s)
    }
}

fn trimmed_or_default(s: &str, default: &str) -> (r: String)
    ensures
        r@ == trimmed_or(s@, default@),
{
    let t = trim(s);
    if t.as_str().is_empty() {
        default.to_string()
    } else {
        t
    }
}

/// Saving the business settings: the business name may not be blank. What is stored has
/// every text trimmed, the currency "BRL" and the time zone "America/Sao_Paulo" when blank,
/// and is marked configured. What is handed back keeps the texts as given, except the
/// business name, currency and time zone, which are the stored ones.
pub fn save_settings(input: BusinessSettings) -> (r: Result<(BusinessSettings, BusinessSettings), String>)
    ensures
        spec_is_blank(input.business_name@) ==> (r matches Err(e) && e@
            == "Informe o nome da barbearia."@),
        !spec_is_blank(input.business_name@) ==> (r matches Ok((stored, back)) && {
            &&& stored.business_name@ == spec_trim(input.business_name@)
            &&& stored.owner_name@ == spec_trim(input.owner_name@)
            &&& stored.phone@ == spec_trim(input.phone@)
            &&& stored.whatsapp@ == spec_trim(input.whatsapp@)
            &&& stored.address@ == spec_trim(input.address@)
            &&& stored.logo_path@ == spec_trim(input.logo_path@)
            &&& stored.currency@ == trimmed_or(input.currency@, "BRL"@)
            &&& stored.timezone@ == trimmed_or(input.timezone@, "America/Sao_Paulo"@)
            &&& stored.backup_destination@ == spec_trim(input.backup_destination@)
            &&& stored.configured
            &&& back.business_name@ == stored.business_name@
            &&& back.owner_name@ == input.owner_name@
            &&& back.phone@ == input.phone@
            &&& back.whatsapp@ == input.whatsapp@
            &&& back.address@ == input.address@
            &&& back.logo_path@ == input.logo_path@
            &&& back.currency@ == stored.currency@
            &&& back.timezone@ == stored.timezone@
            &&& back.backup_destination@ == input.backup_destination@
            &&& back.configured
        }),
{
    let name = trim(input.business_name.as_str());
    if name.as_str().is_empty() {
        return Err("Informe o nome da barbearia.".to_string());
    }
    let currency = trimmed_or_default(input.currency.as_str(), "BRL");
    let timezone = trimmed_or_default(input.timezone.as_str(), "America/Sao_Paulo");
    let stored = BusinessSettings {
        business_name: name.clone(),
        owner_name: trim(input.owner_name.as_str()),
        phone: trim(input.phone.as_str()),
        whatsapp: trim(input.whatsapp.as_str()),
        address: trim(input.address.as_str()),
        logo_path: trim(input.logo_path.as_str()),
        currency: currency.clone(),
        timezone: timezone.clone(),
        backup_destination: trim(input.backup_destination.as_str()),
        configured: true,
    };
    let back = BusinessSettings {
        business_name: name,
        owner_name: input.owner_name,
        phone: input.phone,
        whatsapp: input.whatsapp,
        address: input.address,
        logo_path: input.logo_path,
        currency,
        timezone,
        backup_destination: input.backup_destination,
        configured: true,
    };
    Ok((stored, back))
}

/// `backup_dir`: where backups go, the configured destination unless it is blank, in which
/// case the default folder.
pub fn backup_dir(default_dir: &str, backup_destination: &str) -> (r: String)
    ensures
        r@ == (if spec_is_blank(backup_destination@) {
            default_dir@
        } else {
            backup_destination@
        }),
{
    let t = trim(backup_destination);
    if t.as_str().is_empty() {
        default_dir.to_string()
    } else {
        backup_destination.to_string()
    }
}

} // verus!
