//! The services that make up an appointment: which to look up, their totals and label.
use vstd::prelude::*;
use crate::schedule::fits_i64;
use crate::text::push_str;

verus! {

/// An active service as the catalogue lists it.
pub struct ServiceRow {
    pub id: i64,
    pub name: String,
    pub price_cents: i64,
    pub duration_min: i64,
}

/// The ids to look up for a requested list of services: each positive id once.
/// With no positive id at all, the request is refused.
pub fn services_to_query(ids: &Vec<i64>) -> (r: Result<Vec<i64>, String>)
    ensures
        r is Err <==> (forall|i: int| 0 <= i < ids@.len() ==> #[trigger] ids@[i] <= 0),
        r matches Err(e) ==> e@ == "Escolha pelo menos um serviço."@,
        r matches Ok(u) ==> {
            &&& u@.no_duplicates()
            &&& forall|x: i64| u@.contains(x) <==> (ids@.contains(x) && x > 0)
        },
{
    let mut u: Vec<i64> = Vec::new();
    let mut i: usize = 0;
    while i < ids.len()
        invariant
            i <= ids@.len(),
            u@.no_duplicates(),
            forall|x: i64| u@.contains(x) <==> (ids@.take(i as int).contains(x) && x > 0),
        decreases ids@.len() - i,
    {
        let id = ids[i];
        let mut seen = false;
        let mut k: usize = 0;
        while k < u.len()
            invariant
                k <= u@.len(),
                seen <==> exists|j: int| 0 <= j < k && u@[j] == id,
            decreases u@.len() - k,
        {
            if u[k] == id {
                seen = true;
            }
            k = k + 1;
        }
        let ghost before = u@;
        if id > 0 && !seen {
            u.push(id);
            assert forall|a: int, b: int| 0 <= a < b < u@.len() implies u@[a] != u@[b] by {
                if b == u@.len() - 1 {
                    assert(before[a] == u@[a]);
                }
            }
        }
        proof {
            let prev = ids@.take(i as int);
            let next = ids@.take(i + 1);
            assert(next =~= prev.push(id));
            if seen {
                let j = choose|j: int| 0 <= j < k && before[j] == id;
                assert(before.contains(id));
            }
            assert forall|x: i64| u@.contains(x) <==> (next.contains(x) && x > 0) by {
                assert(next.contains(x) <==> (prev.contains(x) || x == id)) by {
                    if next.contains(x) {
                        let j = choose|j: int| 0 <= j < next.len() && next[j] == x;
                        if j < prev.len() {
                            assert(prev[j] == x);
                        }
                    }
                    if prev.contains(x) {
                        let j = choose|j: int| 0 <= j < prev.len() && prev[j] == x;
                        assert(next[j] == x);
                    }
                    if x == id {
                        assert(next[prev.len() as int] == x);
                    }
                }
                if id > 0 && !seen {
                    assert(u@ == before.push(id));
                    assert(u@.contains(x) <==> (before.contains(x) || x == id)) by {
                        if u@.contains(x) {
                            let j = choose|j: int| 0 <= j < u@.len() && u@[j] == x;
                            if j < before.len() {
                                assert(before[j] == x);
                            }
                        }
                        if before.contains(x) {
                            let j = choose|j: int| 0 <= j < before.len() && before[j] == x;
                            assert(u@[j] == x);
                        }
                        if x == id {
                            assert(u@[before.len() as int] == x);
                        }
                    }
                } else {
                    assert(u@ == before);
                }
            }
        }
        i = i + 1;
    }
    assert(ids@.take(ids@.len() as int) =~= ids@);
    if u.len() == 0 {
        assert forall|i: int| 0 <= i < ids@.len() implies #[trigger] ids@[i] <= 0 by {
            if ids@[i] > 0 {
                assert(ids@.contains(ids@[i]));
                assert(u@.contains(ids@[i]));
            }
        }
        return Err("Escolha pelo menos um serviço.".to_string());
    }
    assert(u@.contains(u@[0]));
    Ok(u)
}

/// Sum of the durations of `rows`.
pub open spec fn total_duration(rows: Seq<ServiceRow>) -> int
    decreases rows.len(),
{
    if rows.len() == 0 {
        0
    } else {
        total_duration(rows.drop_last()) + rows.last().duration_min
    }
}

/// Sum of the prices of `rows`.
pub open spec fn total_price(rows: Seq<ServiceRow>) -> int
    decreases rows.len(),
{
    if rows.len() == 0 {
        0
    } else {
        total_price(rows.drop_last()) + rows.last().price_cents
    }
}

/// Every running sum of durations and of prices stays within `i64`.
pub open spec fn service_sums_fit(rows: Seq<ServiceRow>) -> bool {
    forall|k: int|
        0 <= k <= rows.len() ==> fits_i64(#[trigger] total_duration(rows.take(k)))
            && fits_i64(total_price(rows.take(k)))
}

/// `service_summary`: the services found for the requested ids, their total duration and
/// their total price. When fewer services were found than requested (some is inactive or
/// missing), the request is refused.
pub fn service_summary(requested: &Vec<i64>, rows: Vec<ServiceRow>) -> (r: Result<
    (Vec<ServiceRow>, i64, i64),
    String,
>)
    requires
        rows@.len() == requested@.len() ==> service_sums_fit(rows@),
    ensures
        rows@.len() != requested@.len() ==> (r matches Err(e) && e@
            == "Um ou mais serviços estão indisponíveis."@),
        rows@.len() == requested@.len() ==> (r matches Ok((v, dur, total)) && v@ == rows@ && dur
            == total_duration(rows@) && total == total_price(rows@)),
{
    if rows.len() != requested.len() {
        return Err("Um ou mais serviços estão indisponíveis.".to_string());
    }
    let mut dur: i64 = 0;
    let mut total: i64 = 0;
    let mut i: usize = 0;
    while i < rows.len()
        invariant
            i <= rows@.len(),
            service_sums_fit(rows@),
            dur == total_duration(rows@.take(i as int)),
        decreases rows@.len() - i,
    {
        assert(rows@.take(i + 1).drop_last() =~= rows@.take(i as int));
        assert(fits_i64(total_duration(rows@.take(i + 1))));
        dur = dur + rows[i].duration_min;
        i = i + 1;
    }
    let mut j: usize = 0;
    while j < rows.len()
        invariant
            j <= rows@.len(),
            service_sums_fit(rows@),
            total == total_price(rows@.take(j as int)),
        decreases rows@.len() - j,
    {
        assert(rows@.take(j + 1).drop_last() =~= rows@.take(j as int));
        assert(fits_i64(total_duration(rows@.take(j + 1))));
        assert(fits_i64(total_price(rows@.take(j + 1))));
        total = total + rows[j].price_cents;
        j = j + 1;
    }
    assert(rows@.take(rows@.len() as int) =~= rows@);
    Ok((rows, dur, total))
}

/// The names of `rows` joined by " + ".
pub open spec fn joined_names(rows: Seq<ServiceRow>) -> Seq<char>
    decreases rows.len(),
{
    if rows.len() == 0 {
        Seq::empty()
    } else if rows.len() == 1 {
        rows[0].name@
    } else {
        joined_names(rows.drop_last()) + " + "@ + rows.last().name@
    }
}

/// The label of an appointment: the names of its services joined by " + ".
pub fn service_names(rows: &Vec<ServiceRow>) -> (r: String)
    ensures
        r@ == joined_names(rows@),
{
    let mut s = String::new();
    let mut i: usize = 0;
    while i < rows.len()
        invariant
            i <= rows@.len(),
            s@ == joined_names(rows@.take(i as int)),
        decreases rows@.len() - i,
    {
        assert(rows@.take(i + 1).drop_last() =~= rows@.take(i as int));
        if i > 0 {
            push_str(&mut s, " + ");
        } else {
            assert(s@ =~= Seq::<char>::empty());
        }
        push_str(&mut s, rows[i].name.as_str());
        i = i + 1;
    }
    assert(rows@.take(rows@.len() as int) =~= rows@);
    s
}

} // verus!
