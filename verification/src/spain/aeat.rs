//! Spanish tax calendar (AEAT): an embedded table of the main tax model
//! deadlines, filtered by quarter and business type. Deadlines belong to the
//! quarter after the fiscal period (Q1 is declared in April); annual models sit
//! in Q4 with their own dates.

use vstd::prelude::*;
use crate::text::{decimal, decimal2, decimal_string, decimal_string2, join3, lowercase, push_char, str_eq, to_lower};
use crate::spain::cnae::opt_lower;

verus! {

/// One tax model deadline of the calendar.
#[derive(Clone, Copy)]
pub struct TaxDeadline {
    pub model: &'static str,
    pub description: &'static str,
    pub deadline_month: u8,
    pub deadline_day: u8,
    pub quarter: u8,
    pub applicable_business_types: &'static [&'static str],
    pub frequency: &'static str,
    pub notes: &'static str,
}

/// The embedded deadline table.
pub open spec fn tax_table() -> Seq<TaxDeadline> {
    seq![
        TaxDeadline {
            model: "303",
            description: "IVA — Autoliquidación trimestral",
            deadline_month: 4,
            deadline_day: 20,
            quarter: 1,
            applicable_business_types: &["autonomo", "sl", "sa", "cooperativa"],
            frequency: "quarterly",
            notes: "Pago fraccionado de IVA. Q4 se presenta hasta el 30 de enero.",
        },
        TaxDeadline {
            model: "111",
            description: "IRPF — Retenciones e ingresos a cuenta (rendimientos del trabajo, actividades profesionales)",
            deadline_month: 4,
            deadline_day: 20,
            quarter: 1,
            applicable_business_types: &["autonomo", "sl", "sa", "cooperativa"],
            frequency: "quarterly",
            notes: "Obligatorio si se practican retenciones a empleados o profesionales.",
        },
        TaxDeadline {
            model: "115",
            description: "IRPF — Retenciones e ingresos a cuenta (rentas o rendimientos de arrendamientos)",
            deadline_month: 4,
            deadline_day: 20,
            quarter: 1,
            applicable_business_types: &["autonomo", "sl", "sa", "cooperativa"],
            frequency: "quarterly",
            notes: "Solo si se paga alquiler de local/oficina con retención.",
        },
        TaxDeadline {
            model: "130",
            description: "IRPF — Pago fraccionado (estimación directa)",
            deadline_month: 4,
            deadline_day: 20,
            quarter: 1,
            applicable_business_types: &["autonomo"],
            frequency: "quarterly",
            notes: "Autónomos en estimación directa. 20% del rendimiento neto.",
        },
        TaxDeadline {
            model: "131",
            description: "IRPF — Pago fraccionado (estimación objetiva / módulos)",
            deadline_month: 4,
            deadline_day: 20,
            quarter: 1,
            applicable_business_types: &["autonomo"],
            frequency: "quarterly",
            notes: "Autónomos en estimación objetiva (módulos).",
        },
        TaxDeadline {
            model: "303",
            description: "IVA — Autoliquidación trimestral",
            deadline_month: 7,
            deadline_day: 20,
            quarter: 2,
            applicable_business_types: &["autonomo", "sl", "sa", "cooperativa"],
            frequency: "quarterly",
            notes: "Pago fraccionado de IVA.",
        },
        TaxDeadline {
            model: "111",
            description: "IRPF — Retenciones e ingresos a cuenta (rendimientos del trabajo, actividades profesionales)",
            deadline_month: 7,
            deadline_day: 20,
            quarter: 2,
            applicable_business_types: &["autonomo", "sl", "sa", "cooperativa"],
            frequency: "quarterly",
            notes: "",
        },
        TaxDeadline {
            model: "115",
            description: "IRPF — Retenciones e ingresos a cuenta (arrendamientos)",
            deadline_month: 7,
            deadline_day: 20,
            quarter: 2,
            applicable_business_types: &["autonomo", "sl", "sa", "cooperativa"],
            frequency: "quarterly",
            notes: "",
        },
        TaxDeadline {
            model: "130",
            description: "IRPF — Pago fraccionado (estimación directa)",
            deadline_month: 7,
            deadline_day: 20,
            quarter: 2,
            applicable_business_types: &["autonomo"],
            frequency: "quarterly",
            notes: "",
        },
        TaxDeadline {
            model: "131",
            description: "IRPF — Pago fraccionado (estimación objetiva / módulos)",
            deadline_month: 7,
            deadline_day: 20,
            quarter: 2,
            applicable_business_types: &["autonomo"],
            frequency: "quarterly",
            notes: "",
        },
        TaxDeadline {
            model: "200",
            description: "Impuesto sobre Sociedades — Declaración anual",
            deadline_month: 7,
            deadline_day: 25,
            quarter: 2,
            applicable_business_types: &["sl", "sa", "cooperativa"],
            frequency: "annual",
            notes: "Plazo general: 25 días naturales siguientes a los 6 meses desde cierre del ejercicio (julio para ejercicios coincidentes con año natural).",
        },
        TaxDeadline {
            model: "303",
            description: "IVA — Autoliquidación trimestral",
            deadline_month: 10,
            deadline_day: 20,
            quarter: 3,
            applicable_business_types: &["autonomo", "sl", "sa", "cooperativa"],
            frequency: "quarterly",
            notes: "Pago fraccionado de IVA.",
        },
        TaxDeadline {
            model: "111",
            description: "IRPF — Retenciones e ingresos a cuenta (rendimientos del trabajo, actividades profesionales)",
            deadline_month: 10,
            deadline_day: 20,
            quarter: 3,
            applicable_business_types: &["autonomo", "sl", "sa", "cooperativa"],
            frequency: "quarterly",
            notes: "",
        },
        TaxDeadline {
            model: "115",
            description: "IRPF — Retenciones e ingresos a cuenta (arrendamientos)",
            deadline_month: 10,
            deadline_day: 20,
            quarter: 3,
            applicable_business_types: &["autonomo", "sl", "sa", "cooperativa"],
            frequency: "quarterly",
            notes: "",
        },
        TaxDeadline {
            model: "130",
            description: "IRPF — Pago fraccionado (estimación directa)",
            deadline_month: 10,
            deadline_day: 20,
            quarter: 3,
            applicable_business_types: &["autonomo"],
            frequency: "quarterly",
            notes: "",
        },
        TaxDeadline {
            model: "131",
            description: "IRPF — Pago fraccionado (estimación objetiva / módulos)",
            deadline_month: 10,
            deadline_day: 20,
            quarter: 3,
            applicable_business_types: &["autonomo"],
            frequency: "quarterly",
            notes: "",
        },
        TaxDeadline {
            model: "202",
            description: "Impuesto sobre Sociedades — Pago fraccionado",
            deadline_month: 10,
            deadline_day: 20,
            quarter: 3,
            applicable_business_types: &["sl", "sa", "cooperativa"],
            frequency: "quarterly",
            notes: "Primer pago fraccionado del IS. Se presenta también en abril (Q1) y diciembre (Q4).",
        },
        TaxDeadline {
            model: "303",
            description: "IVA — Autoliquidación trimestral (Q4)",
            deadline_month: 1,
            deadline_day: 30,
            quarter: 4,
            applicable_business_types: &["autonomo", "sl", "sa", "cooperativa"],
            frequency: "quarterly",
            notes: "Plazo especial Q4: hasta el 30 de enero.",
        },
        TaxDeadline {
            model: "390",
            description: "IVA — Declaración resumen anual",
            deadline_month: 1,
            deadline_day: 30,
            quarter: 4,
            applicable_business_types: &["autonomo", "sl", "sa", "cooperativa"],
            frequency: "annual",
            notes: "Resumen anual de IVA. Se presenta junto con el 303 de Q4.",
        },
        TaxDeadline {
            model: "111",
            description: "IRPF — Retenciones e ingresos a cuenta (Q4)",
            deadline_month: 1,
            deadline_day: 20,
            quarter: 4,
            applicable_business_types: &["autonomo", "sl", "sa", "cooperativa"],
            frequency: "quarterly",
            notes: "",
        },
        TaxDeadline {
            model: "190",
            description: "IRPF — Resumen anual de retenciones e ingresos a cuenta",
            deadline_month: 1,
            deadline_day: 31,
            quarter: 4,
            applicable_business_types: &["autonomo", "sl", "sa", "cooperativa"],
            frequency: "annual",
            notes: "Declaración informativa anual que resume los modelos 111.",
        },
        TaxDeadline {
            model: "115",
            description: "IRPF — Retenciones arrendamientos (Q4)",
            deadline_month: 1,
            deadline_day: 20,
            quarter: 4,
            applicable_business_types: &["autonomo", "sl", "sa", "cooperativa"],
            frequency: "quarterly",
            notes: "",
        },
        TaxDeadline {
            model: "180",
            description: "IRPF — Resumen anual de retenciones por arrendamientos",
            deadline_month: 1,
            deadline_day: 31,
            quarter: 4,
            applicable_business_types: &["autonomo", "sl", "sa", "cooperativa"],
            frequency: "annual",
            notes: "Declaración informativa anual que resume los modelos 115.",
        },
        TaxDeadline {
            model: "130",
            description: "IRPF — Pago fraccionado estimación directa (Q4)",
            deadline_month: 1,
            deadline_day: 30,
            quarter: 4,
            applicable_business_types: &["autonomo"],
            frequency: "quarterly",
            notes: "Plazo especial Q4: hasta el 30 de enero.",
        },
        TaxDeadline {
            model: "131",
            description: "IRPF — Pago fraccionado estimación objetiva (Q4)",
            deadline_month: 1,
            deadline_day: 30,
            quarter: 4,
            applicable_business_types: &["autonomo"],
            frequency: "quarterly",
            notes: "Plazo especial Q4: hasta el 30 de enero.",
        },
        TaxDeadline {
            model: "349",
            description: "Declaración recapitulativa de operaciones intracomunitarias",
            deadline_month: 1,
            deadline_day: 30,
            quarter: 4,
            applicable_business_types: &["autonomo", "sl", "sa", "cooperativa"],
            frequency: "quarterly",
            notes: "Solo obligatorio si se realizan operaciones intracomunitarias. Se presenta trimestralmente o mensualmente según volumen.",
        },
        TaxDeadline {
            model: "347",
            description: "Declaración anual de operaciones con terceras personas",
            deadline_month: 2,
            deadline_day: 28,
            quarter: 4,
            applicable_business_types: &["autonomo", "sl", "sa", "cooperativa"],
            frequency: "annual",
            notes: "Obligatorio si operaciones con un mismo tercero superan 3.005,06 EUR anuales. Se presenta en febrero.",
        },
    ]
}

/// The embedded deadline table, in order.
pub fn tax_deadlines() -> (v: Vec<TaxDeadline>)
    ensures
        v@ == tax_table(),
{
    vec![
        TaxDeadline {
            model: "303",
            description: "IVA — Autoliquidación trimestral",
            deadline_month: 4,
            deadline_day: 20,
            quarter: 1,
            applicable_business_types: &["autonomo", "sl", "sa", "cooperativa"],
            frequency: "quarterly",
            notes: "Pago fraccionado de IVA. Q4 se presenta hasta el 30 de enero.",
        },
        TaxDeadline {
            model: "111",
            description: "IRPF — Retenciones e ingresos a cuenta (rendimientos del trabajo, actividades profesionales)",
            deadline_month: 4,
            deadline_day: 20,
            quarter: 1,
            applicable_business_types: &["autonomo", "sl", "sa", "cooperativa"],
            frequency: "quarterly",
            notes: "Obligatorio si se practican retenciones a empleados o profesionales.",
        },
        TaxDeadline {
            model: "115",
            description: "IRPF — Retenciones e ingresos a cuenta (rentas o rendimientos de arrendamientos)",
            deadline_month: 4,
            deadline_day: 20,
            quarter: 1,
            applicable_business_types: &["autonomo", "sl", "sa", "cooperativa"],
            frequency: "quarterly",
            notes: "Solo si se paga alquiler de local/oficina con retención.",
        },
        TaxDeadline {
            model: "130",
            description: "IRPF — Pago fraccionado (estimación directa)",
            deadline_month: 4,
            deadline_day: 20,
            quarter: 1,
            applicable_business_types: &["autonomo"],
            frequency: "quarterly",
            notes: "Autónomos en estimación directa. 20% del rendimiento neto.",
        },
        TaxDeadline {
            model: "131",
            description: "IRPF — Pago fraccionado (estimación objetiva / módulos)",
            deadline_month: 4,
            deadline_day: 20,
            quarter: 1,
            applicable_business_types: &["autonomo"],
            frequency: "quarterly",
            notes: "Autónomos en estimación objetiva (módulos).",
        },
        TaxDeadline {
            model: "303",
            description: "IVA — Autoliquidación trimestral",
            deadline_month: 7,
            deadline_day: 20,
            quarter: 2,
            applicable_business_types: &["autonomo", "sl", "sa", "cooperativa"],
            frequency: "quarterly",
            notes: "Pago fraccionado de IVA.",
        },
        TaxDeadline {
            model: "111",
            description: "IRPF — Retenciones e ingresos a cuenta (rendimientos del trabajo, actividades profesionales)",
            deadline_month: 7,
            deadline_day: 20,
            quarter: 2,
            applicable_business_types: &["autonomo", "sl", "sa", "cooperativa"],
            frequency: "quarterly",
            notes: "",
        },
        TaxDeadline {
            model: "115",
            description: "IRPF — Retenciones e ingresos a cuenta (arrendamientos)",
            deadline_month: 7,
            deadline_day: 20,
            quarter: 2,
            applicable_business_types: &["autonomo", "sl", "sa", "cooperativa"],
            frequency: "quarterly",
            notes: "",
        },
        TaxDeadline {
            model: "130",
            description: "IRPF — Pago fraccionado (estimación directa)",
            deadline_month: 7,
            deadline_day: 20,
            quarter: 2,
            applicable_business_types: &["autonomo"],
            frequency: "quarterly",
            notes: "",
        },
        TaxDeadline {
            model: "131",
            description: "IRPF — Pago fraccionado (estimación objetiva / módulos)",
            deadline_month: 7,
            deadline_day: 20,
            quarter: 2,
            applicable_business_types: &["autonomo"],
            frequency: "quarterly",
            notes: "",
        },
        TaxDeadline {
            model: "200",
            description: "Impuesto sobre Sociedades — Declaración anual",
            deadline_month: 7,
            deadline_day: 25,
            quarter: 2,
            applicable_business_types: &["sl", "sa", "cooperativa"],
            frequency: "annual",
            notes: "Plazo general: 25 días naturales siguientes a los 6 meses desde cierre del ejercicio (julio para ejercicios coincidentes con año natural).",
        },
        TaxDeadline {
            model: "303",
            description: "IVA — Autoliquidación trimestral",
            deadline_month: 10,
            deadline_day: 20,
            quarter: 3,
            applicable_business_types: &["autonomo", "sl", "sa", "cooperativa"],
            frequency: "quarterly",
            notes: "Pago fraccionado de IVA.",
        },
        TaxDeadline {
            model: "111",
            description: "IRPF — Retenciones e ingresos a cuenta (rendimientos del trabajo, actividades profesionales)",
            deadline_month: 10,
            deadline_day: 20,
            quarter: 3,
            applicable_business_types: &["autonomo", "sl", "sa", "cooperativa"],
            frequency: "quarterly",
            notes: "",
        },
        TaxDeadline {
            model: "115",
            description: "IRPF — Retenciones e ingresos a cuenta (arrendamientos)",
            deadline_month: 10,
            deadline_day: 20,
            quarter: 3,
            applicable_business_types: &["autonomo", "sl", "sa", "cooperativa"],
            frequency: "quarterly",
            notes: "",
        },
        TaxDeadline {
            model: "130",
            description: "IRPF — Pago fraccionado (estimación directa)",
            deadline_month: 10,
            deadline_day: 20,
            quarter: 3,
            applicable_business_types: &["autonomo"],
            frequency: "quarterly",
            notes: "",
        },
        TaxDeadline {
            model: "131",
            description: "IRPF — Pago fraccionado (estimación objetiva / módulos)",
            deadline_month: 10,
            deadline_day: 20,
            quarter: 3,
            applicable_business_types: &["autonomo"],
            frequency: "quarterly",
            notes: "",
        },
        TaxDeadline {
            model: "202",
            description: "Impuesto sobre Sociedades — Pago fraccionado",
            deadline_month: 10,
            deadline_day: 20,
            quarter: 3,
            applicable_business_types: &["sl", "sa", "cooperativa"],
            frequency: "quarterly",
            notes: "Primer pago fraccionado del IS. Se presenta también en abril (Q1) y diciembre (Q4).",
        },
        TaxDeadline {
            model: "303",
            description: "IVA — Autoliquidación trimestral (Q4)",
            deadline_month: 1,
            deadline_day: 30,
            quarter: 4,
            applicable_business_types: &["autonomo", "sl", "sa", "cooperativa"],
            frequency: "quarterly",
            notes: "Plazo especial Q4: hasta el 30 de enero.",
        },
        TaxDeadline {
            model: "390",
            description: "IVA — Declaración resumen anual",
            deadline_month: 1,
            deadline_day: 30,
            quarter: 4,
            applicable_business_types: &["autonomo", "sl", "sa", "cooperativa"],
            frequency: "annual",
            notes: "Resumen anual de IVA. Se presenta junto con el 303 de Q4.",
        },
        TaxDeadline {
            model: "111",
            description: "IRPF — Retenciones e ingresos a cuenta (Q4)",
            deadline_month: 1,
            deadline_day: 20,
            quarter: 4,
            applicable_business_types: &["autonomo", "sl", "sa", "cooperativa"],
            frequency: "quarterly",
            notes: "",
        },
        TaxDeadline {
            model: "190",
            description: "IRPF — Resumen anual de retenciones e ingresos a cuenta",
            deadline_month: 1,
            deadline_day: 31,
            quarter: 4,
            applicable_business_types: &["autonomo", "sl", "sa", "cooperativa"],
            frequency: "annual",
            notes: "Declaración informativa anual que resume los modelos 111.",
        },
        TaxDeadline {
            model: "115",
            description: "IRPF — Retenciones arrendamientos (Q4)",
            deadline_month: 1,
            deadline_day: 20,
            quarter: 4,
            applicable_business_types: &["autonomo", "sl", "sa", "cooperativa"],
            frequency: "quarterly",
            notes: "",
        },
        TaxDeadline {
            model: "180",
            description: "IRPF — Resumen anual de retenciones por arrendamientos",
            deadline_month: 1,
            deadline_day: 31,
            quarter: 4,
            applicable_business_types: &["autonomo", "sl", "sa", "cooperativa"],
            frequency: "annual",
            notes: "Declaración informativa anual que resume los modelos 115.",
        },
        TaxDeadline {
            model: "130",
            description: "IRPF — Pago fraccionado estimación directa (Q4)",
            deadline_month: 1,
            deadline_day: 30,
            quarter: 4,
            applicable_business_types: &["autonomo"],
            frequency: "quarterly",
            notes: "Plazo especial Q4: hasta el 30 de enero.",
        },
        TaxDeadline {
            model: "131",
            description: "IRPF — Pago fraccionado estimación objetiva (Q4)",
            deadline_month: 1,
            deadline_day: 30,
            quarter: 4,
            applicable_business_types: &["autonomo"],
            frequency: "quarterly",
            notes: "Plazo especial Q4: hasta el 30 de enero.",
        },
        TaxDeadline {
            model: "349",
            description: "Declaración recapitulativa de operaciones intracomunitarias",
            deadline_month: 1,
            deadline_day: 30,
            quarter: 4,
            applicable_business_types: &["autonomo", "sl", "sa", "cooperativa"],
            frequency: "quarterly",
            notes: "Solo obligatorio si se realizan operaciones intracomunitarias. Se presenta trimestralmente o mensualmente según volumen.",
        },
        TaxDeadline {
            model: "347",
            description: "Declaración anual de operaciones con terceras personas",
            deadline_month: 2,
            deadline_day: 28,
            quarter: 4,
            applicable_business_types: &["autonomo", "sl", "sa", "cooperativa"],
            frequency: "annual",
            notes: "Obligatorio si operaciones con un mismo tercero superan 3.005,06 EUR anuales. Se presenta en febrero.",
        },
    ]
}

/// A deadline applies to the lower-cased business type `bt` when one of its
/// types lower-cases to `bt` or is `all`.
pub open spec fn applies_to(d: TaxDeadline, bt: Seq<char>) -> bool {
    exists|k: int|
        0 <= k < d.applicable_business_types@.len() && {
            let t = #[trigger] d.applicable_business_types@[k];
            lowercase(t@) == bt || t@ == "all"@
        }
}

/// Whether `d` passes the quarter filter and the lower-cased business type
/// filter, each applying only when given.
pub open spec fn deadline_selected(d: TaxDeadline, quarter: Option<u8>, bt: Option<Seq<char>>) -> bool {
    &&& match quarter {
        Some(q) => d.quarter == q,
        None => true,
    }
    &&& match bt {
        Some(b) => applies_to(d, b),
        None => true,
    }
}

/// The deadlines of `ds` that are selected, in order.
pub open spec fn select_deadlines(ds: Seq<TaxDeadline>, quarter: Option<u8>, bt: Option<Seq<char>>) -> Seq<TaxDeadline>
    decreases ds.len(),
{
    if ds.len() == 0 {
        seq![]
    } else if deadline_selected(ds.last(), quarter, bt) {
        select_deadlines(ds.drop_last(), quarter, bt).push(ds.last())
    } else {
        select_deadlines(ds.drop_last(), quarter, bt)
    }
}

/// The date `{year}-{month:02}-{day:02}`.
pub open spec fn date_text(year: nat, month: nat, day: nat) -> Seq<char> {
    decimal(year) + seq!['-'] + decimal2(month) + seq!['-'] + decimal2(day)
}

/// A deadline of the calendar for a given year.
pub struct CalendarDeadline {
    pub model: &'static str,
    pub description: &'static str,
    pub deadline: String,
    pub quarter: u8,
    pub applicable_business_types: &'static [&'static str],
    pub frequency: &'static str,
    pub notes: &'static str,
}

/// `d` dated in `year`.
pub open spec fn dated(d: TaxDeadline, c: CalendarDeadline, year: u16) -> bool {
    &&& c.model == d.model
    &&& c.description == d.description
    &&& c.deadline@ == date_text(year as nat, d.deadline_month as nat, d.deadline_day as nat)
    &&& c.quarter == d.quarter
    &&& c.applicable_business_types == d.applicable_business_types
    &&& c.frequency == d.frequency
    &&& c.notes == d.notes
}

/// The calendar for a year, with the filters that were applied.
pub struct AeatCalendar {
    pub year: u16,
    pub quarter_filter: Option<u8>,
    pub business_type_filter: Option<String>,
    pub deadlines_count: usize,
    pub deadlines: Vec<CalendarDeadline>,
}

/// The calendar date of a deadline in `year`.
pub fn deadline_date(year: u16, month: u8, day: u8) -> (s: String)
    ensures
        s@ == date_text(year as nat, month as nat, day as nat),
{
    let y = decimal_string(year as u64);
    let m = decimal_string2(month as u64);
    let d = decimal_string2(day as u64);
    let mut s = y;
    push_char(&mut s, '-');
    s.append(m.as_str());
    push_char(&mut s, '-');
    s.append(d.as_str());
    assert(s@ =~= date_text(year as nat, month as nat, day as nat));
    s
}

/// Whether one of `types` lower-cases to `bt` or is `all`.
fn applies(d: &TaxDeadline, bt: &str) -> (r: bool)
    ensures
        r == applies_to(*d, bt@),
{
    let types = d.applicable_business_types;
    let mut k: usize = 0;
    while k < types.len()
        invariant
            types == d.applicable_business_types,
            k <= types@.len(),
            forall|j: int| 0 <= j < k ==> {
                let t = #[trigger] types@[j];
                !(lowercase(t@) == bt@ || t@ == "all"@)
            },
        decreases types@.len() - k,
    {
        let t: &str = types[k];
        let lt = to_lower(t);
        if str_eq(lt.as_str(), bt) || str_eq(t, "all") {
            return true;
        }
        k = k + 1;
    }
    false
}

/// The deadlines of `table` that pass the filters, dated in `year`, in order.
pub fn select_and_date(table: &Vec<TaxDeadline>, year: u16, quarter: Option<u8>, business_type: Option<&str>) -> (r: Vec<CalendarDeadline>)
    ensures
        r@.len() == select_deadlines(table@, quarter, opt_lower(business_type)).len(),
        forall|k: int| 0 <= k < r@.len() ==> dated(select_deadlines(table@, quarter, opt_lower(business_type))[k], #[trigger] r@[k], year),
{
    let bt: Option<String> = match business_type {
        Some(b) => Some(to_lower(b)),
        None => None,
    };
    let ghost btv = opt_lower(business_type);
    let mut r: Vec<CalendarDeadline> = Vec::new();
    let mut i: usize = 0;
    while i < table.len()
        invariant
            i <= table@.len(),
            match bt { Some(v) => btv == Some(v@), None => btv is None },
            r@.len() == select_deadlines(table@.take(i as int), quarter, btv).len(),
            forall|k: int| 0 <= k < r@.len() ==> dated(select_deadlines(table@.take(i as int), quarter, btv)[k], #[trigger] r@[k], year),
        decreases table@.len() - i,
    {
        let d = table[i];
        let q_ok = match quarter {
            Some(q) => d.quarter == q,
            None => true,
        };
        let bt_ok = match &bt {
            Some(b) => applies(&d, b.as_str()),
            None => true,
        };
        assert(table@.take(i + 1).drop_last() =~= table@.take(i as int));
        assert(table@.take(i + 1).last() == d);
        if q_ok && bt_ok {
            let c = CalendarDeadline {
                model: d.model,
                description: d.description,
                deadline: deadline_date(year, d.deadline_month, d.deadline_day),
                quarter: d.quarter,
                applicable_business_types: d.applicable_business_types,
                frequency: d.frequency,
                notes: d.notes,
            };
            r.push(c);
        }
        i = i + 1;
    }
    assert(table@.take(table@.len() as int) =~= table@);
    r
}

/// The year is one the calendar supports.
pub open spec fn supported_year(year: u16) -> bool {
    2024 <= year <= 2030
}

/// The tax calendar for `year`, optionally filtered by quarter (1-4) and by
/// business type (case-insensitive). Fails for a year outside 2024-2030 or a
/// quarter outside 1-4.
pub fn execute(year: u16, quarter: Option<u8>, business_type: Option<&str>) -> (r: Result<AeatCalendar, String>)
    ensures
        !supported_year(year) ==> (r matches Err(m) && m@ == "Year "@ + decimal(year as nat) + " is out of supported range (2024-2030). Tax deadlines may vary."@),
        (supported_year(year) && quarter is Some && !(1 <= quarter.unwrap() <= 4)) ==> (r matches Err(m) && m@ == "Quarter must be 1-4, got "@ + decimal(quarter.unwrap() as nat) + "."@),
        r is Ok <==> supported_year(year) && (quarter matches Some(q) ==> 1 <= q <= 4),
        r matches Ok(c) ==> {
            let sel = select_deadlines(tax_table(), quarter, opt_lower(business_type));
            &&& c.year == year
            &&& c.quarter_filter == quarter
            &&& match business_type {
                Some(b) => c.business_type_filter matches Some(f) && f@ == b@,
                None => c.business_type_filter is None,
            }
            &&& c.deadlines_count == c.deadlines@.len()
            &&& c.deadlines@.len() == sel.len()
            &&& forall|k: int| 0 <= k < sel.len() ==> dated(sel[k], #[trigger] c.deadlines@[k], year)
        },
{
    if !(2024 <= year && year <= 2030) {
        let y = decimal_string(year as u64);
        return Err(join3("Year ", y.as_str(), " is out of supported range (2024-2030). Tax deadlines may vary."));
    }
    if let Some(q) = quarter {
        if !(1 <= q && q <= 4) {
            let qs = decimal_string(q as u64);
            return Err(join3("Quarter must be 1-4, got ", qs.as_str(), "."));
        }
    }
    let table = tax_deadlines();
    let deadlines = select_and_date(&table, year, quarter, business_type);
    let filter = match business_type {
        Some(b) => Some(String::from_str(b)),
        None => None,
    };
    Ok(AeatCalendar {
        year,
        quarter_filter: quarter,
        business_type_filter: filter,
        deadlines_count: deadlines.len(),
        deadlines,
    })
}

/// The calendar holds exactly the table deadlines that pass the quarter
/// and business type filters: a deadline is selected if and only if it is
/// in the table and passes both.
pub proof fn deadline_selection_exact(ds: Seq<TaxDeadline>, quarter: Option<u8>, bt: Option<Seq<char>>, d: TaxDeadline)
    ensures
        select_deadlines(ds, quarter, bt).contains(d) <==> (ds.contains(d) && deadline_selected(d, quarter, bt)),
        select_deadlines(ds, quarter, bt).contains(d) <==> {
            &&& ds.contains(d)
            &&& (quarter matches Some(q) ==> d.quarter == q)
            &&& (bt matches Some(b) ==> exists|k: int|
                0 <= k < d.applicable_business_types@.len() && (lowercase(
                    #[trigger] d.applicable_business_types@[k]@,
                ) == b || d.applicable_business_types@[k]@ == "all"@))
        },
    decreases ds.len(),
{
    if ds.len() > 0 {
        let rest = ds.drop_last();
        deadline_selection_exact(rest, quarter, bt, d);
        let prev = select_deadlines(rest, quarter, bt);
        assert(ds =~= rest.push(ds.last()));
        if ds.contains(d) {
            let k = choose|k: int| 0 <= k < ds.len() && ds[k] == d;
            if k < rest.len() {
                assert(rest[k] == d);
            }
        }
        if rest.contains(d) {
            let k = choose|k: int| 0 <= k < rest.len() && rest[k] == d;
            assert(ds[k] == d);
        }
        if deadline_selected(ds.last(), quarter, bt) {
            let cur = prev.push(ds.last());
            if cur.contains(d) {
                let k = choose|k: int| 0 <= k < cur.len() && cur[k] == d;
                if k < prev.len() {
                    assert(prev[k] == d);
                }
            }
            if prev.contains(d) {
                let k = choose|k: int| 0 <= k < prev.len() && prev[k] == d;
                assert(cur[k] == d);
            }
            assert(cur[prev.len() as int] == ds.last());
        }
    }
}

} // verus!
