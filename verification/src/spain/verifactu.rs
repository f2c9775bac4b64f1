//! Verifactu e-invoicing compliance: whether a business must comply and by
//! when, from its business type and SII enrolment.

use vstd::prelude::*;
use crate::text::{lowercase, str_eq, to_lower};

verus! {

/// Compliance requirements for one business.
pub struct VerifactuResult {
    pub applicable: bool,
    pub deadline: Option<&'static str>,
    pub business_type: String,
    pub sii_enrolled: bool,
    pub sii_status: &'static str,
    pub requirements: Vec<&'static str>,
    pub documentation_urls: Vec<&'static str>,
}

/// Corporate Tax (Impuesto de Sociedades) filers, by lower-cased type.
pub open spec fn is_corporate(bt: Seq<char>) -> bool {
    bt == "sl"@ || bt == "sa"@ || bt == "cooperativa"@ || bt == "sociedad"@
}

/// IRPF filers (autónomos, personas físicas), by lower-cased type.
pub open spec fn is_irpf_filer(bt: Seq<char>) -> bool {
    bt == "autonomo"@ || bt == "autónomo"@ || bt == "persona_fisica"@
}

/// The compliance deadline of a business that is not enrolled in SII.
pub open spec fn deadline_for(bt: Seq<char>) -> &'static str {
    if is_corporate(bt) {
        "2027-07-01"
    } else {
        "2028-01-01"
    }
}

/// The note on the deadline that closes the list of requirements.
pub open spec fn deadline_note(bt: Seq<char>) -> &'static str {
    if is_corporate(bt) {
        "Corporate Tax filers (Impuesto de Sociedades) — earlier deadline."
    } else if is_irpf_filer(bt) {
        "IRPF filers (autónomos / personas físicas) — later deadline."
    } else {
        "Unknown business type — assuming IRPF filer deadline. Verify with your assessor."
    }
}

/// What every non-exempt business must do, followed by the deadline note.
pub open spec fn requirements_for(bt: Seq<char>) -> Seq<&'static str> {
    seq![
        "Use Verifactu-compliant invoicing software (certified by AEAT)",
        "Each invoice must generate a chained hash (huella) for tamper detection",
        "Invoicing system must be able to send records to AEAT in real time or upon request",
        "Maintain complete invoice registry (Libro Registro) in electronic format",
        "Software must display 'Veri*factu' identifier on compliant invoices",
        "Conservative record: invoices must be stored for 4 years minimum",
        deadline_note(bt),
    ]
}

pub open spec fn exempt_status() -> &'static str {
    "Enrolled in SII — exempt from Verifactu. SII already provides real-time invoice reporting."
}

pub open spec fn mandatory_status() -> &'static str {
    "Not enrolled in SII — Verifactu compliance is mandatory."
}

pub open spec fn exempt_docs() -> Seq<&'static str> {
    seq!["https://sede.agenciatributaria.gob.es/Sede/iva/suministro-inmediato-informacion.html"]
}

pub open spec fn mandatory_docs() -> Seq<&'static str> {
    seq![
        "https://sede.agenciatributaria.gob.es/Sede/iva/facturacion-registro/verifactu.html",
        "https://www.boe.es/buscar/act.php?id=BOE-A-2024-22138",
        "https://www.agenciatributaria.es/AEAT.internet/Inicio/La_Agencia_Tributaria/Campanas/Verifactu.shtml",
    ]
}

/// Verifactu requirements for a business type (case-insensitive) and SII
/// enrolment (absent means not enrolled). SII-enrolled businesses are exempt;
/// Corporate Tax filers must comply by 2027-07-01, everyone else by
/// 2028-01-01.
pub fn execute(business_type: &str, sii_enrolled: Option<bool>) -> (r: VerifactuResult)
    ensures
        r.business_type@ == lowercase(business_type@),
        r.sii_enrolled == (sii_enrolled == Some(true)),
        r.applicable == !r.sii_enrolled,
        r.sii_enrolled ==> {
            &&& r.deadline is None
            &&& r.sii_status == exempt_status()
            &&& r.requirements@ == Seq::<&'static str>::empty()
            &&& r.documentation_urls@ == exempt_docs()
        },
        !r.sii_enrolled ==> {
            let bt = lowercase(business_type@);
            &&& r.deadline == Some(deadline_for(bt))
            &&& r.sii_status == mandatory_status()
            &&& r.requirements@ == requirements_for(bt)
            &&& r.documentation_urls@ == mandatory_docs()
        },
{
    let bt = to_lower(business_type);
    let sii = match sii_enrolled {
        Some(b) => b,
        None => false,
    };
    if sii {
        let docs = vec![
            "https://sede.agenciatributaria.gob.es/Sede/iva/suministro-inmediato-informacion.html",
        ];
        let r = VerifactuResult {
            applicable: false,
            deadline: None,
            business_type: bt,
            sii_enrolled: true,
            sii_status: "Enrolled in SII — exempt from Verifactu. SII already provides real-time invoice reporting.",
            requirements: Vec::new(),
            documentation_urls: docs,
        };
        assert(r.requirements@ =~= Seq::<&'static str>::empty());
        return r;
    }
    let b = bt.as_str();
    let corporate = str_eq(b, "sl") || str_eq(b, "sa") || str_eq(b, "cooperativa") || str_eq(b, "sociedad");
    let irpf = str_eq(b, "autonomo") || str_eq(b, "autónomo") || str_eq(b, "persona_fisica");
    let (deadline, note): (&'static str, &'static str) = if corporate {
        ("2027-07-01", "Corporate Tax filers (Impuesto de Sociedades) — earlier deadline.")
    } else if irpf {
        ("2028-01-01", "IRPF filers (autónomos / personas físicas) — later deadline.")
    } else {
        (
            "2028-01-01",
            "Unknown business type — assuming IRPF filer deadline. Verify with your assessor.",
        )
    };
    let requirements = vec![
        "Use Verifactu-compliant invoicing software (certified by AEAT)",
        "Each invoice must generate a chained hash (huella) for tamper detection",
        "Invoicing system must be able to send records to AEAT in real time or upon request",
        "Maintain complete invoice registry (Libro Registro) in electronic format",
        "Software must display 'Veri*factu' identifier on compliant invoices",
        "Conservative record: invoices must be stored for 4 years minimum",
        note,
    ];
    let docs = vec![
        "https://sede.agenciatributaria.gob.es/Sede/iva/facturacion-registro/verifactu.html",
        "https://www.boe.es/buscar/act.php?id=BOE-A-2024-22138",
        "https://www.agenciatributaria.es/AEAT.internet/Inicio/La_Agencia_Tributaria/Campanas/Verifactu.shtml",
    ];
    VerifactuResult {
        applicable: true,
        deadline: Some(deadline),
        business_type: bt,
        sii_enrolled: false,
        sii_status: "Not enrolled in SII — Verifactu compliance is mandatory.",
        requirements,
        documentation_urls: docs,
    }
}

/// The Verifactu deadlines and notes by business type (lower-cased): the
/// Corporate Tax filers `sl`, `sa`, `cooperativa` and `sociedad` by
/// 2027-07-01; the IRPF filers `autonomo`, `autónomo` and `persona_fisica`
/// by 2028-01-01; any other type by 2028-01-01 with a warning to verify.
pub proof fn verifactu_deadlines(bt: Seq<char>)
    ensures
        (bt == "sl"@ || bt == "sa"@ || bt == "cooperativa"@ || bt == "sociedad"@) ==> deadline_for(bt)
            == "2027-07-01" && deadline_note(bt) == "Corporate Tax filers (Impuesto de Sociedades) — earlier deadline.",
        (bt == "autonomo"@ || bt == "autónomo"@ || bt == "persona_fisica"@) ==> deadline_for(bt) == "2028-01-01"
            && deadline_note(bt) == "IRPF filers (autónomos / personas físicas) — later deadline.",
        !(bt == "sl"@ || bt == "sa"@ || bt == "cooperativa"@ || bt == "sociedad"@ || bt == "autonomo"@ || bt
            == "autónomo"@ || bt == "persona_fisica"@) ==> deadline_for(bt) == "2028-01-01" && deadline_note(bt)
            == "Unknown business type — assuming IRPF filer deadline. Verify with your assessor.",
{
    reveal_strlit("sl");
    reveal_strlit("sa");
    reveal_strlit("cooperativa");
    reveal_strlit("sociedad");
    reveal_strlit("autonomo");
    reveal_strlit("autónomo");
    reveal_strlit("persona_fisica");
    if bt == "autonomo"@ || bt == "autónomo"@ || bt == "persona_fisica"@ {
        assert(bt[0] == 'a' || bt[0] == 'p');
        assert(!is_corporate(bt));
        assert(is_irpf_filer(bt));
    }
}

} // verus!
