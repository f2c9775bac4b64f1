//! CNAE 2009 business activity codes: an embedded table of the most common
//! codes (source: INE, CNAE-2009), searched by code prefix and by
//! case-insensitive description substring.

use vstd::prelude::*;
use crate::text::{contains_seq, contains_chars, is_prefix, lowercase, lower_chars, starts_with};

verus! {

/// One CNAE 2009 classification entry.
#[derive(Clone, Copy)]
pub struct CnaeEntry {
    pub code: &'static str,
    pub description: &'static str,
    pub section: &'static str,
    pub division: &'static str,
    pub group: &'static str,
}

/// The embedded CNAE table.
pub open spec fn cnae_table() -> Seq<CnaeEntry> {
    seq![
        CnaeEntry { code: "0111", description: "Cultivo de cereales (excepto arroz), leguminosas y semillas oleaginosas", section: "A", division: "01", group: "011" },
        CnaeEntry { code: "0113", description: "Cultivo de hortalizas, raíces y tubérculos", section: "A", division: "01", group: "011" },
        CnaeEntry { code: "0121", description: "Cultivo de la vid", section: "A", division: "01", group: "012" },
        CnaeEntry { code: "0141", description: "Explotación de ganado bovino para la producción de leche", section: "A", division: "01", group: "014" },
        CnaeEntry { code: "1011", description: "Procesado y conservación de carne", section: "C", division: "10", group: "101" },
        CnaeEntry { code: "1039", description: "Otro procesado y conservación de frutas y hortalizas", section: "C", division: "10", group: "103" },
        CnaeEntry { code: "1071", description: "Fabricación de pan y de productos frescos de panadería y pastelería", section: "C", division: "10", group: "107" },
        CnaeEntry { code: "1101", description: "Destilación, rectificación y mezcla de bebidas alcohólicas", section: "C", division: "11", group: "110" },
        CnaeEntry { code: "1102", description: "Elaboración de vinos", section: "C", division: "11", group: "110" },
        CnaeEntry { code: "2511", description: "Fabricación de estructuras metálicas y sus componentes", section: "C", division: "25", group: "251" },
        CnaeEntry { code: "2562", description: "Ingeniería mecánica por cuenta de terceros", section: "C", division: "25", group: "256" },
        CnaeEntry { code: "4110", description: "Promoción inmobiliaria", section: "F", division: "41", group: "411" },
        CnaeEntry { code: "4121", description: "Construcción de edificios residenciales", section: "F", division: "41", group: "412" },
        CnaeEntry { code: "4122", description: "Construcción de edificios no residenciales", section: "F", division: "41", group: "412" },
        CnaeEntry { code: "4221", description: "Construcción de redes eléctricas y de telecomunicaciones", section: "F", division: "42", group: "422" },
        CnaeEntry { code: "4321", description: "Instalaciones eléctricas", section: "F", division: "43", group: "432" },
        CnaeEntry { code: "4322", description: "Fontanería, instalaciones de sistemas de calefacción y aire acondicionado", section: "F", division: "43", group: "432" },
        CnaeEntry { code: "4332", description: "Instalación de carpintería", section: "F", division: "43", group: "433" },
        CnaeEntry { code: "4399", description: "Otras actividades de construcción especializada n.c.o.p.", section: "F", division: "43", group: "439" },
        CnaeEntry { code: "4511", description: "Venta de automóviles y vehículos de motor ligeros", section: "G", division: "45", group: "451" },
        CnaeEntry { code: "4619", description: "Intermediarios del comercio de productos diversos", section: "G", division: "46", group: "461" },
        CnaeEntry { code: "4631", description: "Comercio al por mayor de frutas y hortalizas", section: "G", division: "46", group: "463" },
        CnaeEntry { code: "4690", description: "Comercio al por mayor no especializado", section: "G", division: "46", group: "469" },
        CnaeEntry { code: "4711", description: "Comercio al por menor en establecimientos no especializados, con predominio en productos alimenticios", section: "G", division: "47", group: "471" },
        CnaeEntry { code: "4719", description: "Otro comercio al por menor en establecimientos no especializados", section: "G", division: "47", group: "471" },
        CnaeEntry { code: "4771", description: "Comercio al por menor de prendas de vestir en establecimientos especializados", section: "G", division: "47", group: "477" },
        CnaeEntry { code: "4791", description: "Comercio al por menor por correspondencia o por Internet", section: "G", division: "47", group: "479" },
        CnaeEntry { code: "4941", description: "Transporte de mercancías por carretera", section: "H", division: "49", group: "494" },
        CnaeEntry { code: "5210", description: "Depósito y almacenamiento", section: "H", division: "52", group: "521" },
        CnaeEntry { code: "5320", description: "Otras actividades postales y de correos", section: "H", division: "53", group: "532" },
        CnaeEntry { code: "5510", description: "Hoteles y alojamientos similares", section: "I", division: "55", group: "551" },
        CnaeEntry { code: "5520", description: "Alojamientos turísticos y otros alojamientos de corta estancia", section: "I", division: "55", group: "552" },
        CnaeEntry { code: "5610", description: "Restaurantes y puestos de comidas", section: "I", division: "56", group: "561" },
        CnaeEntry { code: "5630", description: "Establecimientos de bebidas", section: "I", division: "56", group: "563" },
        CnaeEntry { code: "6201", description: "Actividades de programación informática", section: "J", division: "62", group: "620" },
        CnaeEntry { code: "6202", description: "Actividades de consultoría informática", section: "J", division: "62", group: "620" },
        CnaeEntry { code: "6209", description: "Otros servicios relacionados con las tecnologías de la información y la informática", section: "J", division: "62", group: "620" },
        CnaeEntry { code: "6311", description: "Proceso de datos, hosting y actividades relacionadas", section: "J", division: "63", group: "631" },
        CnaeEntry { code: "6312", description: "Portales web", section: "J", division: "63", group: "631" },
        CnaeEntry { code: "6419", description: "Otra intermediación monetaria", section: "K", division: "64", group: "641" },
        CnaeEntry { code: "6499", description: "Otros servicios financieros, excepto seguros y fondos de pensiones n.c.o.p.", section: "K", division: "64", group: "649" },
        CnaeEntry { code: "6622", description: "Actividades de agentes y corredores de seguros", section: "K", division: "66", group: "662" },
        CnaeEntry { code: "6810", description: "Compraventa de bienes inmobiliarios por cuenta propia", section: "L", division: "68", group: "681" },
        CnaeEntry { code: "6820", description: "Alquiler de bienes inmobiliarios por cuenta propia", section: "L", division: "68", group: "682" },
        CnaeEntry { code: "6831", description: "Agentes de la propiedad inmobiliaria", section: "L", division: "68", group: "683" },
        CnaeEntry { code: "6832", description: "Gestión y administración de la propiedad inmobiliaria", section: "L", division: "68", group: "683" },
        CnaeEntry { code: "6910", description: "Actividades jurídicas", section: "M", division: "69", group: "691" },
        CnaeEntry { code: "6920", description: "Actividades de contabilidad, teneduría de libros, auditoría y asesoría fiscal", section: "M", division: "69", group: "692" },
        CnaeEntry { code: "7010", description: "Actividades de las sedes centrales", section: "M", division: "70", group: "701" },
        CnaeEntry { code: "7021", description: "Relaciones públicas y comunicación", section: "M", division: "70", group: "702" },
        CnaeEntry { code: "7022", description: "Otras actividades de consultoría de gestión empresarial", section: "M", division: "70", group: "702" },
        CnaeEntry { code: "7111", description: "Servicios técnicos de arquitectura", section: "M", division: "71", group: "711" },
        CnaeEntry { code: "7112", description: "Servicios técnicos de ingeniería y otras actividades relacionadas con el asesoramiento técnico", section: "M", division: "71", group: "711" },
        CnaeEntry { code: "7311", description: "Agencias de publicidad", section: "M", division: "73", group: "731" },
        CnaeEntry { code: "7490", description: "Otras actividades profesionales, científicas y técnicas n.c.o.p.", section: "M", division: "74", group: "749" },
        CnaeEntry { code: "7810", description: "Actividades de agencias de colocación", section: "N", division: "78", group: "781" },
        CnaeEntry { code: "8010", description: "Actividades de seguridad privada", section: "N", division: "80", group: "801" },
        CnaeEntry { code: "8121", description: "Limpieza general de edificios", section: "N", division: "81", group: "812" },
        CnaeEntry { code: "8211", description: "Servicios administrativos combinados", section: "N", division: "82", group: "821" },
        CnaeEntry { code: "8551", description: "Educación deportiva y recreativa", section: "P", division: "85", group: "855" },
        CnaeEntry { code: "8559", description: "Otra educación n.c.o.p.", section: "P", division: "85", group: "855" },
        CnaeEntry { code: "8621", description: "Actividades de medicina general", section: "Q", division: "86", group: "862" },
        CnaeEntry { code: "8622", description: "Actividades de medicina especializada", section: "Q", division: "86", group: "862" },
        CnaeEntry { code: "8623", description: "Actividades odontológicas", section: "Q", division: "86", group: "862" },
        CnaeEntry { code: "9001", description: "Artes escénicas", section: "R", division: "90", group: "900" },
        CnaeEntry { code: "9313", description: "Actividades de los gimnasios", section: "R", division: "93", group: "931" },
        CnaeEntry { code: "9511", description: "Reparación de ordenadores y equipos periféricos", section: "S", division: "95", group: "951" },
        CnaeEntry { code: "9602", description: "Peluquería y otros tratamientos de belleza", section: "S", division: "96", group: "960" },
    ]
}

/// The embedded CNAE table, in order.
pub fn cnae_codes() -> (v: Vec<CnaeEntry>)
    ensures
        v@ == cnae_table(),
{
    vec![
        CnaeEntry { code: "0111", description: "Cultivo de cereales (excepto arroz), leguminosas y semillas oleaginosas", section: "A", division: "01", group: "011" },
        CnaeEntry { code: "0113", description: "Cultivo de hortalizas, raíces y tubérculos", section: "A", division: "01", group: "011" },
        CnaeEntry { code: "0121", description: "Cultivo de la vid", section: "A", division: "01", group: "012" },
        CnaeEntry { code: "0141", description: "Explotación de ganado bovino para la producción de leche", section: "A", division: "01", group: "014" },
        CnaeEntry { code: "1011", description: "Procesado y conservación de carne", section: "C", division: "10", group: "101" },
        CnaeEntry { code: "1039", description: "Otro procesado y conservación de frutas y hortalizas", section: "C", division: "10", group: "103" },
        CnaeEntry { code: "1071", description: "Fabricación de pan y de productos frescos de panadería y pastelería", section: "C", division: "10", group: "107" },
        CnaeEntry { code: "1101", description: "Destilación, rectificación y mezcla de bebidas alcohólicas", section: "C", division: "11", group: "110" },
        CnaeEntry { code: "1102", description: "Elaboración de vinos", section: "C", division: "11", group: "110" },
        CnaeEntry { code: "2511", description: "Fabricación de estructuras metálicas y sus componentes", section: "C", division: "25", group: "251" },
        CnaeEntry { code: "2562", description: "Ingeniería mecánica por cuenta de terceros", section: "C", division: "25", group: "256" },
        CnaeEntry { code: "4110", description: "Promoción inmobiliaria", section: "F", division: "41", group: "411" },
        CnaeEntry { code: "4121", description: "Construcción de edificios residenciales", section: "F", division: "41", group: "412" },
        CnaeEntry { code: "4122", description: "Construcción de edificios no residenciales", section: "F", division: "41", group: "412" },
        CnaeEntry { code: "4221", description: "Construcción de redes eléctricas y de telecomunicaciones", section: "F", division: "42", group: "422" },
        CnaeEntry { code: "4321", description: "Instalaciones eléctricas", section: "F", division: "43", group: "432" },
        CnaeEntry { code: "4322", description: "Fontanería, instalaciones de sistemas de calefacción y aire acondicionado", section: "F", division: "43", group: "432" },
        CnaeEntry { code: "4332", description: "Instalación de carpintería", section: "F", division: "43", group: "433" },
        CnaeEntry { code: "4399", description: "Otras actividades de construcción especializada n.c.o.p.", section: "F", division: "43", group: "439" },
        CnaeEntry { code: "4511", description: "Venta de automóviles y vehículos de motor ligeros", section: "G", division: "45", group: "451" },
        CnaeEntry { code: "4619", description: "Intermediarios del comercio de productos diversos", section: "G", division: "46", group: "461" },
        CnaeEntry { code: "4631", description: "Comercio al por mayor de frutas y hortalizas", section: "G", division: "46", group: "463" },
        CnaeEntry { code: "4690", description: "Comercio al por mayor no especializado", section: "G", division: "46", group: "469" },
        CnaeEntry { code: "4711", description: "Comercio al por menor en establecimientos no especializados, con predominio en productos alimenticios", section: "G", division: "47", group: "471" },
        CnaeEntry { code: "4719", description: "Otro comercio al por menor en establecimientos no especializados", section: "G", division: "47", group: "471" },
        CnaeEntry { code: "4771", description: "Comercio al por menor de prendas de vestir en establecimientos especializados", section: "G", division: "47", group: "477" },
        CnaeEntry { code: "4791", description: "Comercio al por menor por correspondencia o por Internet", section: "G", division: "47", group: "479" },
        CnaeEntry { code: "4941", description: "Transporte de mercancías por carretera", section: "H", division: "49", group: "494" },
        CnaeEntry { code: "5210", description: "Depósito y almacenamiento", section: "H", division: "52", group: "521" },
        CnaeEntry { code: "5320", description: "Otras actividades postales y de correos", section: "H", division: "53", group: "532" },
        CnaeEntry { code: "5510", description: "Hoteles y alojamientos similares", section: "I", division: "55", group: "551" },
        CnaeEntry { code: "5520", description: "Alojamientos turísticos y otros alojamientos de corta estancia", section: "I", division: "55", group: "552" },
        CnaeEntry { code: "5610", description: "Restaurantes y puestos de comidas", section: "I", division: "56", group: "561" },
        CnaeEntry { code: "5630", description: "Establecimientos de bebidas", section: "I", division: "56", group: "563" },
        CnaeEntry { code: "6201", description: "Actividades de programación informática", section: "J", division: "62", group: "620" },
        CnaeEntry { code: "6202", description: "Actividades de consultoría informática", section: "J", division: "62", group: "620" },
        CnaeEntry { code: "6209", description: "Otros servicios relacionados con las tecnologías de la información y la informática", section: "J", division: "62", group: "620" },
        CnaeEntry { code: "6311", description: "Proceso de datos, hosting y actividades relacionadas", section: "J", division: "63", group: "631" },
        CnaeEntry { code: "6312", description: "Portales web", section: "J", division: "63", group: "631" },
        CnaeEntry { code: "6419", description: "Otra intermediación monetaria", section: "K", division: "64", group: "641" },
        CnaeEntry { code: "6499", description: "Otros servicios financieros, excepto seguros y fondos de pensiones n.c.o.p.", section: "K", division: "64", group: "649" },
        CnaeEntry { code: "6622", description: "Actividades de agentes y corredores de seguros", section: "K", division: "66", group: "662" },
        CnaeEntry { code: "6810", description: "Compraventa de bienes inmobiliarios por cuenta propia", section: "L", division: "68", group: "681" },
        CnaeEntry { code: "6820", description: "Alquiler de bienes inmobiliarios por cuenta propia", section: "L", division: "68", group: "682" },
        CnaeEntry { code: "6831", description: "Agentes de la propiedad inmobiliaria", section: "L", division: "68", group: "683" },
        CnaeEntry { code: "6832", description: "Gestión y administración de la propiedad inmobiliaria", section: "L", division: "68", group: "683" },
        CnaeEntry { code: "6910", description: "Actividades jurídicas", section: "M", division: "69", group: "691" },
        CnaeEntry { code: "6920", description: "Actividades de contabilidad, teneduría de libros, auditoría y asesoría fiscal", section: "M", division: "69", group: "692" },
        CnaeEntry { code: "7010", description: "Actividades de las sedes centrales", section: "M", division: "70", group: "701" },
        CnaeEntry { code: "7021", description: "Relaciones públicas y comunicación", section: "M", division: "70", group: "702" },
        CnaeEntry { code: "7022", description: "Otras actividades de consultoría de gestión empresarial", section: "M", division: "70", group: "702" },
        CnaeEntry { code: "7111", description: "Servicios técnicos de arquitectura", section: "M", division: "71", group: "711" },
        CnaeEntry { code: "7112", description: "Servicios técnicos de ingeniería y otras actividades relacionadas con el asesoramiento técnico", section: "M", division: "71", group: "711" },
        CnaeEntry { code: "7311", description: "Agencias de publicidad", section: "M", division: "73", group: "731" },
        CnaeEntry { code: "7490", description: "Otras actividades profesionales, científicas y técnicas n.c.o.p.", section: "M", division: "74", group: "749" },
        CnaeEntry { code: "7810", description: "Actividades de agencias de colocación", section: "N", division: "78", group: "781" },
        CnaeEntry { code: "8010", description: "Actividades de seguridad privada", section: "N", division: "80", group: "801" },
        CnaeEntry { code: "8121", description: "Limpieza general de edificios", section: "N", division: "81", group: "812" },
        CnaeEntry { code: "8211", description: "Servicios administrativos combinados", section: "N", division: "82", group: "821" },
        CnaeEntry { code: "8551", description: "Educación deportiva y recreativa", section: "P", division: "85", group: "855" },
        CnaeEntry { code: "8559", description: "Otra educación n.c.o.p.", section: "P", division: "85", group: "855" },
        CnaeEntry { code: "8621", description: "Actividades de medicina general", section: "Q", division: "86", group: "862" },
        CnaeEntry { code: "8622", description: "Actividades de medicina especializada", section: "Q", division: "86", group: "862" },
        CnaeEntry { code: "8623", description: "Actividades odontológicas", section: "Q", division: "86", group: "862" },
        CnaeEntry { code: "9001", description: "Artes escénicas", section: "R", division: "90", group: "900" },
        CnaeEntry { code: "9313", description: "Actividades de los gimnasios", section: "R", division: "93", group: "931" },
        CnaeEntry { code: "9511", description: "Reparación de ordenadores y equipos periféricos", section: "S", division: "95", group: "951" },
        CnaeEntry { code: "9602", description: "Peluquería y otros tratamientos de belleza", section: "S", division: "96", group: "960" },
    ]
}

/// Whether `entry` is selected by the code prefix and the lower-cased
/// description query, each filter applying only when given.
pub open spec fn cnae_selected(entry: CnaeEntry, code: Option<Seq<char>>, query: Option<Seq<char>>) -> bool {
    &&& match code {
        Some(c) => is_prefix(c, entry.code@),
        None => true,
    }
    &&& match query {
        Some(q) => contains_seq(lowercase(entry.description@), q),
        None => true,
    }
}

/// The entries of `entries` that are selected, in order.
pub open spec fn cnae_select(entries: Seq<CnaeEntry>, code: Option<Seq<char>>, query: Option<Seq<char>>) -> Seq<CnaeEntry>
    decreases entries.len(),
{
    if entries.len() == 0 {
        seq![]
    } else if cnae_selected(entries.last(), code, query) {
        cnae_select(entries.drop_last(), code, query).push(entries.last())
    } else {
        cnae_select(entries.drop_last(), code, query)
    }
}

pub open spec fn opt_view(s: Option<&str>) -> Option<Seq<char>> {
    match s {
        Some(x) => Some(x@),
        None => None,
    }
}

pub open spec fn opt_lower(s: Option<&str>) -> Option<Seq<char>> {
    match s {
        Some(x) => Some(lowercase(x@)),
        None => None,
    }
}

/// Result of a CNAE lookup.
pub struct CnaeLookup {
    pub matches: usize,
    pub results: Vec<CnaeEntry>,
}

/// The entries of `table` whose code starts with `code` (when given) and
/// whose lower-cased description contains the lower-cased `description`
/// (when given), in table order.
pub fn filter_entries(table: &Vec<CnaeEntry>, code: Option<&str>, description: Option<&str>) -> (r: Vec<CnaeEntry>)
    ensures
        r@ == cnae_select(table@, opt_view(code), opt_lower(description)),
{
    let query: Option<Vec<char>> = match description {
        Some(d) => Some(lower_chars(d)),
        None => None,
    };
    let ghost q = opt_lower(description);
    assert(match query { Some(v) => q == Some(v@), None => q is None });
    let mut r: Vec<CnaeEntry> = Vec::new();
    let mut i: usize = 0;
    while i < table.len()
        invariant
            i <= table@.len(),
            match query { Some(v) => q == Some(v@), None => q is None },
            r@ == cnae_select(table@.take(i as int), opt_view(code), q),
        decreases table@.len() - i,
    {
        let entry = table[i];
        let code_ok = match code {
            Some(c) => starts_with(entry.code, c),
            None => true,
        };
        let desc_ok = match &query {
            Some(qv) => {
                let d = lower_chars(entry.description);
                contains_chars(&d, qv)
            },
            None => true,
        };
        assert(table@.take(i + 1).drop_last() =~= table@.take(i as int));
        assert(table@.take(i + 1).last() == entry);
        if code_ok && desc_ok {
            r.push(entry);
        }
        i = i + 1;
    }
    assert(table@.take(table@.len() as int) =~= table@);
    r
}

/// Search the CNAE table by code prefix, description substring, or both.
/// Fails when neither is given.
pub fn execute(code: Option<&str>, description: Option<&str>) -> (r: Result<CnaeLookup, String>)
    ensures
        r is Err <==> (code is None && description is None),
        r matches Err(msg) ==> msg@ == "At least one of 'code' or 'description' must be provided."@,
        r matches Ok(l) ==> {
            &&& l.results@ == cnae_select(cnae_table(), opt_view(code), opt_lower(description))
            &&& l.matches == l.results@.len()
        },
{
    if code.is_none() && description.is_none() {
        return Err(String::from_str("At least one of 'code' or 'description' must be provided."));
    }
    let table = cnae_codes();
    let results = filter_entries(&table, code, description);
    Ok(CnaeLookup { matches: results.len(), results })
}

/// A CNAE search returns exactly the table entries that pass both filters:
/// an entry is in the result if and only if it is in the table and matches.
pub proof fn cnae_selection_exact(entries: Seq<CnaeEntry>, code: Option<Seq<char>>, query: Option<Seq<char>>, e: CnaeEntry)
    ensures
        cnae_select(entries, code, query).contains(e) <==> (entries.contains(e) && cnae_selected(e, code, query)),
        cnae_select(entries, code, query).contains(e) <==> {
            &&& entries.contains(e)
            &&& (code matches Some(c) ==> is_prefix(c, e.code@))
            &&& (query matches Some(q) ==> contains_seq(lowercase(e.description@), q))
        },
    decreases entries.len(),
{
    if entries.len() > 0 {
        let rest = entries.drop_last();
        cnae_selection_exact(rest, code, query, e);
        let prev = cnae_select(rest, code, query);
        assert(entries =~= rest.push(entries.last()));
        if entries.contains(e) {
            let k = choose|k: int| 0 <= k < entries.len() && entries[k] == e;
            if k < rest.len() {
                assert(rest[k] == e);
            }
        }
        if rest.contains(e) {
            let k = choose|k: int| 0 <= k < rest.len() && rest[k] == e;
            assert(entries[k] == e);
        }
        if cnae_selected(entries.last(), code, query) {
            let cur = prev.push(entries.last());
            if cur.contains(e) {
                let k = choose|k: int| 0 <= k < cur.len() && cur[k] == e;
                if k < prev.len() {
                    assert(prev[k] == e);
                }
            }
            if prev.contains(e) {
                let k = choose|k: int| 0 <= k < prev.len() && prev[k] == e;
                assert(cur[k] == e);
            }
            assert(cur[prev.len() as int] == entries.last());
        }
    }
}

/// Searching by code and description at once gives what searching by code
/// and then filtering that result by description gives.
pub proof fn cnae_filters_compose(entries: Seq<CnaeEntry>, code: Option<Seq<char>>, query: Option<Seq<char>>)
    ensures
        cnae_select(entries, code, query) == cnae_select(cnae_select(entries, code, None), None, query),
    decreases entries.len(),
{
    if entries.len() > 0 {
        let rest = entries.drop_last();
        cnae_filters_compose(rest, code, query);
        let by_code = cnae_select(entries, code, None);
        if cnae_selected(entries.last(), code, None) {
            assert(by_code.drop_last() =~= cnae_select(rest, code, None));
        }
    }
}

} // verus!
