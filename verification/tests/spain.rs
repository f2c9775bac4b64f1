use mcp_servers::json::{JsonNumber, JsonValue};
use mcp_servers::spain::aeat;
use mcp_servers::spain::boe;
use mcp_servers::spain::catastro;
use mcp_servers::spain::cnae;
use mcp_servers::spain::dates::{
    compact_day_number, date_stamp, day_number_of, day_text, days_to_date, stamp_of_reading,
    today_day_number, unix_time_seconds,
};
use mcp_servers::spain::verifactu;

fn s(x: &str) -> JsonValue {
    JsonValue::Str(x.to_string())
}

fn num(x: &str) -> JsonValue {
    JsonValue::Number(JsonNumber { repr: x.to_string() })
}

fn arr(xs: Vec<JsonValue>) -> JsonValue {
    JsonValue::Array(xs)
}

fn obj(xs: Vec<(&str, JsonValue)>) -> JsonValue {
    JsonValue::Object(xs.into_iter().map(|(k, v)| (k.to_string(), v)).collect())
}

// ---------------------------------------------------------------------------
// CNAE
// ---------------------------------------------------------------------------

#[test]
fn test_cnae_lookup_by_code() {
    let result = cnae::execute(Some("6201"), None).expect("should succeed");
    assert!(result.matches > 0);
    let first_desc = result.results[0].description.to_lowercase();
    assert!(
        first_desc.contains("programación informática"),
        "expected CNAE 6201 to mention programming, got: {first_desc}",
    );
}

#[test]
fn test_cnae_lookup_by_description() {
    let result = cnae::execute(None, Some("inmobiliaria")).expect("should succeed");
    assert!(result.matches > 0, "expected at least one match for 'inmobiliaria'");
}

#[test]
fn test_cnae_no_match() {
    let result = cnae::execute(Some("9999"), None).expect("should succeed");
    assert_eq!(result.matches, 0, "expected no matches for code 9999");
    assert!(result.results.is_empty(), "expected empty results array");
}

#[test]
fn cnae_requires_a_filter() {
    let err = cnae::execute(None, None).err().expect("should fail");
    assert_eq!(err, "At least one of 'code' or 'description' must be provided.");
}

#[test]
fn cnae_code_prefix_and_description_compose() {
    // Division 68 holds four real-estate entries; "alquiler" keeps one.
    let by_prefix = cnae::execute(Some("68"), None).unwrap();
    assert_eq!(by_prefix.matches, 4);
    assert!(by_prefix.results.iter().all(|e| e.code.starts_with("68")));
    let both = cnae::execute(Some("68"), Some("ALQUILER")).unwrap();
    assert_eq!(both.matches, 1);
    assert_eq!(both.results[0].code, "6820");
    // The combined filter equals filtering the prefix result by description.
    let table = cnae::cnae_codes();
    let step = cnae::filter_entries(&table, Some("68"), None);
    let again = cnae::filter_entries(&step, None, Some("alquiler"));
    assert_eq!(again.len(), 1);
    assert_eq!(again[0].code, "6820");
}

#[test]
fn cnae_description_is_case_insensitive() {
    let lower = cnae::execute(None, Some("inmobiliaria")).unwrap();
    let upper = cnae::execute(None, Some("INMOBILIARIA")).unwrap();
    assert_eq!(lower.matches, upper.matches);
    assert!(lower.results.iter().any(|e| e.code == "4110"));
}

// ---------------------------------------------------------------------------
// AEAT calendar
// ---------------------------------------------------------------------------

#[test]
fn test_aeat_calendar_q1() {
    let cal = aeat::execute(2026, Some(1), None).expect("should succeed");
    assert_eq!(cal.year, 2026);
    assert_eq!(cal.quarter_filter, Some(1));
    assert!(cal.deadlines_count > 0, "expected Q1 deadlines, got 0");
    let has_303 = cal.deadlines.iter().any(|d| d.model == "303");
    assert!(has_303, "Q1 should include model 303 (IVA)");
}

#[test]
fn test_aeat_calendar_filter_by_business_type() {
    let cal = aeat::execute(2026, None, Some("autonomo")).expect("should succeed");
    assert_eq!(cal.business_type_filter.as_deref(), Some("autonomo"));
    assert!(!cal.deadlines.is_empty(), "autonomo should have deadlines");
    for deadline in &cal.deadlines {
        let applicable = deadline
            .applicable_business_types
            .iter()
            .any(|t| *t == "autonomo" || *t == "all");
        assert!(applicable, "deadline model {} should be applicable to autonomo", deadline.model);
    }
    let has_130 = cal.deadlines.iter().any(|d| d.model == "130");
    assert!(has_130, "autonomo filter should include model 130");
}

#[test]
fn aeat_rejects_year_out_of_range() {
    let err = aeat::execute(2031, None, None).err().expect("should fail");
    assert_eq!(err, "Year 2031 is out of supported range (2024-2030). Tax deadlines may vary.");
    let err = aeat::execute(2023, Some(1), None).err().expect("should fail");
    assert_eq!(err, "Year 2023 is out of supported range (2024-2030). Tax deadlines may vary.");
}

#[test]
fn aeat_rejects_bad_quarter() {
    let err = aeat::execute(2026, Some(5), None).err().expect("should fail");
    assert_eq!(err, "Quarter must be 1-4, got 5.");
    let err = aeat::execute(2026, Some(0), None).err().expect("should fail");
    assert_eq!(err, "Quarter must be 1-4, got 0.");
}

#[test]
fn aeat_deadline_dates_are_zero_padded() {
    assert_eq!(aeat::deadline_date(2026, 4, 20), "2026-04-20");
    assert_eq!(aeat::deadline_date(2024, 1, 5), "2024-01-05");
    let cal = aeat::execute(2027, Some(1), None).unwrap();
    assert!(cal.deadlines.iter().all(|d| d.deadline.starts_with("2027-") && d.quarter == 1));
    assert_eq!(cal.deadlines_count, cal.deadlines.len());
}

#[test]
fn aeat_filters_compose() {
    // Every deadline of Q2 for an SL is both a Q2 deadline and an SL deadline.
    let both = aeat::execute(2026, Some(2), Some("SL")).unwrap();
    let q2 = aeat::execute(2026, Some(2), None).unwrap();
    let sl = aeat::execute(2026, None, Some("sl")).unwrap();
    assert!(!both.deadlines.is_empty());
    for d in &both.deadlines {
        assert!(q2.deadlines.iter().any(|x| x.model == d.model && x.deadline == d.deadline));
        assert!(sl.deadlines.iter().any(|x| x.model == d.model && x.deadline == d.deadline));
    }
}

// ---------------------------------------------------------------------------
// Verifactu
// ---------------------------------------------------------------------------

#[test]
fn test_verifactu_sl_not_sii() {
    let r = verifactu::execute("sl", None);
    assert!(r.applicable);
    assert!(!r.sii_enrolled);
    let deadline = r.deadline.expect("deadline should be present");
    assert!(deadline.contains("2027"), "SL deadline should be in 2027, got: {deadline}");
}

#[test]
fn test_verifactu_sii_enrolled_exempt() {
    let r = verifactu::execute("sl", Some(true));
    assert!(!r.applicable, "SII-enrolled businesses should be exempt from Verifactu");
    assert!(r.sii_enrolled);
    assert!(r.deadline.is_none(), "exempt businesses should have no deadline");
    assert!(r.requirements.is_empty());
    assert_eq!(r.documentation_urls.len(), 1);
}

#[test]
fn verifactu_autonomo_deadline_is_2028() {
    let r = verifactu::execute("Autonomo", Some(false));
    assert!(r.applicable);
    assert_eq!(r.business_type, "autonomo");
    assert_eq!(r.deadline, Some("2028-01-01"));
    assert_eq!(r.sii_status, "Not enrolled in SII — Verifactu compliance is mandatory.");
    assert_eq!(r.documentation_urls.len(), 3);
    assert!(!r.requirements.is_empty());
}

#[test]
fn verifactu_unknown_type_assumes_irpf_deadline() {
    let r = verifactu::execute("fundacion", None);
    assert_eq!(r.deadline, Some("2028-01-01"));
    assert!(r.requirements.iter().any(|q| q.contains("Unknown business type")));
    let sa = verifactu::execute("SA", None);
    assert_eq!(sa.deadline, Some("2027-07-01"));
}

// ---------------------------------------------------------------------------
// BOE
// ---------------------------------------------------------------------------

fn boe_sample() -> JsonValue {
    let item = |id: &str, title: &str, pdf: &str| {
        obj(vec![("@id", s(id)), ("titulo", s(title)), ("urlPdf", s(pdf))])
    };
    obj(vec![(
        "data",
        obj(vec![(
            "sumario",
            obj(vec![(
                "diario",
                arr(vec![obj(vec![(
                    "seccion",
                    arr(vec![obj(vec![
                        ("@nombre", s("I. Disposiciones generales")),
                        (
                            "departamento",
                            obj(vec![
                                ("@nombre", s("Ministerio de Hacienda")),
                                (
                                    "epigrafe",
                                    obj(vec![(
                                        "item",
                                        arr(vec![
                                            item(
                                                "BOE-A-2026-1234",
                                                "Resolución sobre impuestos especiales y fiscalidad",
                                                "/boe/dias/2026/03/23/pdfs/BOE-A-2026-1234.pdf",
                                            ),
                                            item(
                                                "BOE-A-2026-1235",
                                                "Orden sobre regulación de mercados financieros",
                                                "/boe/dias/2026/03/23/pdfs/BOE-A-2026-1235.pdf",
                                            ),
                                        ]),
                                    )]),
                                ),
                            ]),
                        ),
                    ])]),
                )])]),
            )]),
        )]),
    )])
}

#[test]
fn test_boe_search_with_mock() {
    assert!(boe::check_keywords("impuestos").is_ok());
    // Today is 2026-03-23 (day 20535), so the range ends on the start day.
    let days = boe::search_days(Some("20260323"), None, 20535).unwrap();
    assert_eq!(days, vec!["20260323".to_string()]);
    let summaries = vec![Some(boe_sample())];
    let result = boe::search_result(&summaries, &days, "impuestos", Some("20260323"), None, None, None);
    assert!(result.results_count > 0, "expected at least one BOE document match");
    let first_title = &result.documents[0].title;
    assert!(
        first_title.to_lowercase().contains("impuestos"),
        "first document should match keyword 'impuestos', got: {first_title}",
    );
    assert!(!result.documents[0].identifier.is_empty(), "document should have an identifier");
    assert!(!result.documents[0].pdf_url.is_empty(), "document should have a PDF URL");
}

#[test]
fn boe_range_search_goes_day_by_day() {
    let days = boe::search_days(Some("2026-03-21"), Some("20260323"), 0).unwrap();
    assert_eq!(days, vec!["20260321".to_string(), "20260322".to_string(), "20260323".to_string()]);
    // No bulletin on the 22nd; the same summary published on the 21st and the 23rd.
    let summaries = vec![Some(boe_sample()), None, Some(boe_sample())];
    let result = boe::search_result(&summaries, &days, "sobre", Some("2026-03-21"), Some("20260323"), None, None);
    assert_eq!(result.results_count, 4);
    let dates: Vec<&str> = result.documents.iter().map(|d| d.publication_date.as_str()).collect();
    assert_eq!(dates, vec!["20260321", "20260321", "20260323", "20260323"]);
    assert_eq!(result.date_from.as_deref(), Some("2026-03-21"));
    assert_eq!(result.date_to.as_deref(), Some("20260323"));
}

#[test]
fn boe_default_range_is_the_last_30_days() {
    // Day 20535 is 2026-03-23.
    let days = boe::search_days(None, None, 20535).unwrap();
    assert_eq!(days.len(), 30);
    assert_eq!(days[0], "20260222");
    assert_eq!(days[29], "20260323");
    let from_only = boe::search_days(Some("20260320"), None, 20535).unwrap();
    assert_eq!(from_only, vec!["20260320", "20260321", "20260322", "20260323"]);
    let to_only = boe::search_days(None, Some("20240301"), 20535).unwrap();
    assert_eq!(to_only.len(), 30);
    assert_eq!(to_only[0], "20240201");
    assert_eq!(to_only[29], "20240301");
    let early = boe::search_days(None, None, 3).unwrap();
    assert_eq!(early, vec!["19700101", "19700102", "19700103", "19700104"]);
}

#[test]
fn boe_range_dates_are_checked() {
    assert_eq!(
        boe::search_days(Some("2026-02-30"), None, 20535).err().unwrap(),
        "Invalid date '2026-02-30'. Use YYYYMMDD or YYYY-MM-DD."
    );
    assert_eq!(
        boe::search_days(Some("20260101"), Some("tomorrow"), 20535).err().unwrap(),
        "Invalid date 'tomorrow'. Use YYYYMMDD or YYYY-MM-DD."
    );
    assert_eq!(
        boe::search_days(Some("x"), Some("y"), 20535).err().unwrap(),
        "Invalid date 'x'. Use YYYYMMDD or YYYY-MM-DD."
    );
    assert!(boe::search_days(Some("19691231"), None, 20535).is_err());
    assert!(boe::search_days(Some("20260324"), Some("20260323"), 20535).unwrap().is_empty());
}

#[test]
fn boe_documents_carry_their_context() {
    let summary = boe_sample();
    let docs = boe::search_summary(&summary, "IMPUESTOS fiscalidad", None, None, "20260323");
    assert_eq!(docs.len(), 1);
    let d = &docs[0];
    assert_eq!(d.identifier, "BOE-A-2026-1234");
    assert_eq!(d.pdf_url, "https://boe.es/boe/dias/2026/03/23/pdfs/BOE-A-2026-1234.pdf");
    assert_eq!(d.section, "I. Disposiciones generales");
    assert_eq!(d.department, "Ministerio de Hacienda");
    assert_eq!(d.publication_date, "20260323");
    assert_eq!(d.summary, d.title);
}

#[test]
fn boe_every_keyword_must_occur() {
    let summary = boe_sample();
    assert!(boe::search_summary(&summary, "impuestos mercados", None, None, "20260323").is_empty());
    let both = boe::search_summary(&summary, "sobre", None, None, "20260323");
    assert_eq!(both.len(), 2);
    assert_eq!(both[0].identifier, "BOE-A-2026-1234");
    assert_eq!(both[1].identifier, "BOE-A-2026-1235");
}

#[test]
fn boe_section_and_department_filters() {
    let summary = boe_sample();
    assert_eq!(boe::search_summary(&summary, "sobre", Some("disposiciones"), None, "d").len(), 2);
    assert!(boe::search_summary(&summary, "sobre", Some("III. Otras"), None, "d").is_empty());
    assert_eq!(boe::search_summary(&summary, "sobre", None, Some("HACIENDA"), "d").len(), 2);
    assert!(boe::search_summary(&summary, "sobre", None, Some("Defensa"), "d").is_empty());
}

#[test]
fn boe_blank_keywords_are_refused() {
    assert_eq!(boe::check_keywords("   ").err().unwrap(), "Keywords must not be empty.");
    assert_eq!(boe::check_keywords("").err().unwrap(), "Keywords must not be empty.");
}

#[test]
fn boe_dates_and_keys() {
    assert_eq!(boe::summary_url("https://boe.es/datosabiertos/api", "20260323"),
        "https://boe.es/datosabiertos/api/boe/sumario/20260323");
    assert_eq!(boe::cache_key("iva", Some("20260101"), None, None, Some("Hacienda")),
        "boe:iva:20260101:::Hacienda");
}

// ---------------------------------------------------------------------------
// Catastro
// ---------------------------------------------------------------------------

#[test]
fn catastro_detail_answer() {
    let body = obj(vec![(
        "bico",
        obj(vec![(
            "bi",
            obj(vec![
                ("ldt", s("CL MAYOR 1 MADRID")),
                ("debi", obj(vec![("luso", s("Residencial")), ("sfc", s("120")), ("ant", s("1995"))])),
            ]),
        )]),
    )]);
    let ans = catastro::reference_answer(&body, "9872023VH5797S0001WX");
    assert_eq!(ans.results_count, 1);
    let p = &ans.properties[0];
    assert_eq!(p.reference, "9872023VH5797S0001WX");
    assert_eq!(p.address, "CL MAYOR 1 MADRID");
    assert_eq!(p.use_type, "Residencial");
    assert_eq!(p.area_text.as_deref(), Some("120"));
    assert_eq!(p.construction_year.as_deref(), Some("1995"));
}

#[test]
fn catastro_listing_answer() {
    let item = |a: &str, b: &str, addr: &str| {
        obj(vec![
            ("rc", obj(vec![("pc1", s(a)), ("pc2", s(b))])),
            ("dt", obj(vec![("ldt", s(addr))])),
        ])
    };
    let body = obj(vec![(
        "consulta_dnplocResult",
        obj(vec![(
            "lrcdnp",
            obj(vec![(
                "rcdnp",
                arr(vec![item("9872023", "VH5797S", "CL MAYOR 1"), obj(vec![("dt", obj(vec![]))])]),
            )]),
        )]),
    )]);
    let ans = catastro::address_answer(&body, "MADRID", "MADRID", "MAYOR", "1");
    assert_eq!(ans.results_count, 2);
    assert_eq!(ans.properties[0].reference, "9872023VH5797S");
    assert_eq!(ans.properties[0].address, "CL MAYOR 1");
    assert_eq!(ans.properties[0].use_type, "Ver detalle con referencia catastral completa");
    assert_eq!(ans.properties[1].reference, "");
    assert_eq!(ans.properties[1].address, "");
    assert!(ans.properties[1].area_text.is_none());
}

#[test]
fn catastro_single_listed_item_is_not_an_array() {
    let body = obj(vec![(
        "lrcdnp",
        obj(vec![("rcdnp", obj(vec![("rc", obj(vec![("pc1", s("AB")), ("pc2", s("CD"))]))]))]),
    )]);
    let recs = catastro::parse_catastro_response(&body, "fallback");
    assert_eq!(recs.len(), 1);
    assert_eq!(recs[0].reference, "ABCD");
    let none = catastro::parse_catastro_response(&obj(vec![]), "x");
    assert!(none.is_empty());
}

#[test]
fn catastro_extract_reference() {
    let item = obj(vec![("rc", obj(vec![("pc1", s("12")), ("pc2", s("34"))]))]);
    assert_eq!(catastro::extract_reference(&item).as_deref(), Some("1234"));
    let half = obj(vec![("rc", obj(vec![("pc1", s("12")), ("pc2", num("3"))]))]);
    assert!(catastro::extract_reference(&half).is_none());
}

#[test]
fn catastro_query_plan() {
    let err = catastro::plan_query(None, None, Some("Madrid"), None, None).err().unwrap();
    assert_eq!(
        err,
        "Either 'reference' (cadastral reference) or address fields (province, municipality, street) must be provided."
    );
    match catastro::plan_query(Some("REF"), Some("P"), None, None, None) {
        Ok(catastro::CatastroQuery::ByReference { reference }) => assert_eq!(reference, "REF"),
        _ => panic!("expected a query by reference"),
    }
    for (m, s) in [(None, Some("Mayor")), (Some("Madrid"), None), (None, None)] {
        assert!(catastro::plan_query(None, Some("Madrid"), m, s, Some("1")).is_err());
    }
    assert!(catastro::plan_query(None, None, Some("Madrid"), Some("Mayor"), None).is_err());
    match catastro::plan_query(None, Some("Madrid"), Some("Madrid"), Some("Mayor"), None) {
        Ok(catastro::CatastroQuery::ByAddress { province, municipality, street, number }) => {
            assert_eq!(province, "Madrid");
            assert_eq!(municipality, "Madrid");
            assert_eq!(street, "Mayor");
            assert_eq!(number, "");
        },
        _ => panic!("expected a query by address"),
    }
}

#[test]
fn catastro_urlencoding() {
    assert_eq!(catastro::urlencoded("Gran Vía"), "Gran%20V%C3%ADa");
    assert_eq!(catastro::urlencoded("Peñíscola"), "Pe%C3%B1%C3%ADscola");
    assert_eq!(catastro::urlencoded("abc"), "abc");
    assert_eq!(
        catastro::address_url("https://x", "A Coruña", "b", "c d", "1"),
        "https://x/OVCServWeb/OVCWcfCallejero/COVCCallejero.svc/json/Consulta_DNPLOC?Provincia=A%20Coru%C3%B1a&Municipio=b&Sigla=CL&Calle=c%20d&Numero=1"
    );
    assert_eq!(catastro::reference_cache_key("R1"), "catastro:ref:R1");
    assert_eq!(catastro::address_cache_key("a", "b", "c", "d"), "catastro:addr:a:b:c:d");
}

// ---------------------------------------------------------------------------
// Dates
// ---------------------------------------------------------------------------

#[test]
fn days_to_date_known_values() {
    assert_eq!(days_to_date(0), (1970, 1, 1));
    assert_eq!(days_to_date(31), (1970, 2, 1));
    assert_eq!(days_to_date(59), (1970, 3, 1));
    assert_eq!(days_to_date(365), (1971, 1, 1));
    assert_eq!(days_to_date(11016), (2000, 2, 29));
    assert_eq!(days_to_date(19723), (2024, 1, 1));
    assert_eq!(days_to_date(20535), (2026, 3, 23));
}

#[test]
fn days_to_date_is_injective_on_samples() {
    let mut seen = std::collections::HashSet::new();
    for d in 0..3000u64 {
        assert!(seen.insert(days_to_date(d * 17)));
    }
}

#[test]
fn date_stamp_formats_compactly() {
    assert_eq!(date_stamp(0), "19700101");
    assert_eq!(date_stamp(1_774_224_000), "20260323");
    assert_eq!(date_stamp(1_774_224_000 + 86_399), "20260323");
    assert_eq!(mcp_servers::spain::dates::chrono_today().len(), 8);
}

#[test]
fn compact_dates_read_back() {
    assert_eq!(compact_day_number("19700101"), Some(0));
    assert_eq!(compact_day_number("20260323"), Some(20535));
    assert_eq!(compact_day_number("20000229"), Some(11016));
    assert_eq!(compact_day_number("20010229"), None);
    assert_eq!(compact_day_number("2026032"), None);
    assert_eq!(compact_day_number("2026-03-23"), None);
    assert_eq!(compact_day_number("20261301"), None);
    assert_eq!(compact_day_number("19691231"), None);
    for n in [0u64, 59, 365, 11016, 20535, 2_000_000] {
        assert_eq!(compact_day_number(&day_text(n)), Some(n));
    }
}

#[test]
fn clock_readings() {
    assert_eq!(unix_time_seconds(None), 0);
    assert_eq!(unix_time_seconds(Some(1_774_224_000)), 1_774_224_000);
    assert_eq!(date_stamp(unix_time_seconds(None)), "19700101");
}

#[test]
fn readings_give_days() {
    assert_eq!(day_number_of(None), 0);
    assert_eq!(day_number_of(Some(86_399)), 0);
    assert_eq!(day_number_of(Some(1_774_224_000)), 20535);
    assert_eq!(stamp_of_reading(Some(1_774_224_000 + 86_399)), "20260323");
    assert_eq!(stamp_of_reading(None), "19700101");
    assert!(today_day_number() >= 20535);
}
