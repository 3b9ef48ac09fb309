use converter::decimal::Decimal;
use converter::error::{ConvertError, Side};
use converter::species::{parse_tag, simplify_electrons};
use converter::text::trim_text;
use converter::types::{
    Contributor, Document, Mixture, Parameters, Process, ProcessInfo, Reaction,
    ReferenceRef, ReferenceWithComments, SerializedState, SetHeader, State, StateEntry, LUT,
};

fn num(x: f64) -> Decimal {
    Decimal::from_sci(&format!("{:e}", x)).unwrap()
}

fn sci(x: f64) -> String {
    let mut s = String::new();
    converter::decimal::append_sci(&mut s, &num(x));
    s
}

fn plain(x: f64) -> String {
    let mut s = String::new();
    converter::decimal::append_plain(&mut s, &num(x));
    s
}

fn state(key: &str, summary: &str) -> (String, State) {
    (
        key.to_string(),
        State {
            id: Some(key.to_string()),
            serialized: SerializedState {
                particle: summary.to_string(),
                charge: 0,
                summary: summary.to_string(),
                latex: summary.to_string(),
            },
        },
    )
}

fn entry(count: u32, key: &str) -> StateEntry<String> {
    StateEntry { count, state: key.to_string() }
}

fn states() -> Vec<(String, State)> {
    vec![
        state("electron", "e^-"),
        state("ar", "Ar"),
        state("ar_plus", "Ar^+"),
        state("n2", "N2"),
        state("n2_v1", "N2(v=1)"),
    ]
}

fn info(id: &str, threshold: f64, parameters: Option<Parameters>, is_part_of: Option<Vec<&str>>) -> ProcessInfo {
    ProcessInfo {
        id: id.to_string(),
        parameters,
        comments: None,
        references: vec![],
        threshold: num(threshold),
        is_part_of: is_part_of.map(|v| v.iter().map(|s| s.to_string()).collect()),
        data: LUT {
            labels: ("Energy".to_string(), "Cross Section".to_string()),
            units: ("eV".to_string(), "m^2".to_string()),
            values: vec![(num(1.0e1), num(2.0e-16))],
        },
    }
}

fn ionization(infos: Vec<ProcessInfo>) -> Process {
    Process {
        reaction: Reaction {
            lhs: vec![entry(1, "electron"), entry(1, "ar")],
            rhs: vec![entry(2, "electron"), entry(1, "ar_plus")],
            reversible: false,
            type_tags: vec!["Ionization".to_string()],
        },
        info: infos,
    }
}

fn elastic(infos: Vec<ProcessInfo>) -> Process {
    Process {
        reaction: Reaction {
            lhs: vec![entry(1, "electron"), entry(1, "n2")],
            rhs: vec![entry(1, "electron"), entry(1, "n2")],
            reversible: false,
            type_tags: vec!["Elastic".to_string()],
        },
        info: infos,
    }
}

fn vibrational(reversible: bool, infos: Vec<ProcessInfo>) -> Process {
    Process {
        reaction: Reaction {
            lhs: vec![entry(1, "electron"), entry(1, "n2")],
            rhs: vec![entry(1, "electron"), entry(1, "n2_v1")],
            reversible,
            type_tags: vec!["Vibrational".to_string()],
        },
        info: infos,
    }
}

fn contributor(name: &str) -> Contributor {
    Contributor {
        name: name.to_string(),
        description: String::new(),
        contact: String::new(),
        how_to_reference: String::new(),
    }
}

fn document(processes: Vec<Process>, complete: bool) -> Document {
    Document {
        name: "Test".to_string(),
        contributor: contributor("TestDB"),
        description: "A test set".to_string(),
        complete,
        processes,
        states: states(),
        references: vec![
            ("ref1".to_string(), "  Some paper (2020).  ".to_string()),
            ("ref2".to_string(), "Another paper.".to_string()),
        ],
        url: "https://example.org/set".to_string(),
        terms_of_use: "Be nice.".to_string(),
    }
}

fn block_of(text: &str) -> &str {
    let start = text.find("\n\n\n").unwrap() + 2;
    let end = text.len() - 120;
    &text[start..end]
}

#[test]
fn ionization_example_block() {
    let doc = document(vec![ionization(vec![info("ion", 15.76, None, None)])], false);
    let text = doc.into_legacy().unwrap();
    let block = block_of(&text);
    let expected = "\nIONIZATION\nAr -> Ar^+\n 1.576000e1\nSPECIES: e / Ar\nPROCESS: e + Ar -> e + e + Ar^+, Ionization\nPARAM.:  E = 15.76 eV\nCOLUMNS: Energy (eV) | Cross Section (m^2)\n-----------------------------\n 1.000000e1\t2.000000e-16\n-----------------------------\n";
    assert_eq!(block, expected);
}

#[test]
fn elastic_example_block() {
    let params = Parameters { mass_ratio: Some(num(0.0000196)), statistical_weight_ratio: None };
    let doc = document(vec![elastic(vec![info("el", 0.0, Some(params), None)])], false);
    let text = doc.into_legacy().unwrap();
    let lines: Vec<&str> = block_of(&text).lines().collect();
    assert_eq!(lines[1], "ELASTIC");
    assert_eq!(lines[2], "N2");
    assert_eq!(lines[3], " 1.960000e-5");
    assert_eq!(lines[5], "PROCESS: e + N2 -> e + N2, Elastic");
    assert_eq!(lines[6], "PARAM.:  m/M = 1.960000e-5");
}

#[test]
fn whole_document_layout() {
    let doc = document(vec![ionization(vec![info("ion", 15.76, None, None)])], true);
    let text = doc.into_legacy().unwrap();
    let end = "x".repeat(120);
    let head = format!(
        "PERMLINK:     https://example.org/set\nTERMS OF USE: Be nice.\n\n{}\nDATABASE:         TestDB\nDESCRIPTION:      A test set\n{}\n\n",
        end, end
    );
    assert!(text.starts_with(&head));
    assert!(text.ends_with(&format!("-----------------------------\n{}", end)));
    assert!(text.contains("PARAM.:  E = 15.76 eV, complete set\n"));
}

#[test]
fn missing_mass_ratio_is_an_error() {
    let doc = document(vec![elastic(vec![info("el1", 0.0, None, None)])], false);
    match doc.into_legacy() {
        Err(ConvertError::MissingMassRatio(id)) => assert_eq!(id, "el1"),
        other => panic!("unexpected {:?}", other),
    }
    let params = Parameters { mass_ratio: None, statistical_weight_ratio: Some(num(2.0)) };
    let doc = document(vec![elastic(vec![info("el2", 0.0, Some(params), None)])], false);
    match doc.into_legacy() {
        Err(ConvertError::MissingMassRatio(id)) => assert_eq!(id, "el2"),
        other => panic!("unexpected {:?}", other),
    }
}

#[test]
fn electrons_only_side_is_an_error() {
    let mut p = ionization(vec![info("ion", 15.76, None, None)]);
    p.reaction.rhs = vec![entry(2, "electron")];
    match document(vec![p], false).into_legacy() {
        Err(ConvertError::ZeroSignificantSpecies(side)) => assert_eq!(side, Side::Rhs),
        other => panic!("unexpected {:?}", other),
    }
    let mut p = ionization(vec![info("ion", 15.76, None, None)]);
    p.reaction.lhs = vec![entry(1, "electron")];
    match document(vec![p], false).into_legacy() {
        Err(ConvertError::ZeroSignificantSpecies(side)) => assert_eq!(side, Side::Lhs),
        other => panic!("unexpected {:?}", other),
    }
}

#[test]
fn unknown_reference_is_an_error() {
    let mut i = info("ion", 15.76, None, None);
    i.references = vec![ReferenceRef::Id("nowhere".to_string())];
    match document(vec![ionization(vec![i])], false).into_legacy() {
        Err(ConvertError::UnresolvedReference(k)) => assert_eq!(k, "nowhere"),
        other => panic!("unexpected {:?}", other),
    }
}

#[test]
fn unknown_state_is_an_error() {
    let mut p = ionization(vec![info("ion", 15.76, None, None)]);
    p.reaction.rhs.push(entry(1, "kr"));
    match document(vec![p], false).into_legacy() {
        Err(ConvertError::UnknownState(k)) => assert_eq!(k, "kr"),
        other => panic!("unexpected {:?}", other),
    }
}

#[test]
fn error_messages() {
    assert_eq!(
        ConvertError::MissingMassRatio("a1".to_string()).message(),
        "Missing mass ratio for Elastic or Effective cross section: a1."
    );
    assert_eq!(
        ConvertError::ZeroSignificantSpecies(Side::Lhs).message(),
        "Zero significant species found on lhs of reaction."
    );
    assert_eq!(ConvertError::UnresolvedReference("r".to_string()).message(), "Unknown reference: r.");
    assert_eq!(ConvertError::UnknownState("s".to_string()).message(), "Unknown state: s.");
}

#[test]
fn comments_and_references_are_trimmed_in_order() {
    let mut i = info("ion", 15.76, None, None);
    i.comments = Some(vec!["  first note ".to_string(), "\tsecond\n".to_string()]);
    i.references = vec![
        ReferenceRef::Id("ref1".to_string()),
        ReferenceRef::WithComment(ReferenceWithComments {
            id: "ref2".to_string(),
            comments: vec![" extra ".to_string()],
        }),
    ];
    let text = document(vec![ionization(vec![i])], false).into_legacy().unwrap();
    assert!(text.contains(
        "PARAM.:  E = 15.76 eV\nCOMMENT: first note\nCOMMENT: second\nCOMMENT: Some paper (2020).\nCOMMENT: Another paper.\nCOMMENT: extra\nCOLUMNS:"
    ));
}

#[test]
fn irreversible_reaction_has_no_weight_ratio() {
    let params = Parameters { mass_ratio: None, statistical_weight_ratio: Some(num(3.0)) };
    let text = document(vec![vibrational(false, vec![info("v", 0.29, Some(params), None)])], false)
        .into_legacy()
        .unwrap();
    assert!(!text.contains("g1/g0"));
    assert!(text.contains("PROCESS: e + N2 -> e + N2(v=1), Excitation\nPARAM.:  E = 0.29 eV\n"));
}

#[test]
fn reversible_reaction_shows_weight_ratio_once() {
    let params = Parameters { mass_ratio: None, statistical_weight_ratio: Some(num(3.0)) };
    let text = document(vec![vibrational(true, vec![info("v", 0.29, Some(params), None)])], true)
        .into_legacy()
        .unwrap();
    assert_eq!(text.matches("g1/g0").count(), 1);
    assert!(text.contains("PROCESS: e + N2 <-> e + N2(v=1), Excitation\nPARAM.:  E = 0.29 eV, g1/g0 = 3, complete set\n"));
    let text = document(vec![vibrational(true, vec![info("v", 0.29, None, None)])], false)
        .into_legacy()
        .unwrap();
    assert!(!text.contains("g1/g0"));
}

#[test]
fn blocks_keep_input_order() {
    let doc = document(
        vec![
            ionization(vec![info("a", 15.76, None, None), info("b", 16.5, None, None)]),
            vibrational(false, vec![info("c", 0.29, None, None)]),
        ],
        false,
    );
    let text = doc.into_legacy().unwrap();
    let a = text.find("E = 15.76 eV").unwrap();
    let b = text.find("E = 16.5 eV").unwrap();
    let c = text.find("E = 0.29 eV").unwrap();
    assert!(a < b && b < c);
    assert_eq!(text.matches("\nIONIZATION\n").count(), 2);
}

#[test]
fn rendering_twice_gives_the_same_text() {
    let make = || document(
        vec![
            ionization(vec![info("a", 15.76, None, None)]),
            vibrational(true, vec![info("c", 0.29, None, None)]),
        ],
        true,
    );
    assert_eq!(make().into_legacy().unwrap(), make().into_legacy().unwrap());
}

fn mixture(processes: Vec<Process>) -> Mixture {
    let header = |name: &str, complete: bool| SetHeader {
        name: name.to_string(),
        description: format!("{} description", name),
        complete,
        contributor: contributor(name),
    };
    Mixture {
        sets: vec![("s1".to_string(), header("One", true)), ("s2".to_string(), header("Two", false))],
        processes,
        states: states(),
        references: vec![],
        url: "https://example.org/mix".to_string(),
        terms_of_use: "Be nice.".to_string(),
    }
}

#[test]
fn mixture_groups_processes_by_set() {
    let mix = mixture(vec![
        ionization(vec![info("both", 15.76, None, Some(vec!["s1", "s2"]))]),
        ionization(vec![info("one", 16.5, None, Some(vec!["s1"])), info("one_b", 17.5, None, Some(vec!["s1", "s2"]))]),
        ionization(vec![info("partial", 18.5, None, Some(vec!["s2"])), info("none", 19.5, None, None)]),
    ]);
    let text = mix.into_legacy().unwrap();
    let end = "x".repeat(120);
    assert!(text.starts_with("PERMLINK:     https://example.org/mix\nTERMS OF USE: Be nice.\n\n"));
    let two = text.find("DATABASE:         Two").unwrap();
    let (first, second) = text.split_at(two);
    assert!(first.contains("DATABASE:         One\nDESCRIPTION:      One description\n"));
    assert!(first.contains("E = 15.76 eV, complete set"));
    assert!(first.contains("E = 16.5 eV, complete set"));
    assert!(first.contains("E = 17.5 eV, complete set"));
    assert!(!first.contains("E = 18.5"));
    assert!(second.contains("E = 15.76 eV\n"));
    assert!(!second.contains("E = 16.5"));
    assert!(!second.contains("E = 17.5"));
    assert!(!second.contains("E = 18.5"));
    assert!(text.ends_with(&end));
}

#[test]
fn electron_is_shown_as_e_everywhere() {
    let text = document(vec![ionization(vec![info("ion", 15.76, None, None)])], false)
        .into_legacy()
        .unwrap();
    assert!(!text.contains("e^-"));
    assert_eq!(simplify_electrons(&"e^-".to_string()), "e");
    assert_eq!(simplify_electrons(&"Ar".to_string()), "Ar");
}

#[test]
fn excitation_tags_are_merged() {
    for (tag, shown) in [
        ("Electronic", "Excitation"),
        ("Vibrational", "Excitation"),
        ("Rotational", "Excitation"),
        ("Attachment", "Attachment"),
        ("Elastic", "Elastic"),
    ] {
        assert_eq!(parse_tag(&[tag.to_string(), "Other".to_string()]), shown);
    }
}

#[test]
fn repeated_species_in_formula_and_summary() {
    let mut p = ionization(vec![info("ion", 15.76, None, None)]);
    p.reaction.lhs = vec![entry(1, "electron"), entry(2, "ar")];
    p.reaction.rhs = vec![entry(1, "ar"), entry(1, "ar_plus"), entry(2, "electron")];
    let text = document(vec![p], false).into_legacy().unwrap();
    assert!(text.contains("\nAr -> Ar + Ar^+\n"));
    assert!(text.contains("\nSPECIES: e / Ar\n"));
    assert!(text.contains("\nPROCESS: e + Ar + Ar -> Ar + Ar^+ + e + e, Ionization\n"));
}

#[test]
fn scientific_notation_matches_float_formatting() {
    for x in [
        15.76, 2.0e-16, 1.0e1, 0.0, -0.0, 1.0, -2.5, 0.0000196, 1.2345675e10, 12345665.0,
        12345675.0, 9.9999995e-3, 9999999.5, 1.7976931348623157e308, 2.2250738585072014e-308,
        123456789.0,
        0.1, 1.0 / 3.0, 2.0 / 3.0, -1.5e-7,
    ] {
        assert_eq!(sci(x), format!("{:.6e}", x), "value {:e}", x);
    }
    assert_eq!(sci(15.76), "1.576000e1");
    assert_eq!(sci(0.0), "0.000000e0");
}

#[test]
fn plain_notation_matches_float_formatting() {
    for x in [15.76, 0.0000196, 2000.0, 0.0, -0.0, 1.0, -2.5, 1e21, 1e-7, 123.456, 0.29, 3.0] {
        assert_eq!(plain(x), format!("{}", x), "value {:e}", x);
    }
    assert_eq!(plain(0.0000196), "0.0000196");
}

#[test]
fn decimal_reading() {
    let d = Decimal::from_sci("1.576e1").unwrap();
    assert_eq!(d, Decimal { negative: false, mantissa: 1576, exponent: -2 });
    assert_eq!(Decimal::from_sci("-2e-16").unwrap(), Decimal { negative: true, mantissa: 2, exponent: -16 });
    assert_eq!(Decimal::from_sci("0e0").unwrap(), Decimal { negative: false, mantissa: 0, exponent: 0 });
    assert!(Decimal::from_sci("1.50e1").is_none());
    assert!(Decimal::from_sci("abc").is_none());
    assert!(Decimal::from_sci("").is_none());
    assert!(Decimal::from_sci("15.76").is_none());
}

#[test]
fn trimming_white_space() {
    assert_eq!(trim_text("  a b \t\n"), "a b");
    assert_eq!(trim_text("\u{3000}x\u{a0}"), "x");
    assert_eq!(trim_text("   "), "");
    assert_eq!(trim_text(""), "");
}
