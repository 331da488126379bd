use azure_core_diag::report::{
    find_row, find_size, gate_line, gate_md, gate_terms, happy_path_md, happy_terms,
    multipliers_md, results_csv, results_md_table, sample_file_name, size_lines, BenchRow,
    GateLine, HappyCosts, HappyTerms,
};

fn row(combo: &str, scenario: &str, mode: &str, bytes: usize) -> BenchRow<f64> {
    BenchRow {
        combo: combo.to_string(),
        scenario: scenario.to_string(),
        mode: mode.to_string(),
        collect_ns: 100.0,
        construct_ns: 50.0,
        serialize_ns: 200.0,
        decode_ns: 0.0,
        discard_ns: 0.0,
        output_bytes: bytes,
    }
}

fn with_decimals(r: &BenchRow<f64>, decimals: usize) -> BenchRow<String> {
    BenchRow {
        combo: r.combo.clone(),
        scenario: r.scenario.clone(),
        mode: r.mode.clone(),
        collect_ns: format!("{:.*}", decimals, r.collect_ns),
        construct_ns: format!("{:.*}", decimals, r.construct_ns),
        serialize_ns: format!("{:.*}", decimals, r.serialize_ns),
        decode_ns: format!("{:.*}", decimals, r.decode_ns),
        discard_ns: format!("{:.*}", decimals, r.discard_ns),
        output_bytes: r.output_bytes,
    }
}

#[test]
fn csv_and_md_render() {
    let rows = vec![row("combo3", "S1", "default", 512)];
    let md = results_md_table(&vec![with_decimals(&rows[0], 0)]);
    assert!(md.contains("combo3"));
    assert!(md.contains("| 512 |"));

    let csv = results_csv(&vec![with_decimals(&rows[0], 1)]);
    assert!(csv.starts_with("combo,scenario,mode,"));
    assert!(csv.contains("combo3,S1,default,"));
}

#[test]
fn whole_tables() {
    let rows = vec![
        row("combo3", "S1", "json", 512),
        row("combo1", "S1", "binary", 7),
    ];
    let csv = results_csv(&rows.iter().map(|r| with_decimals(r, 1)).collect());
    assert_eq!(
        csv,
        "combo,scenario,mode,collect_ns,construct_ns,serialize_ns,decode_ns,discard_ns,output_bytes\n\
         combo3,S1,json,100.0,50.0,200.0,0.0,0.0,512\n\
         combo1,S1,binary,100.0,50.0,200.0,0.0,0.0,7\n"
    );
    let md = results_md_table(&rows.iter().map(|r| with_decimals(r, 0)).collect());
    assert_eq!(
        md,
        "| Combo | Scenario | Mode | collect ns | construct ns | serialize ns | decode ns | discard ns | bytes |\n\
         |---|---|---|--:|--:|--:|--:|--:|--:|\n\
         | combo3 | S1 | json | 100 | 50 | 200 | 0 | 0 | 512 |\n\
         | combo1 | S1 | binary | 100 | 50 | 200 | 0 | 0 | 7 |\n"
    );
}

#[test]
fn the_first_row_is_found() {
    let rows = vec![
        row("combo4", "S1", "summary", 1),
        row("combo4", "S2", "summary", 2),
        row("combo4", "S2", "summary", 3),
    ];
    assert_eq!(find_row(&rows, "S2", "combo4", "summary"), Some(1));
    assert_eq!(find_row(&rows, "S2", "combo4", "detailed"), None);
    assert_eq!(find_row(&rows, "S3", "combo4", "summary"), None);
    assert_eq!(find_size(&rows, "S2", "combo4", "summary"), 2);
    assert_eq!(find_size(&rows, "S2", "combo3", "summary"), 0);
}

#[test]
fn sizes_come_in_the_order_of_the_scenarios() {
    let rows = vec![
        row("combo3", "S4x25", "json", 4000),
        row("combo3", "S1", "json", 1000),
        row("combo1", "S1", "binary", 250),
        row("combo2", "S1", "summary", 300),
        row("combo2", "S1", "detailed", 260),
        row("combo1", "S9", "binary", 5),
        row("combo3", "S1", "json", 1100),
    ];
    let lines = size_lines(&rows);
    assert_eq!(lines.len(), 2);
    assert_eq!(lines[0].scenario, "S1");
    assert_eq!(lines[0].eager_json, 1100);
    assert_eq!(lines[0].arena_binary, 250);
    assert_eq!(lines[0].tiered_summary, 300);
    assert_eq!(lines[0].tiered_detailed, 260);
    assert_eq!(lines[1].scenario, "S4x25");
    assert_eq!(lines[1].arena_binary, 0);
    let md = multipliers_md(
        &lines,
        &vec!["4.4".to_string(), "0.0".to_string()],
        &vec!["3.7".to_string(), "0.0".to_string()],
    );
    assert!(md.starts_with("## Output size & reduction vs Combo 3 JSON\n\n| Scenario |"));
    assert!(md.ends_with(
        "|---|--:|--:|--:|--:|--:|--:|\n\
         | S1 | 1100 | 250 | 300 | 260 | 4.4× | 3.7× |\n\
         | S4x25 | 4000 | 0 | 0 | 0 | 0.0× | 0.0× |\n"
    ));
}

#[test]
fn happy_path_lines() {
    let costs = HappyCosts {
        eager: Some("900".to_string()),
        arena: Some(("120".to_string(), "20".to_string())),
        tiered: None,
        gated: Some(("60".to_string(), "50".to_string(), "10".to_string())),
    };
    let md = happy_path_md(&costs);
    assert!(md.starts_with("\n## Happy-path overhead (S1, success)\n\nOn success, Combo 1 drops"));
    assert!(md.ends_with(
        "|---|--:|---|\n\
         | Combo 3 (eager) | 900 | collect+construct+serialize, always |\n\
         | Combo 1 (arena, drop on success) | 120 | collect + free drop (20 ns); no serialize |\n\
         | Combo 4 (gated, dropped) | 60 | collect (50) + return to pool (10); **built nothing** |\n"
    ));
    let tiered = happy_path_md(&HappyCosts {
        eager: None,
        arena: None,
        tiered: Some("70".to_string()),
        gated: None,
    });
    assert!(tiered.ends_with(
        "|---|--:|---|\n| Combo 2 (summary default) | 70 | collect+reduce+summary JSON |\n"
    ));
}

#[test]
fn decision_lines() {
    let lines = vec![
        GateLine {
            scenario: "S1".to_string(),
            built: false,
            collect: "10".to_string(),
            discard: "2".to_string(),
            build: "30".to_string(),
            summary_bytes: 400,
            detailed_bytes: 350,
        },
        GateLine {
            scenario: "S3".to_string(),
            built: true,
            collect: "11".to_string(),
            discard: "3".to_string(),
            build: "31".to_string(),
            summary_bytes: 401,
            detailed_bytes: 351,
        },
    ];
    let md = gate_md(&lines);
    assert!(md.starts_with(
        "\n## Combo 4 — the diagnostics gate in action (policy: build on error OR > 5 ms)\n\n\
         Hot-path `collect` is paid always; everything else only when the policy says build.\n\n\
         | Scenario | Gate decision | collect ns | if dropped: +discard ns | \
         if built: +construct+serialize ns | summary bytes | detailed bytes |\n"
    ));
    assert!(md.ends_with(
        "|---|---|--:|--:|--:|--:|--:|\n\
         | S1 | drop (free) | 10 | 2 | 30 | 400 | 350 |\n\
         | S3 | **build** | 11 | 3 | 31 | 401 | 351 |\n"
    ));
}

#[test]
fn sample_names() {
    assert_eq!(sample_file_name("S1", "decoded.json"), "S1.decoded.json");
}

fn measured(combo: &str, scenario: &str, mode: &str, collect_ns: f64) -> BenchRow<f64> {
    BenchRow {
        collect_ns,
        decode_ns: 7.0,
        discard_ns: 20.0,
        ..row(combo, scenario, mode, 9)
    }
}

fn costs_of(t: &HappyTerms<f64>) -> HappyCosts {
    let whole = |(a, b, c): (f64, f64, f64)| format!("{:.0}", a + b + c);
    HappyCosts {
        eager: t.eager.map(whole),
        arena: t
            .arena
            .map(|(c, d)| (format!("{:.0}", c + d), format!("{d:.0}"))),
        tiered: t.tiered.map(whole),
        gated: t.gated.map(|(c, d)| {
            (
                format!("{:.0}", c + d),
                format!("{c:.0}"),
                format!("{d:.0}"),
            )
        }),
    }
}

#[test]
fn the_happy_path_is_the_single_success() {
    let rows = vec![
        measured("combo1", "S2", "binary", 900.0),
        measured("combo1", "S1", "binary", 100.0),
    ];
    let terms = happy_terms(&rows);
    assert_eq!(terms.arena, Some((100.0, 20.0)));
    assert_eq!(terms.eager, None);
    assert_eq!(terms.tiered, None);
    assert_eq!(terms.gated, None);
    let md = happy_path_md(&costs_of(&terms));
    assert!(md.contains(
        "| Combo 1 (arena, drop on success) | 120 | collect + free drop (20 ns); no serialize |"
    ));
    assert!(!md.contains("| Combo 3 (eager)"));
    assert!(!md.contains("| Combo 2 (summary"));
    assert!(!md.contains("| Combo 4 (gated"));
}

#[test]
fn every_design_counts_its_own_terms_on_success() {
    let rows = vec![
        measured("combo3", "S1", "json", 1.0),
        measured("combo1", "S1", "binary", 2.0),
        measured("combo2", "S1", "detailed", 3.0),
        measured("combo2", "S1", "summary", 4.0),
        measured("combo4", "S1", "summary", 5.0),
        measured("combo4", "S1", "dropped", 6.0),
        measured("combo4", "S1", "dropped", 8.0),
    ];
    let terms = happy_terms(&rows);
    assert_eq!(terms.eager, Some((1.0, 50.0, 200.0)));
    assert_eq!(terms.arena, Some((2.0, 20.0)));
    assert_eq!(terms.tiered, Some((4.0, 50.0, 200.0)));
    assert_eq!(terms.gated, Some((6.0, 20.0)));
    let md = happy_path_md(&costs_of(&terms));
    assert!(md.ends_with(
        "|---|--:|---|\n\
         | Combo 3 (eager) | 251 | collect+construct+serialize, always |\n\
         | Combo 1 (arena, drop on success) | 22 | collect + free drop (20 ns); no serialize |\n\
         | Combo 2 (summary default) | 254 | collect+reduce+summary JSON |\n\
         | Combo 4 (gated, dropped) | 26 | collect (6) + return to pool (20); **built nothing** |\n"
    ));
}

#[test]
fn a_decision_counts_the_rows_of_its_scenario() {
    let mut rows = vec![
        measured("combo4", "S1", "dropped", 1.0),
        measured("combo4", "S2", "summary", 2.0),
        measured("combo2", "S2", "summary", 3.0),
        measured("combo4", "S2", "detailed", 4.0),
        measured("combo4", "S2", "dropped", 5.0),
    ];
    rows[1].output_bytes = 400;
    rows[3].output_bytes = 350;
    assert_eq!(
        gate_terms(&rows, "S2"),
        (Some((5.0, 20.0)), Some((50.0, 200.0)))
    );
    assert_eq!(gate_terms(&rows, "S1"), (Some((1.0, 20.0)), None));
    assert_eq!(gate_terms(&rows, "S3"), (None, None));
    let text = |s: &str| s.to_string();
    let line = gate_line(&rows, "S2", true, text("5"), text("20"), text("250"));
    let md = gate_md(&vec![line]);
    assert!(md.ends_with("|\n| S2 | **build** | 5 | 20 | 250 | 400 | 350 |\n"));
}
