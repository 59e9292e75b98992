use proexel::bundle::{ImportCounts, MigrationReport, SourceCounts};
use proexel::migration_cli::{input_size_error, markdown_report, parse_options, usage, MAX_LEGACY_INPUT_BYTES};

fn args(list: &[&str]) -> Vec<String> {
    list.iter().map(|a| a.to_string()).collect()
}

#[test]
fn options_are_read_with_their_values() {
    let options = parse_options(args(&[
        "--input",
        "legacy.json",
        "--state",
        "state.json",
        "--batch",
        "b-1",
        "--dry-run",
        "--report-markdown",
        "out/report.md",
    ]))
    .unwrap();
    assert_eq!(options.input, "legacy.json");
    assert_eq!(options.state, "state.json");
    assert_eq!(options.batch, "b-1");
    assert!(options.dry_run);
    assert_eq!(options.report_json, None);
    assert_eq!(options.report_markdown.as_deref(), Some("out/report.md"));
}

#[test]
fn an_option_takes_the_next_argument_whatever_it_is() {
    let options =
        parse_options(args(&["--input", "--dry-run", "--state", "s", "--batch", "b"])).unwrap();
    assert_eq!(options.input, "--dry-run");
    assert!(!options.dry_run);
}

#[test]
fn option_without_value_is_refused() {
    let error = parse_options(args(&["--input", "a", "--batch"])).err().unwrap();
    assert_eq!(error, "missing value for --batch");
}

#[test]
fn unknown_option_is_refused_with_usage() {
    let error = parse_options(args(&["--verbose"])).err().unwrap();
    assert_eq!(error, format!("unknown option --verbose\n{}", usage()));
}

#[test]
fn help_and_missing_required_options_answer_with_usage() {
    assert_eq!(parse_options(args(&["-h"])).err().unwrap(), usage());
    assert_eq!(parse_options(args(&["--input", "a", "--state", "s"])).err().unwrap(), usage());
    assert!(usage().starts_with("usage: proexel-migrate --input"));
}

#[test]
fn oversized_input_is_refused_by_size() {
    assert_eq!(input_size_error(MAX_LEGACY_INPUT_BYTES), None);
    assert_eq!(
        input_size_error(MAX_LEGACY_INPUT_BYTES + 1).unwrap(),
        "input too large: 67108865 > 67108864"
    );
}

fn report(warnings: Vec<String>) -> MigrationReport {
    MigrationReport {
        source: "proexel-legacy-json".to_string(),
        batch_id: "b-7".to_string(),
        checksum: "fnv1a64:0000000000000001".to_string(),
        dry_run: true,
        source_counts: SourceCounts {
            maintenance_records: 1,
            orders: 2,
            restock_requests: 3,
            stock: 4,
            suppliers: 5,
            valve_photos: 6,
            valves: 7,
        },
        imported_counts: ImportCounts {
            inspections: 1,
            item_categories: 1,
            machine_items: 7,
            machines: 2,
            photos: 6,
            restock_requests: 2,
            service_orders: 2,
            stock_items: 4,
            suppliers: 0,
        },
        warnings,
    }
}

#[test]
fn markdown_report_lists_counts_by_source_kind() {
    let text = markdown_report(&report(Vec::new()));
    let expected = "# PROEXEL migration report\n\n- Batch: `b-7`\n- Checksum: `fnv1a64:0000000000000001`\n- Dry-run: `true`\n\n## Counts\n\n| Entity | Source | Imported |\n|---|---:|---:|\n| maintenance_records | 1 | 0 |\n| orders | 2 | 0 |\n| restock_requests | 3 | 2 |\n| stock | 4 | 0 |\n| suppliers | 5 | 0 |\n| valve_photos | 6 | 0 |\n| valves | 7 | 0 |\n\n## Warnings\n\nNone.\n";
    assert_eq!(text, expected);
}

#[test]
fn markdown_report_lists_each_warning() {
    let text = markdown_report(&report(vec!["first".to_string(), "second".to_string()]));
    assert!(text.ends_with("## Warnings\n\n- first\n- second\n"));
}

#[test]
fn every_command_is_registered_once() {
    let names = proexel::permissions::commands();
    assert_eq!(names.len(), 30);
    assert_eq!(names[0], proexel::permissions::CREATE_ITEM_CATEGORY);
    assert_eq!(names[29], proexel::permissions::RESET_USER_CREDENTIALS);
    let mut sorted = names.clone();
    sorted.sort();
    sorted.dedup();
    assert_eq!(sorted.len(), 30);
}
