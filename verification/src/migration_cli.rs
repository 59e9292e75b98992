//! The migration command: its options, the size limit on its input, and the Markdown
//! form of its report.
use vstd::prelude::*;

use crate::bundle::{import_count_of, source_entries, entry_views, MigrationReport};
use crate::text::{append_str, decimal_text, owned, str_equal, wide_decimal_string};

verus! {

/// The largest legacy export the command reads, in bytes.
pub const MAX_LEGACY_INPUT_BYTES: u64 = 67108864;

/// What the command was asked to do. Paths are kept as the texts given.
#[derive(Debug, Clone)]
pub struct MigrationOptions {
    pub input: String,
    pub state: String,
    pub batch: String,
    pub report_json: Option<String>,
    pub report_markdown: Option<String>,
    pub dry_run: bool,
}

/// The options read so far.
pub struct OptionFields {
    pub input: Option<Seq<char>>,
    pub state: Option<Seq<char>>,
    pub batch: Option<Seq<char>>,
    pub report_json: Option<Seq<char>>,
    pub report_markdown: Option<Seq<char>>,
    pub dry_run: bool,
}

/// No option read yet.
pub open spec fn no_fields() -> OptionFields {
    OptionFields {
        input: None,
        state: None,
        batch: None,
        report_json: None,
        report_markdown: None,
        dry_run: false,
    }
}

/// The usage line of the command.
pub open spec fn usage_text() -> Seq<char> {
    "usage: proexel-migrate --input <legacy.json> --state <state.json> --batch <id> [--dry-run] [--report-json <path>] [--report-markdown <path>]"@
}

/// The options that take a value.
pub open spec fn takes_value(a: Seq<char>) -> bool {
    a == "--input"@ || a == "--state"@ || a == "--batch"@ || a == "--report-json"@
        || a == "--report-markdown"@
}

/// `f` with the value `v` of option `a` recorded.
pub open spec fn with_value(f: OptionFields, a: Seq<char>, v: Seq<char>) -> OptionFields {
    if a == "--input"@ {
        OptionFields { input: Some(v), ..f }
    } else if a == "--state"@ {
        OptionFields { state: Some(v), ..f }
    } else if a == "--batch"@ {
        OptionFields { batch: Some(v), ..f }
    } else if a == "--report-json"@ {
        OptionFields { report_json: Some(v), ..f }
    } else {
        OptionFields { report_markdown: Some(v), ..f }
    }
}

/// Reads the arguments from position `i` on into `f`: an option that takes a value takes
/// the next argument, whatever it is; `--dry-run` sets the flag; help and anything else
/// stop the reading with a message.
pub open spec fn scan_options(args: Seq<Seq<char>>, i: int, f: OptionFields) -> Result<OptionFields, Seq<char>>
    decreases args.len() - i,
{
    if i < 0 || i >= args.len() {
        Ok(f)
    } else {
        let a = args[i];
        if takes_value(a) {
            if i + 1 < args.len() {
                scan_options(args, i + 2, with_value(f, a, args[i + 1]))
            } else {
                Err("missing value for "@ + a)
            }
        } else if a == "--dry-run"@ {
            scan_options(args, i + 1, OptionFields { dry_run: true, ..f })
        } else if a == "--help"@ || a == "-h"@ {
            Err(usage_text())
        } else {
            Err("unknown option "@ + a + "\n"@ + usage_text())
        }
    }
}

/// The options the arguments give: the input, the state and the batch must all be there,
/// else the usage line is the error.
pub open spec fn parsed_options(args: Seq<Seq<char>>) -> Result<OptionFields, Seq<char>> {
    match scan_options(args, 0, no_fields()) {
        Err(e) => Err(e),
        Ok(f) => if f.input is Some && f.state is Some && f.batch is Some {
            Ok(f)
        } else {
            Err(usage_text())
        },
    }
}

/// The texts of the arguments.
pub open spec fn arg_views(args: Seq<String>) -> Seq<Seq<char>> {
    args.map_values(|a: String| a@)
}

impl MigrationOptions {
    /// The options as texts.
    pub open spec fn fields(self) -> OptionFields {
        OptionFields {
            input: Some(self.input@),
            state: Some(self.state@),
            batch: Some(self.batch@),
            report_json: match self.report_json {
                Some(p) => Some(p@),
                None => None,
            },
            report_markdown: match self.report_markdown {
                Some(p) => Some(p@),
                None => None,
            },
            dry_run: self.dry_run,
        }
    }
}

/// The usage line of the command.
pub fn usage() -> (r: String)
    ensures
        r@ == usage_text(),
{
    owned(
        "usage: proexel-migrate --input <legacy.json> --state <state.json> --batch <id> [--dry-run] [--report-json <path>] [--report-markdown <path>]",
    )
}

/// Steps past an option to its value: the argument after it, or an error naming the
/// option when there is none.
pub fn next_value(args: &Vec<String>, index: &mut usize, option: &str) -> (r: Result<String, String>)
    requires
        *old(index) < usize::MAX,
    ensures
        *final(index) == *old(index) + 1,
        *final(index) < args@.len() ==> r == Ok::<String, String>(args@[*final(index) as int]),
        *final(index) >= args@.len() ==> (r matches Err(e) && e@ == "missing value for "@ + option@),
{
    *index += 1;
    if *index < args.len() {
        Ok(args[*index].clone())
    } else {
        let mut e = owned("missing value for ");
        append_str(&mut e, option);
        Err(e)
    }
}

fn set_value(options: &mut (Option<String>, Option<String>, Option<String>, Option<String>, Option<String>), a: &str, v: String)
    requires
        takes_value(a@),
    ensures
        ({
            let f = with_value(
                OptionFields {
                    input: opt_text(old(options).0),
                    state: opt_text(old(options).1),
                    batch: opt_text(old(options).2),
                    report_json: opt_text(old(options).3),
                    report_markdown: opt_text(old(options).4),
                    dry_run: false,
                },
                a@,
                v@,
            );
            &&& opt_text(final(options).0) == f.input
            &&& opt_text(final(options).1) == f.state
            &&& opt_text(final(options).2) == f.batch
            &&& opt_text(final(options).3) == f.report_json
            &&& opt_text(final(options).4) == f.report_markdown
        }),
{
    if str_equal(a, "--input") {
        options.0 = Some(v);
    } else if str_equal(a, "--state") {
        options.1 = Some(v);
    } else if str_equal(a, "--batch") {
        options.2 = Some(v);
    } else if str_equal(a, "--report-json") {
        options.3 = Some(v);
    } else {
        options.4 = Some(v);
    }
}

/// The text of an optional string.
pub open spec fn opt_text(o: Option<String>) -> Option<Seq<char>> {
    match o {
        Some(s) => Some(s@),
        None => None,
    }
}

/// Reads the command's arguments (without the program's name).
pub fn parse_options(args: Vec<String>) -> (r: Result<MigrationOptions, String>)
    ensures
        match parsed_options(arg_views(args@)) {
            Ok(f) => r matches Ok(o) && o.fields() == f,
            Err(e) => r matches Err(x) && x@ == e,
        },
{
    let ghost views = arg_views(args@);
    let mut values: (Option<String>, Option<String>, Option<String>, Option<String>, Option<String>) = (
        None,
        None,
        None,
        None,
        None,
    );
    let mut dry_run = false;
    let mut index: usize = 0;
    while index < args.len()
        invariant
            views == arg_views(args@),
            index <= args@.len(),
            scan_options(views, 0, no_fields()) == scan_options(
                views,
                index as int,
                OptionFields {
                    input: opt_text(values.0),
                    state: opt_text(values.1),
                    batch: opt_text(values.2),
                    report_json: opt_text(values.3),
                    report_markdown: opt_text(values.4),
                    dry_run,
                },
            ),
        decreases args@.len() - index,
    {
        let ghost f = OptionFields {
            input: opt_text(values.0),
            state: opt_text(values.1),
            batch: opt_text(values.2),
            report_json: opt_text(values.3),
            report_markdown: opt_text(values.4),
            dry_run,
        };
        let a = args[index].as_str();
        assert(views[index as int] == a@);
        if str_equal(a, "--input") || str_equal(a, "--state") || str_equal(a, "--batch") || str_equal(
            a,
            "--report-json",
        ) || str_equal(a, "--report-markdown") {
            let option = args[index].clone();
            let v = match next_value(&args, &mut index, option.as_str()) {
                Ok(v) => v,
                Err(e) => return Err(e),
            };
            assert(views[index as int] == v@);
            set_value(&mut values, option.as_str(), v);
        } else if str_equal(a, "--dry-run") {
            dry_run = true;
        } else if str_equal(a, "--help") || str_equal(a, "-h") {
            return Err(usage());
        } else {
            let mut e = owned("unknown option ");
            append_str(&mut e, a);
            append_str(&mut e, "\n");
            let u = usage();
            append_str(&mut e, u.as_str());
            return Err(e);
        }
        index += 1;
        proof {
            assert(f == OptionFields { dry_run: f.dry_run, ..f });
        }
    }
    let (input, state, batch, report_json, report_markdown) = values;
    match (input, state, batch) {
        (Some(input), Some(state), Some(batch)) => Ok(
            MigrationOptions { input, state, batch, report_json, report_markdown, dry_run },
        ),
        _ => Err(usage()),
    }
}

/// Why an input of `size` bytes is refused before it is read, if it is.
pub fn input_size_error(size: u64) -> (r: Option<String>)
    ensures
        size <= MAX_LEGACY_INPUT_BYTES ==> r is None,
        size > MAX_LEGACY_INPUT_BYTES ==> (r matches Some(e) && e@ == "input too large: "@
            + decimal_text(size as nat) + " > "@ + decimal_text(MAX_LEGACY_INPUT_BYTES as nat)),
{
    if size > MAX_LEGACY_INPUT_BYTES {
        let mut e = owned("input too large: ");
        let n = wide_decimal_string(size as u128);
        append_str(&mut e, n.as_str());
        append_str(&mut e, " > ");
        let m = wide_decimal_string(MAX_LEGACY_INPUT_BYTES as u128);
        append_str(&mut e, m.as_str());
        Some(e)
    } else {
        None
    }
}

/// `true` or `false`, as Rust writes a `bool`.
pub open spec fn bool_text(b: bool) -> Seq<char> {
    if b {
        "true"@
    } else {
        "false"@
    }
}

/// How many records of the kind named `name` the report counts as imported.
pub open spec fn imported_of(report: MigrationReport, name: Seq<char>) -> nat {
    match import_count_of(report.imported_counts, name) {
        Some(n) => n as nat,
        None => 0,
    }
}

/// One row of the counts table: a kind of record, how many the bundle held and how many
/// of the kind of that name were imported.
pub open spec fn count_row(report: MigrationReport, entry: (Seq<char>, usize)) -> Seq<char> {
    "| "@ + entry.0 + " | "@ + decimal_text(entry.1 as nat) + " | "@ + decimal_text(imported_of(report, entry.0))
        + " |\n"@
}

/// The rows of the counts table, one per entry.
pub open spec fn count_rows(report: MigrationReport, entries: Seq<(Seq<char>, usize)>) -> Seq<char>
    decreases entries.len(),
{
    if entries.len() == 0 {
        Seq::empty()
    } else {
        count_rows(report, entries.drop_last()) + count_row(report, entries.last())
    }
}

/// One line per warning.
pub open spec fn warning_lines(warnings: Seq<Seq<char>>) -> Seq<char>
    decreases warnings.len(),
{
    if warnings.len() == 0 {
        Seq::empty()
    } else {
        warning_lines(warnings.drop_last()) + "- "@ + warnings.last() + "\n"@
    }
}

/// The report in Markdown: its batch, checksum and dry-run flag, a table of the counts by
/// kind of source record, and its warnings (or `None.`).
pub open spec fn markdown_text(report: MigrationReport) -> Seq<char> {
    let w = report.warnings@.map_values(|x: String| x@);
    "# PROEXEL migration report\n\n- Batch: `"@ + report.batch_id@ + "`\n- Checksum: `"@ + report.checksum@
        + "`\n- Dry-run: `"@ + bool_text(report.dry_run)
        + "`\n\n## Counts\n\n| Entity | Source | Imported |\n|---|---:|---:|\n"@
        + count_rows(report, source_entries(report.source_counts)) + "\n## Warnings\n\n"@
        + if w.len() == 0 {
        "None.\n"@
    } else {
        warning_lines(w)
    }
}

/// The report in Markdown (see `markdown_text`).
pub fn markdown_report(report: &MigrationReport) -> (r: String)
    ensures
        r@ == markdown_text(*report),
{
    let mut out = owned("# PROEXEL migration report\n\n- Batch: `");
    append_str(&mut out, report.batch_id.as_str());
    append_str(&mut out, "`\n- Checksum: `");
    append_str(&mut out, report.checksum.as_str());
    append_str(&mut out, "`\n- Dry-run: `");
    if report.dry_run {
        append_str(&mut out, "true");
    } else {
        append_str(&mut out, "false");
    }
    append_str(&mut out, "`\n\n## Counts\n\n| Entity | Source | Imported |\n|---|---:|---:|\n");
    let ghost head = out@;
    let entries = report.source_counts.entries();
    let ghost ev = entry_views(entries@);
    let mut i: usize = 0;
    while i < entries.len()
        invariant
            i <= entries@.len(),
            ev == entry_views(entries@),
            out@ == head + count_rows(*report, ev.take(i as int)),
        decreases entries@.len() - i,
    {
        let name = entries[i].0.as_str();
        let source = entries[i].1;
        let imported: usize = match report.imported_counts.get(name) {
            Some(n) => n,
            None => 0,
        };
        append_str(&mut out, "| ");
        append_str(&mut out, name);
        append_str(&mut out, " | ");
        let s = wide_decimal_string(source as u128);
        append_str(&mut out, s.as_str());
        append_str(&mut out, " | ");
        let m = wide_decimal_string(imported as u128);
        append_str(&mut out, m.as_str());
        append_str(&mut out, " |\n");
        proof {
            assert(ev.take(i + 1).drop_last() == ev.take(i as int));
            assert(ev.take(i + 1).last() == ev[i as int]);
        }
        i += 1;
    }
    proof {
        assert(ev.take(entries@.len() as int) == ev);
    }
    append_str(&mut out, "\n## Warnings\n\n");
    let ghost body = out@;
    let ghost w = report.warnings@.map_values(|x: String| x@);
    if report.warnings.len() == 0 {
        append_str(&mut out, "None.\n");
    } else {
        let mut k: usize = 0;
        while k < report.warnings.len()
            invariant
                k <= report.warnings@.len(),
                w == report.warnings@.map_values(|x: String| x@),
                out@ == body + warning_lines(w.take(k as int)),
            decreases report.warnings@.len() - k,
        {
            append_str(&mut out, "- ");
            append_str(&mut out, report.warnings[k].as_str());
            append_str(&mut out, "\n");
            proof {
                assert(w.take(k + 1).drop_last() == w.take(k as int));
                assert(w.take(k + 1).last() == w[k as int]);
            }
            k += 1;
        }
        proof {
            assert(w.take(report.warnings@.len() as int) == w);
        }
    }
    out
}

} // verus!
