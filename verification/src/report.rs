//! The comparison of the capture designs: its rows, and how they are laid out as CSV and Markdown.
//!
//! A row is generic in its numbers: measurements are numbers where they are taken, and text, with
//! as many decimals as the table shows, where they are laid out.

use vstd::prelude::*;
use vstd::string::*;

use crate::text::{concatenation, decimal, decimal_text, joined, same_text};
use crate::text_map::{has_key, text_below, TextMap};

verus! {

/// One row of the comparison.
#[derive(Clone, Debug)]
pub struct BenchRow<N> {
    /// Name of the design.
    pub combo: String,
    /// Name of the scenario.
    pub scenario: String,
    /// Mode (such as `summary`, `detailed`).
    pub mode: String,
    /// Time to collect, on the request path (ns).
    pub collect_ns: N,
    /// Time to construct (ns).
    pub construct_ns: N,
    /// Time to serialize (ns).
    pub serialize_ns: N,
    /// Time to decode (ns); zero where it does not apply.
    pub decode_ns: N,
    /// Time to discard on success (ns); zero where it does not apply.
    pub discard_ns: N,
    /// Output size in bytes.
    pub output_bytes: usize,
}

/// The row is of this scenario, design and mode.
pub open spec fn row_is<N>(
    row: BenchRow<N>,
    scenario: Seq<char>,
    combo: Seq<char>,
    mode: Seq<char>,
) -> bool {
    row.scenario@ == scenario && row.combo@ == combo && row.mode@ == mode
}

/// `at` is the place of the first row of a scenario, design and mode.
pub open spec fn is_first<N>(
    rows: Seq<BenchRow<N>>,
    at: int,
    scenario: Seq<char>,
    combo: Seq<char>,
    mode: Seq<char>,
) -> bool {
    &&& 0 <= at < rows.len()
    &&& row_is(rows[at], scenario, combo, mode)
    &&& forall|k: int| 0 <= k < at ==> !row_is(#[trigger] rows[k], scenario, combo, mode)
}

/// No row is of this scenario, design and mode.
pub open spec fn is_unmeasured<N>(
    rows: Seq<BenchRow<N>>,
    scenario: Seq<char>,
    combo: Seq<char>,
    mode: Seq<char>,
) -> bool {
    forall|k: int| 0 <= k < rows.len() ==> !row_is(#[trigger] rows[k], scenario, combo, mode)
}

/// The place of the first row of a scenario, design and mode.
pub fn find_row<N>(rows: &Vec<BenchRow<N>>, scenario: &str, combo: &str, mode: &str) -> (at: Option<
    usize,
>)
    ensures
        match at {
            Some(i) => is_first(rows@, i as int, scenario@, combo@, mode@),
            None => is_unmeasured(rows@, scenario@, combo@, mode@),
        },
{
    let mut i: usize = 0;
    while i < rows.len()
        invariant
            i <= rows.len(),
            forall|k: int| 0 <= k < i ==> !row_is(#[trigger] rows@[k], scenario@, combo@, mode@),
        decreases rows.len() - i,
    {
        if same_text(rows[i].scenario.as_str(), scenario) && same_text(
            rows[i].combo.as_str(),
            combo,
        ) && same_text(rows[i].mode.as_str(), mode) {
            return Some(i);
        }
        i = i + 1;
    }
    None
}

/// The output size in the first row of a scenario, design and mode; zero where there is none.
pub open spec fn size_in<N>(
    rows: Seq<BenchRow<N>>,
    scenario: Seq<char>,
    combo: Seq<char>,
    mode: Seq<char>,
) -> usize
    decreases rows.len(),
{
    if rows.len() == 0 {
        0
    } else if row_is(rows[0], scenario, combo, mode) {
        rows[0].output_bytes
    } else {
        size_in(rows.skip(1), scenario, combo, mode)
    }
}

/// The first row decides the size.
proof fn lemma_size_of_first<N>(
    rows: Seq<BenchRow<N>>,
    scenario: Seq<char>,
    combo: Seq<char>,
    mode: Seq<char>,
    at: Option<int>,
)
    requires
        match at {
            Some(i) => is_first(rows, i, scenario, combo, mode),
            None => is_unmeasured(rows, scenario, combo, mode),
        },
    ensures
        size_in(rows, scenario, combo, mode) == (match at {
            Some(i) => rows[i].output_bytes,
            None => 0,
        }),
    decreases rows.len(),
{
    if rows.len() > 0 && !row_is(rows[0], scenario, combo, mode) {
        let rest = rows.skip(1);
        assert forall|k: int| 0 <= k < rest.len() implies #[trigger] rest[k] == rows[k + 1] by {}
        let moved: Option<int> = match at {
            Some(i) => Some(i - 1),
            None => None,
        };
        lemma_size_of_first(rest, scenario, combo, mode, moved);
    }
}

/// The output size in the first row of a scenario, design and mode; zero where there is none.
pub fn find_size<N>(rows: &Vec<BenchRow<N>>, scenario: &str, combo: &str, mode: &str) -> (n: usize)
    ensures
        n == size_in(rows@, scenario@, combo@, mode@),
{
    let at = find_row(rows, scenario, combo, mode);
    proof {
        let place: Option<int> = match at {
            Some(i) => Some(i as int),
            None => None,
        };
        lemma_size_of_first(rows@, scenario@, combo@, mode@, place);
    }
    match at {
        Some(i) => rows[i].output_bytes,
        None => 0,
    }
}

// ---------------------------------------------------------------------------
// The whole table
// ---------------------------------------------------------------------------

/// The first line of the CSV.
pub const CSV_HEADER: &'static str =
    "combo,scenario,mode,collect_ns,construct_ns,serialize_ns,decode_ns,discard_ns,output_bytes\n";

/// The first line of the Markdown table.
pub const MD_HEADER: &'static str =
    "| Combo | Scenario | Mode | collect ns | construct ns | serialize ns | decode ns | discard ns | bytes |\n";

/// The second line of the Markdown table.
pub const MD_RULE: &'static str = "|---|---|---|--:|--:|--:|--:|--:|--:|\n";

/// The cells of a row, in order.
pub open spec fn cells(row: BenchRow<String>) -> Seq<Seq<char>> {
    seq![
        row.combo@,
        row.scenario@,
        row.mode@,
        row.collect_ns@,
        row.construct_ns@,
        row.serialize_ns@,
        row.decode_ns@,
        row.discard_ns@,
        decimal(row.output_bytes as nat),
    ]
}

/// Cells between a start and an end, with `gap` between them.
pub open spec fn laid_out(
    start: Seq<char>,
    cells: Seq<Seq<char>>,
    gap: Seq<char>,
    end: Seq<char>,
) -> Seq<char>
    decreases cells.len(),
{
    if cells.len() == 0 {
        start + end
    } else if cells.len() == 1 {
        start + cells[0] + end
    } else {
        laid_out(start, cells.drop_last(), gap, Seq::empty()) + gap + cells.last() + end
    }
}

/// The views of string slices.
pub open spec fn views(parts: Seq<&str>) -> Seq<Seq<char>> {
    parts.map_values(|p: &str| p@)
}

/// Lays out cells between a start and an end, with `gap` between them.
fn lay_out(start: &str, parts: &Vec<&str>, gap: &str, end: &str) -> (s: String)
    requires
        parts@.len() > 0,
    ensures
        s@ == laid_out(start@, views(parts@), gap@, end@),
{
    let ghost all = views(parts@);
    let mut s = start.to_owned();
    s.append(parts[0]);
    let mut i: usize = 1;
    proof {
        assert(all.take(1)[0] == parts@[0]@);
        assert(s@ =~= laid_out(start@, all.take(1), gap@, Seq::empty()));
    }
    while i < parts.len()
        invariant
            1 <= i <= parts.len(),
            all == views(parts@),
            s@ == laid_out(start@, all.take(i as int), gap@, Seq::empty()),
        decreases parts.len() - i,
    {
        let ghost before = s@;
        s.append(gap);
        s.append(parts[i]);
        proof {
            let more = all.take(i + 1);
            assert(more.drop_last() =~= all.take(i as int));
            assert(more.last() == parts@[i as int]@);
            assert(s@ =~= laid_out(start@, more, gap@, Seq::empty()));
        }
        i = i + 1;
    }
    s.append(end);
    proof {
        assert(all.take(i as int) =~= all);
        assert(s@ =~= laid_out(start@, all, gap@, end@));
    }
    s
}

/// A row as a line of the CSV.
pub open spec fn csv_line(row: BenchRow<String>) -> Seq<char> {
    laid_out(Seq::empty(), cells(row), ","@, "\n"@)
}

/// A row as a line of the Markdown table.
pub open spec fn md_line(row: BenchRow<String>) -> Seq<char> {
    laid_out("| "@, cells(row), " | "@, " |\n"@)
}

/// The CSV of rows.
pub open spec fn csv_of(rows: Seq<BenchRow<String>>) -> Seq<char> {
    CSV_HEADER@ + concatenation(rows.map_values(|r: BenchRow<String>| csv_line(r)))
}

/// The Markdown table of rows.
pub open spec fn md_of(rows: Seq<BenchRow<String>>) -> Seq<char> {
    MD_HEADER@ + MD_RULE@ + concatenation(rows.map_values(|r: BenchRow<String>| md_line(r)))
}

/// Lays out a row.
fn row_line(start: &str, row: &BenchRow<String>, gap: &str, end: &str) -> (s: String)
    ensures
        s@ == laid_out(start@, cells(*row), gap@, end@),
{
    let bytes = decimal_text(row.output_bytes as u64);
    let parts: Vec<&str> = vec![
        row.combo.as_str(),
        row.scenario.as_str(),
        row.mode.as_str(),
        row.collect_ns.as_str(),
        row.construct_ns.as_str(),
        row.serialize_ns.as_str(),
        row.decode_ns.as_str(),
        row.discard_ns.as_str(),
        bytes.as_str(),
    ];
    proof {
        assert(views(parts@) =~= cells(*row));
    }
    lay_out(start, &parts, gap, end)
}

/// Renders rows as CSV. The numbers of the rows are already text.
pub fn results_csv(rows: &Vec<BenchRow<String>>) -> (out: String)
    ensures
        out@ == csv_of(rows@),
{
    let ghost lines = rows@.map_values(|r: BenchRow<String>| csv_line(r));
    let mut out = CSV_HEADER.to_owned();
    let mut i: usize = 0;
    proof {
        reveal_strlit("");
        assert(""@ =~= Seq::empty());
        assert(out@ =~= CSV_HEADER@ + concatenation(lines.take(0)));
    }
    while i < rows.len()
        invariant
            i <= rows.len(),
            ""@ == Seq::<char>::empty(),
            lines == rows@.map_values(|r: BenchRow<String>| csv_line(r)),
            out@ == CSV_HEADER@ + concatenation(lines.take(i as int)),
        decreases rows.len() - i,
    {
        let line = row_line("", &rows[i], ",", "\n");
        out.append(line.as_str());
        proof {
            assert(lines.take(i + 1).drop_last() =~= lines.take(i as int));
            assert(lines.take(i + 1).last() == line@);
            assert(out@ =~= CSV_HEADER@ + concatenation(lines.take(i + 1)));
        }
        i = i + 1;
    }
    proof {
        assert(lines.take(i as int) =~= lines);
    }
    out
}

/// Renders rows as a Markdown table. The numbers of the rows are already text.
pub fn results_md_table(rows: &Vec<BenchRow<String>>) -> (out: String)
    ensures
        out@ == md_of(rows@),
{
    let ghost lines = rows@.map_values(|r: BenchRow<String>| md_line(r));
    let ghost head = MD_HEADER@ + MD_RULE@;
    let mut out = MD_HEADER.to_owned();
    out.append(MD_RULE);
    let mut i: usize = 0;
    proof {
        assert(out@ =~= head + concatenation(lines.take(0)));
    }
    while i < rows.len()
        invariant
            i <= rows.len(),
            lines == rows@.map_values(|r: BenchRow<String>| md_line(r)),
            out@ == head + concatenation(lines.take(i as int)),
        decreases rows.len() - i,
    {
        let line = row_line("| ", &rows[i], " | ", " |\n");
        out.append(line.as_str());
        proof {
            assert(lines.take(i + 1).drop_last() =~= lines.take(i as int));
            assert(lines.take(i + 1).last() == line@);
            assert(out@ =~= head + concatenation(lines.take(i + 1)));
        }
        i = i + 1;
    }
    proof {
        assert(lines.take(i as int) =~= lines);
    }
    out
}

/// The name of the file of a sample.
pub fn sample_file_name(scenario: &str, ext: &str) -> (name: String)
    ensures
        name@ == scenario@ + "."@ + ext@,
{
    let mut name = scenario.to_owned();
    name.append(".");
    name.append(ext);
    name
}

// ---------------------------------------------------------------------------
// Output sizes
// ---------------------------------------------------------------------------

/// The output sizes of the designs in one scenario.
#[derive(Clone, Debug)]
pub struct SizeLine {
    /// Name of the scenario.
    pub scenario: String,
    /// The eager design, in JSON.
    pub eager_json: usize,
    /// The arena design, in binary.
    pub arena_binary: usize,
    /// The summary of the tiered design.
    pub tiered_summary: usize,
    /// The detail of the tiered design.
    pub tiered_detailed: usize,
}

/// The size of the eager design in each scenario: the baseline. A later row of a scenario replaces
/// an earlier one.
pub open spec fn baseline<N>(rows: Seq<BenchRow<N>>) -> Map<Seq<char>, usize>
    decreases rows.len(),
{
    if rows.len() == 0 {
        Map::empty()
    } else {
        let before = baseline(rows.drop_last());
        let row = rows.last();
        if row.combo@ == "combo3"@ {
            before.insert(row.scenario@, row.output_bytes)
        } else {
            before
        }
    }
}

/// The line holds the sizes of its scenario.
pub open spec fn line_is_of<N>(line: SizeLine, rows: Seq<BenchRow<N>>) -> bool {
    let scenario = line.scenario@;
    &&& baseline(rows).contains_key(scenario)
    &&& line.eager_json == baseline(rows)[scenario]
    &&& line.arena_binary == size_in(rows, scenario, "combo1"@, "binary"@)
    &&& line.tiered_summary == size_in(rows, scenario, "combo2"@, "summary"@)
    &&& line.tiered_detailed == size_in(rows, scenario, "combo2"@, "detailed"@)
}

/// A line is of this scenario.
pub open spec fn line_at(lines: Seq<SizeLine>, i: int, scenario: Seq<char>) -> bool {
    0 <= i < lines.len() && lines[i].scenario@ == scenario
}

/// The size of the eager design in each scenario.
fn baseline_of<N>(rows: &Vec<BenchRow<N>>) -> (base: TextMap<usize>)
    ensures
        base@ == baseline(rows@),
{
    let mut base: TextMap<usize> = TextMap::new();
    let mut i: usize = 0;
    while i < rows.len()
        invariant
            i <= rows.len(),
            base@ == baseline(rows@.take(i as int)),
        decreases rows.len() - i,
    {
        proof {
            assert(rows@.take(i + 1).drop_last() =~= rows@.take(i as int));
            assert(rows@.take(i + 1).last() == rows@[i as int]);
        }
        if same_text(rows[i].combo.as_str(), "combo3") {
            base.insert(rows[i].scenario.clone(), rows[i].output_bytes);
        }
        i = i + 1;
    }
    proof {
        assert(rows@.take(i as int) =~= rows@);
    }
    base
}

/// The output sizes in every scenario that the eager design was measured in, in the order of the
/// scenarios' names.
pub fn size_lines<N>(rows: &Vec<BenchRow<N>>) -> (lines: Vec<SizeLine>)
    ensures
        forall|i: int| 0 <= i < lines@.len() ==> line_is_of(#[trigger] lines@[i], rows@),
        forall|i: int, j: int|
            0 <= i < j < lines@.len() ==> text_below(
                (#[trigger] lines@[i]).scenario@,
                (#[trigger] lines@[j]).scenario@,
            ),
        forall|scenario: Seq<char>| #[trigger]
            baseline(rows@).contains_key(scenario) ==> exists|i: int|
                line_at(lines@, i, scenario),
{
    let base = baseline_of(rows);
    let n: usize = base.len();
    let mut lines: Vec<SizeLine> = Vec::new();
    let mut i: usize = 0;
    while i < n
        invariant
            i <= n,
            n == base.entries().len(),
            base@ == baseline(rows@),
            lines@.len() == i,
            forall|k: int| 0 <= k < i ==> line_is_of(#[trigger] lines@[k], rows@),
            forall|k: int|
                0 <= k < i ==> (#[trigger] lines@[k]).scenario@ == base.entries()[k].0@,
            forall|k: int, j: int|
                0 <= k < j < i ==> text_below(
                    (#[trigger] lines@[k]).scenario@,
                    (#[trigger] lines@[j]).scenario@,
                ),
        decreases n - i,
    {
        let (scenario, bytes) = base.entry(i);
        let line = SizeLine {
            scenario: scenario.to_owned(),
            eager_json: *bytes,
            arena_binary: find_size(rows, scenario, "combo1", "binary"),
            tiered_summary: find_size(rows, scenario, "combo2", "summary"),
            tiered_detailed: find_size(rows, scenario, "combo2", "detailed"),
        };
        let ghost before = lines@;
        lines.push(line);
        proof {
            assert forall|k: int| 0 <= k < i implies text_below(
                (#[trigger] lines@[k]).scenario@,
                line.scenario@,
            ) by {
                assert(lines@[k] == before[k]);
                assert(text_below(base.entries()[k].0@, scenario@));
            }
        }
        i = i + 1;
    }
    proof {
        assert forall|scenario: Seq<char>| #[trigger]
            baseline(rows@).contains_key(scenario) implies exists|i: int|
            line_at(lines@, i, scenario) by {
            let k = choose|k: int| has_key(base.entries(), k, scenario);
            assert(line_at(lines@, k, scenario));
        }
    }
    lines
}

/// What stands above the lines of the size table.
pub const SIZES_HEADER: &'static str =
    "## Output size & reduction vs Combo 3 JSON\n\n| Scenario | Combo 3 JSON (bytes) | Combo 1 binary | Combo 2 summary | Combo 2 detailed | C1 × smaller | C2-summary × smaller |\n|---|--:|--:|--:|--:|--:|--:|\n";

/// A line of the size table. The ratios are text.
pub open spec fn size_text(line: SizeLine, arena: Seq<char>, summary: Seq<char>) -> Seq<char> {
    laid_out(
        "| "@,
        seq![
            line.scenario@,
            decimal(line.eager_json as nat),
            decimal(line.arena_binary as nat),
            decimal(line.tiered_summary as nat),
            decimal(line.tiered_detailed as nat),
            arena + "×"@,
            summary + "×"@,
        ],
        " | "@,
        " |\n"@,
    )
}

/// The size table: how many times smaller than the eager design's output the others' is. The
/// ratios are text.
pub open spec fn sizes_of(
    lines: Seq<SizeLine>,
    arena: Seq<String>,
    summary: Seq<String>,
) -> Seq<char> {
    SIZES_HEADER@ + concatenation(
        Seq::new(lines.len(), |i: int| size_text(lines[i], arena[i]@, summary[i]@)),
    )
}

/// Renders a line of the size table.
fn size_line_text(line: &SizeLine, arena: &str, summary: &str) -> (s: String)
    ensures
        s@ == size_text(*line, arena@, summary@),
{
    let eager_bytes = decimal_text(line.eager_json as u64);
    let arena_bytes = decimal_text(line.arena_binary as u64);
    let summary_bytes = decimal_text(line.tiered_summary as u64);
    let detailed_bytes = decimal_text(line.tiered_detailed as u64);
    let mut arena_ratio = arena.to_owned();
    arena_ratio.append("×");
    let mut summary_ratio = summary.to_owned();
    summary_ratio.append("×");
    let parts: Vec<&str> = vec![
        line.scenario.as_str(),
        eager_bytes.as_str(),
        arena_bytes.as_str(),
        summary_bytes.as_str(),
        detailed_bytes.as_str(),
        arena_ratio.as_str(),
        summary_ratio.as_str(),
    ];
    proof {
        assert(views(parts@) =~= seq![
            line.scenario@,
            decimal(line.eager_json as nat),
            decimal(line.arena_binary as nat),
            decimal(line.tiered_summary as nat),
            decimal(line.tiered_detailed as nat),
            arena@ + "×"@,
            summary@ + "×"@,
        ]);
    }
    lay_out("| ", &parts, " | ", " |\n")
}

/// Renders the size table. `arena` and `summary` are, for each line, how many times smaller than
/// the eager design's output the arena design's and the tiered summary are.
pub fn multipliers_md(lines: &Vec<SizeLine>, arena: &Vec<String>, summary: &Vec<String>) -> (out:
    String)
    requires
        arena@.len() == lines@.len(),
        summary@.len() == lines@.len(),
    ensures
        out@ == sizes_of(lines@, arena@, summary@),
{
    let ghost all = Seq::new(
        lines@.len(),
        |i: int| size_text(lines@[i], arena@[i]@, summary@[i]@),
    );
    let mut out = SIZES_HEADER.to_owned();
    let mut i: usize = 0;
    proof {
        assert(out@ =~= SIZES_HEADER@ + concatenation(all.take(0)));
    }
    while i < lines.len()
        invariant
            i <= lines.len(),
            arena@.len() == lines@.len(),
            summary@.len() == lines@.len(),
            all == Seq::new(
                lines@.len(),
                |i: int| size_text(lines@[i], arena@[i]@, summary@[i]@),
            ),
            out@ == SIZES_HEADER@ + concatenation(all.take(i as int)),
        decreases lines.len() - i,
    {
        let line = size_line_text(&lines[i], arena[i].as_str(), summary[i].as_str());
        out.append(line.as_str());
        proof {
            assert(all.take(i + 1).drop_last() =~= all.take(i as int));
            assert(all.take(i + 1).last() == line@);
            assert(out@ =~= SIZES_HEADER@ + concatenation(all.take(i + 1)));
        }
        i = i + 1;
    }
    proof {
        assert(all.take(i as int) =~= all);
    }
    out
}

// ---------------------------------------------------------------------------
// What is counted
// ---------------------------------------------------------------------------

/// The terms are collect, construct and serialize of the first row of a scenario, design and mode;
/// there are none where there is no such row.
pub open spec fn whole_of<N>(
    rows: Seq<BenchRow<N>>,
    terms: Option<(N, N, N)>,
    scenario: Seq<char>,
    combo: Seq<char>,
    mode: Seq<char>,
) -> bool {
    match terms {
        Some((collect, construct, serialize)) => exists|i: int| #[trigger]
            is_first(rows, i, scenario, combo, mode) && rows[i].collect_ns == collect
                && rows[i].construct_ns == construct && rows[i].serialize_ns == serialize,
        None => is_unmeasured(rows, scenario, combo, mode),
    }
}

/// The terms are collect and discard of the first row of a scenario, design and mode; there are
/// none where there is no such row.
pub open spec fn dropped_of<N>(
    rows: Seq<BenchRow<N>>,
    terms: Option<(N, N)>,
    scenario: Seq<char>,
    combo: Seq<char>,
    mode: Seq<char>,
) -> bool {
    match terms {
        Some((collect, discard)) => exists|i: int| #[trigger]
            is_first(rows, i, scenario, combo, mode) && rows[i].collect_ns == collect
                && rows[i].discard_ns == discard,
        None => is_unmeasured(rows, scenario, combo, mode),
    }
}

/// The terms are construct and serialize of the first row of a scenario, design and mode; there
/// are none where there is no such row.
pub open spec fn built_of<N>(
    rows: Seq<BenchRow<N>>,
    terms: Option<(N, N)>,
    scenario: Seq<char>,
    combo: Seq<char>,
    mode: Seq<char>,
) -> bool {
    match terms {
        Some((construct, serialize)) => exists|i: int| #[trigger]
            is_first(rows, i, scenario, combo, mode) && rows[i].construct_ns == construct
                && rows[i].serialize_ns == serialize,
        None => is_unmeasured(rows, scenario, combo, mode),
    }
}

/// Collect, construct and serialize of a design and mode in a scenario.
fn whole_terms<N: Copy>(
    rows: &Vec<BenchRow<N>>,
    scenario: &str,
    combo: &str,
    mode: &str,
) -> (terms: Option<(N, N, N)>)
    ensures
        whole_of(rows@, terms, scenario@, combo@, mode@),
{
    match find_row(rows, scenario, combo, mode) {
        Some(i) => Some((rows[i].collect_ns, rows[i].construct_ns, rows[i].serialize_ns)),
        None => None,
    }
}

/// Collect and discard of a design and mode in a scenario.
fn dropped_terms<N: Copy>(
    rows: &Vec<BenchRow<N>>,
    scenario: &str,
    combo: &str,
    mode: &str,
) -> (terms: Option<(N, N)>)
    ensures
        dropped_of(rows@, terms, scenario@, combo@, mode@),
{
    match find_row(rows, scenario, combo, mode) {
        Some(i) => Some((rows[i].collect_ns, rows[i].discard_ns)),
        None => None,
    }
}

/// Construct and serialize of a design and mode in a scenario.
fn built_terms<N: Copy>(
    rows: &Vec<BenchRow<N>>,
    scenario: &str,
    combo: &str,
    mode: &str,
) -> (terms: Option<(N, N)>)
    ensures
        built_of(rows@, terms, scenario@, combo@, mode@),
{
    match find_row(rows, scenario, combo, mode) {
        Some(i) => Some((rows[i].construct_ns, rows[i].serialize_ns)),
        None => None,
    }
}

// ---------------------------------------------------------------------------
// The happy path
// ---------------------------------------------------------------------------

/// The measurements whose sums are what the designs cost on success. A design that was not
/// measured has none.
#[derive(Clone, Copy, Debug)]
pub struct HappyTerms<N> {
    /// The eager design: collect, construct, serialize.
    pub eager: Option<(N, N, N)>,
    /// The arena design: collect, discard.
    pub arena: Option<(N, N)>,
    /// The tiered design: collect, construct, serialize.
    pub tiered: Option<(N, N, N)>,
    /// The gated design: collect, discard.
    pub gated: Option<(N, N)>,
}

/// What the happy-path table counts: the single success `S1`, in the mode that each design has for
/// it. A design that drops its capture on success never constructs or serializes.
pub fn happy_terms<N: Copy>(rows: &Vec<BenchRow<N>>) -> (t: HappyTerms<N>)
    ensures
        whole_of(rows@, t.eager, "S1"@, "combo3"@, "json"@),
        dropped_of(rows@, t.arena, "S1"@, "combo1"@, "binary"@),
        whole_of(rows@, t.tiered, "S1"@, "combo2"@, "summary"@),
        dropped_of(rows@, t.gated, "S1"@, "combo4"@, "dropped"@),
{
    HappyTerms {
        eager: whole_terms(rows, "S1", "combo3", "json"),
        arena: dropped_terms(rows, "S1", "combo1", "binary"),
        tiered: whole_terms(rows, "S1", "combo2", "summary"),
        gated: dropped_terms(rows, "S1", "combo4", "dropped"),
    }
}

/// What the designs cost on success, as text. A design that was not measured has no text.
#[derive(Clone, Debug)]
pub struct HappyCosts {
    /// The eager design: everything, always.
    pub eager: Option<String>,
    /// The arena design: in all, and its discard.
    pub arena: Option<(String, String)>,
    /// The tiered design: its summary.
    pub tiered: Option<String>,
    /// The gated design: in all, its collect, and its discard.
    pub gated: Option<(String, String, String)>,
}

/// What stands above the lines of the happy-path table.
pub const HAPPY_HEADER: &'static str =
    "\n## Happy-path overhead (S1, success)\n\nOn success, Combo 1 drops the arena without serializing, and Combo 2 (summary) never builds the full tree. Combo 3 pays collect + construct + serialize unconditionally.\n\n| Design | Happy-path cost (ns, median) | Notes |\n|---|--:|---|\n";

/// The line of the eager design.
pub open spec fn eager_line(c: Option<String>) -> Seq<char> {
    match c {
        Some(all) => concatenation(
            seq!["| Combo 3 (eager) | "@, all@, " | collect+construct+serialize, always |\n"@],
        ),
        None => Seq::empty(),
    }
}

/// The line of the arena design.
pub open spec fn arena_line(c: Option<(String, String)>) -> Seq<char> {
    match c {
        Some((all, discard)) => concatenation(
            seq![
                "| Combo 1 (arena, drop on success) | "@,
                all@,
                " | collect + free drop ("@,
                discard@,
                " ns); no serialize |\n"@,
            ],
        ),
        None => Seq::empty(),
    }
}

/// The line of the tiered design.
pub open spec fn tiered_line(c: Option<String>) -> Seq<char> {
    match c {
        Some(all) => concatenation(
            seq!["| Combo 2 (summary default) | "@, all@, " | collect+reduce+summary JSON |\n"@],
        ),
        None => Seq::empty(),
    }
}

/// The line of the gated design.
pub open spec fn gated_line(c: Option<(String, String, String)>) -> Seq<char> {
    match c {
        Some((all, collect, discard)) => concatenation(
            seq![
                "| Combo 4 (gated, dropped) | "@,
                all@,
                " | collect ("@,
                collect@,
                ") + return to pool ("@,
                discard@,
                "); **built nothing** |\n"@,
            ],
        ),
        None => Seq::empty(),
    }
}

/// Renders the happy-path table.
pub fn happy_path_md(costs: &HappyCosts) -> (out: String)
    ensures
        out@ == HAPPY_HEADER@ + eager_line(costs.eager) + arena_line(costs.arena) + tiered_line(
            costs.tiered,
        ) + gated_line(costs.gated),
{
    let mut out = HAPPY_HEADER.to_owned();
    if let Some(all) = &costs.eager {
        let parts: Vec<&str> = vec![
            "| Combo 3 (eager) | ",
            all.as_str(),
            " | collect+construct+serialize, always |\n",
        ];
        out.append(joined(&parts).as_str());
        proof {
            assert(parts@.map_values(|p: &str| p@) =~= seq![
                "| Combo 3 (eager) | "@,
                all@,
                " | collect+construct+serialize, always |\n"@,
            ]);
        }
    }
    proof {
        assert(out@ =~= HAPPY_HEADER@ + eager_line(costs.eager));
    }
    let ghost so_far = out@;
    if let Some((all, discard)) = &costs.arena {
        let parts: Vec<&str> = vec![
            "| Combo 1 (arena, drop on success) | ",
            all.as_str(),
            " | collect + free drop (",
            discard.as_str(),
            " ns); no serialize |\n",
        ];
        out.append(joined(&parts).as_str());
        proof {
            assert(parts@.map_values(|p: &str| p@) =~= seq![
                "| Combo 1 (arena, drop on success) | "@,
                all@,
                " | collect + free drop ("@,
                discard@,
                " ns); no serialize |\n"@,
            ]);
        }
    }
    proof {
        assert(out@ =~= so_far + arena_line(costs.arena));
    }
    let ghost so_far = out@;
    if let Some(all) = &costs.tiered {
        let parts: Vec<&str> = vec![
            "| Combo 2 (summary default) | ",
            all.as_str(),
            " | collect+reduce+summary JSON |\n",
        ];
        out.append(joined(&parts).as_str());
        proof {
            assert(parts@.map_values(|p: &str| p@) =~= seq![
                "| Combo 2 (summary default) | "@,
                all@,
                " | collect+reduce+summary JSON |\n"@,
            ]);
        }
    }
    proof {
        assert(out@ =~= so_far + tiered_line(costs.tiered));
    }
    let ghost so_far = out@;
    if let Some((all, collect, discard)) = &costs.gated {
        let parts: Vec<&str> = vec![
            "| Combo 4 (gated, dropped) | ",
            all.as_str(),
            " | collect (",
            collect.as_str(),
            ") + return to pool (",
            discard.as_str(),
            "); **built nothing** |\n",
        ];
        out.append(joined(&parts).as_str());
        proof {
            assert(parts@.map_values(|p: &str| p@) =~= seq![
                "| Combo 4 (gated, dropped) | "@,
                all@,
                " | collect ("@,
                collect@,
                ") + return to pool ("@,
                discard@,
                "); **built nothing** |\n"@,
            ]);
        }
    }
    proof {
        assert(out@ =~= so_far + gated_line(costs.gated));
    }
    out
}

// ---------------------------------------------------------------------------
// The decision
// ---------------------------------------------------------------------------

/// What the policy decided in one scenario, and what it cost, as text.
#[derive(Clone, Debug)]
pub struct GateLine {
    /// Name of the scenario.
    pub scenario: String,
    /// Whether diagnostics were built.
    pub built: bool,
    /// Time to collect (ns).
    pub collect: String,
    /// Time to discard (ns).
    pub discard: String,
    /// Time to construct and serialize (ns).
    pub build: String,
    /// Size of the summary.
    pub summary_bytes: usize,
    /// Size of the detail.
    pub detailed_bytes: usize,
}

/// The measurements of the gated design in a scenario that the decision table counts: collect and
/// discard where it drops, and construct and serialize where it builds the summary.
pub fn gate_terms<N: Copy>(rows: &Vec<BenchRow<N>>, scenario: &str) -> (t: (
    Option<(N, N)>,
    Option<(N, N)>,
))
    ensures
        dropped_of(rows@, t.0, scenario@, "combo4"@, "dropped"@),
        built_of(rows@, t.1, scenario@, "combo4"@, "summary"@),
{
    (
        dropped_terms(rows, scenario, "combo4", "dropped"),
        built_terms(rows, scenario, "combo4", "summary"),
    )
}

/// A line of the decision table: what was decided in a scenario, with its costs as text, and the
/// sizes of the gated design's outputs there.
pub fn gate_line<N>(
    rows: &Vec<BenchRow<N>>,
    scenario: &str,
    built: bool,
    collect: String,
    discard: String,
    build: String,
) -> (line: GateLine)
    ensures
        line.scenario@ == scenario@,
        line.built == built,
        line.collect@ == collect@,
        line.discard@ == discard@,
        line.build@ == build@,
        line.summary_bytes == size_in(rows@, scenario@, "combo4"@, "summary"@),
        line.detailed_bytes == size_in(rows@, scenario@, "combo4"@, "detailed"@),
{
    GateLine {
        scenario: scenario.to_owned(),
        built,
        collect,
        discard,
        build,
        summary_bytes: find_size(rows, scenario, "combo4", "summary"),
        detailed_bytes: find_size(rows, scenario, "combo4", "detailed"),
    }
}

/// What stands above the lines of the decision table.
pub const GATE_HEADER: &'static str =
    "\n## Combo 4 — the diagnostics gate in action (policy: build on error OR > 5 ms)\n\nHot-path `collect` is paid always; everything else only when the policy says build.\n\n| Scenario | Gate decision | collect ns | if dropped: +discard ns | if built: +construct+serialize ns | summary bytes | detailed bytes |\n|---|---|--:|--:|--:|--:|--:|\n";

/// The words for a decision.
pub open spec fn decision(built: bool) -> Seq<char> {
    if built {
        "**build**"@
    } else {
        "drop (free)"@
    }
}

/// A line of the decision table.
pub open spec fn gate_text(line: GateLine) -> Seq<char> {
    laid_out(
        "| "@,
        seq![
            line.scenario@,
            decision(line.built),
            line.collect@,
            line.discard@,
            line.build@,
            decimal(line.summary_bytes as nat),
            decimal(line.detailed_bytes as nat),
        ],
        " | "@,
        " |\n"@,
    )
}

/// Renders a line of the decision table.
fn gate_line_text(line: &GateLine) -> (s: String)
    ensures
        s@ == gate_text(*line),
{
    let summary = decimal_text(line.summary_bytes as u64);
    let detailed = decimal_text(line.detailed_bytes as u64);
    let words: &str = if line.built {
        "**build**"
    } else {
        "drop (free)"
    };
    let parts: Vec<&str> = vec![
        line.scenario.as_str(),
        words,
        line.collect.as_str(),
        line.discard.as_str(),
        line.build.as_str(),
        summary.as_str(),
        detailed.as_str(),
    ];
    proof {
        assert(views(parts@) =~= seq![
            line.scenario@,
            decision(line.built),
            line.collect@,
            line.discard@,
            line.build@,
            decimal(line.summary_bytes as nat),
            decimal(line.detailed_bytes as nat),
        ]);
    }
    lay_out("| ", &parts, " | ", " |\n")
}

/// Renders the decision table.
pub fn gate_md(lines: &Vec<GateLine>) -> (out: String)
    ensures
        out@ == GATE_HEADER@ + concatenation(lines@.map_values(|l: GateLine| gate_text(l))),
{
    let ghost all = lines@.map_values(|l: GateLine| gate_text(l));
    let mut out = GATE_HEADER.to_owned();
    let mut i: usize = 0;
    proof {
        assert(out@ =~= GATE_HEADER@ + concatenation(all.take(0)));
    }
    while i < lines.len()
        invariant
            i <= lines.len(),
            all == lines@.map_values(|l: GateLine| gate_text(l)),
            out@ == GATE_HEADER@ + concatenation(all.take(i as int)),
        decreases lines.len() - i,
    {
        let line = gate_line_text(&lines[i]);
        out.append(line.as_str());
        proof {
            assert(all.take(i + 1).drop_last() =~= all.take(i as int));
            assert(all.take(i + 1).last() == line@);
            assert(out@ =~= GATE_HEADER@ + concatenation(all.take(i + 1)));
        }
        i = i + 1;
    }
    proof {
        assert(all.take(i as int) =~= all);
    }
    out
}

} // verus!
