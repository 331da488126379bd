//! What the tables of the comparison show, and what the fan-out scenario is made of.

use vstd::prelude::*;
use vstd::string::*;

use crate::laws::formats::{lemma_five, lemma_three};
use crate::report::{
    arena_line, baseline, built_of, cells, csv_line, csv_of, dropped_of, eager_line, gate_text,
    gated_line, is_first, is_unmeasured, laid_out, md_line, md_of, row_is, size_in, size_text,
    sizes_of, tiered_line, whole_of, BenchRow, GateLine, SizeLine, CSV_HEADER, HAPPY_HEADER,
    MD_HEADER, MD_RULE, SIZES_HEADER,
};
use crate::scenarios::{
    noop_model, s1_model, s2_model, s3_model, s4_child, s4_model, AttemptModel,
};
use crate::text::{concatenation, decimal, digits, zero_padded};

verus! {

/// A line has its start, its cells with the gap between each two, and its end.
pub proof fn law_lines_are_laid_out(
    start: Seq<char>,
    cells: Seq<Seq<char>>,
    last: Seq<char>,
    gap: Seq<char>,
    end: Seq<char>,
)
    ensures
        laid_out(start, seq![last], gap, end) == start + last + end,
        cells.len() > 0 ==> laid_out(start, cells.push(last), gap, end) == laid_out(
            start,
            cells,
            gap,
            Seq::empty(),
        ) + gap + last + end,
{
    assert(cells.push(last).drop_last() =~= cells);
}

/// The cells of a row: design, scenario and mode, then the five times from collect to discard, then
/// the size in decimal.
pub proof fn law_cells_of_rows(row: BenchRow<String>)
    ensures
        cells(row).len() == 9,
        cells(row)[0] == row.combo@,
        cells(row)[1] == row.scenario@,
        cells(row)[2] == row.mode@,
        cells(row)[3] == row.collect_ns@,
        cells(row)[4] == row.construct_ns@,
        cells(row)[5] == row.serialize_ns@,
        cells(row)[6] == row.decode_ns@,
        cells(row)[7] == row.discard_ns@,
        cells(row)[8] == decimal(row.output_bytes as nat),
        csv_line(row) == laid_out(Seq::empty(), cells(row), ","@, "\n"@),
        md_line(row) == laid_out("| "@, cells(row), " | "@, " |\n"@),
{
}

/// The CSV and the Markdown table have their headings and then one line for each row, in order.
pub proof fn law_tables_grow_by_rows(rows: Seq<BenchRow<String>>, row: BenchRow<String>)
    ensures
        csv_of(Seq::empty())
            == "combo,scenario,mode,collect_ns,construct_ns,serialize_ns,decode_ns,discard_ns,output_bytes\n"@,
        csv_of(rows.push(row)) == csv_of(rows) + csv_line(row),
        md_of(Seq::empty())
            == "| Combo | Scenario | Mode | collect ns | construct ns | serialize ns | decode ns | discard ns | bytes |\n"@
            + "|---|---|---|--:|--:|--:|--:|--:|--:|\n"@,
        md_of(rows.push(row)) == md_of(rows) + md_line(row),
{
    let csv = |r: BenchRow<String>| csv_line(r);
    let md = |r: BenchRow<String>| md_line(r);
    let none = Seq::<BenchRow<String>>::empty();
    assert(none.map_values(csv) =~= Seq::empty());
    assert(none.map_values(md) =~= Seq::empty());
    assert(rows.push(row).map_values(csv).drop_last() =~= rows.map_values(csv));
    assert(rows.push(row).map_values(md).drop_last() =~= rows.map_values(md));
    assert(csv_of(none) =~= CSV_HEADER@);
    assert(md_of(none) =~= MD_HEADER@ + MD_RULE@);
    assert(csv_of(rows.push(row)) =~= csv_of(rows) + csv_line(row));
    assert(md_of(rows.push(row)) =~= md_of(rows) + md_line(row));
}

/// The size that is looked up is that of the first row of the scenario, design and mode, and zero
/// where there is none.
pub proof fn law_sizes_are_of_the_first_row<N>(
    rows: Seq<BenchRow<N>>,
    at: int,
    scenario: Seq<char>,
    combo: Seq<char>,
    mode: Seq<char>,
)
    ensures
        (0 <= at < rows.len() && rows[at].scenario@ == scenario && rows[at].combo@ == combo
            && rows[at].mode@ == mode && (forall|k: int|
            0 <= k < at ==> !((#[trigger] rows[k]).scenario@ == scenario && rows[k].combo@ == combo
                && rows[k].mode@ == mode))) ==> size_in(rows, scenario, combo, mode)
            == rows[at].output_bytes,
        (forall|k: int|
            0 <= k < rows.len() ==> !((#[trigger] rows[k]).scenario@ == scenario && rows[k].combo@
                == combo && rows[k].mode@ == mode)) ==> size_in(rows, scenario, combo, mode) == 0,
    decreases rows.len(),
{
    if rows.len() > 0 && !row_is(rows[0], scenario, combo, mode) {
        let rest = rows.skip(1);
        assert forall|k: int| 0 <= k < rest.len() implies #[trigger] rest[k] == rows[k + 1] by {}
        law_sizes_are_of_the_first_row(rest, at - 1, scenario, combo, mode);
    }
}

/// The baseline of a scenario is the size in its last row of the eager design.
pub proof fn law_baseline_is_the_last_eager_row<N>(
    rows: Seq<BenchRow<N>>,
    at: int,
    scenario: Seq<char>,
)
    ensures
        baseline(rows).contains_key(scenario) <==> exists|k: int|
            0 <= k < rows.len() && (#[trigger] rows[k]).combo@ == "combo3"@ && rows[k].scenario@
                == scenario,
        (0 <= at < rows.len() && rows[at].combo@ == "combo3"@ && rows[at].scenario@ == scenario && (
        forall|k: int|
            at < k < rows.len() ==> !((#[trigger] rows[k]).combo@ == "combo3"@
                && rows[k].scenario@ == scenario))) ==> baseline(rows)[scenario]
            == rows[at].output_bytes,
    decreases rows.len(),
{
    if rows.len() > 0 {
        let init = rows.drop_last();
        law_baseline_is_the_last_eager_row(init, at, scenario);
        assert forall|k: int| 0 <= k < init.len() implies #[trigger] init[k] == rows[k] by {}
        let last = rows[rows.len() - 1];
        if exists|k: int|
            0 <= k < init.len() && (#[trigger] init[k]).combo@ == "combo3"@ && init[k].scenario@
                == scenario {
            let k = choose|k: int|
                0 <= k < init.len() && (#[trigger] init[k]).combo@ == "combo3"@
                    && init[k].scenario@ == scenario;
            assert(rows[k].combo@ == "combo3"@ && rows[k].scenario@ == scenario);
        }
        if exists|k: int|
            0 <= k < rows.len() && (#[trigger] rows[k]).combo@ == "combo3"@ && rows[k].scenario@
                == scenario {
            let k = choose|k: int|
                0 <= k < rows.len() && (#[trigger] rows[k]).combo@ == "combo3"@
                    && rows[k].scenario@ == scenario;
            if k < init.len() {
                assert(init[k].combo@ == "combo3"@ && init[k].scenario@ == scenario);
            }
        }
        assert(last == rows.last());
    }
}

/// The lines of the happy path name the design and show what they are given, and a design that was
/// not measured has none.
pub proof fn law_happy_path_lines(all: String, collect: String, discard: String)
    ensures
        eager_line(Some(all)) == "| Combo 3 (eager) | "@ + all@
            + " | collect+construct+serialize, always |\n"@,
        arena_line(Some((all, discard))) == "| Combo 1 (arena, drop on success) | "@ + all@
            + " | collect + free drop ("@ + discard@ + " ns); no serialize |\n"@,
        tiered_line(Some(all)) == "| Combo 2 (summary default) | "@ + all@
            + " | collect+reduce+summary JSON |\n"@,
        gated_line(Some((all, collect, discard))) == "| Combo 4 (gated, dropped) | "@ + all@
            + " | collect ("@ + collect@ + ") + return to pool ("@ + discard@
            + "); **built nothing** |\n"@,
        eager_line(None).len() == 0,
        arena_line(None).len() == 0,
        tiered_line(None).len() == 0,
        gated_line(None).len() == 0,
{
    lemma_three("| Combo 3 (eager) | "@, all@, " | collect+construct+serialize, always |\n"@);
    lemma_five(
        "| Combo 1 (arena, drop on success) | "@,
        all@,
        " | collect + free drop ("@,
        discard@,
        " ns); no serialize |\n"@,
    );
    lemma_three("| Combo 2 (summary default) | "@, all@, " | collect+reduce+summary JSON |\n"@);
    lemma_seven(
        "| Combo 4 (gated, dropped) | "@,
        all@,
        " | collect ("@,
        collect@,
        ") + return to pool ("@,
        discard@,
        "); **built nothing** |\n"@,
    );
}

/// Seven pieces stand in a row.
proof fn lemma_seven(
    a: Seq<char>,
    b: Seq<char>,
    c: Seq<char>,
    d: Seq<char>,
    e: Seq<char>,
    f: Seq<char>,
    g: Seq<char>,
)
    ensures
        concatenation(seq![a, b, c, d, e, f, g]) == a + b + c + d + e + f + g,
{
    lemma_five(a, b, c, d, e);
    let six = seq![a, b, c, d, e, f];
    let seven = seq![a, b, c, d, e, f, g];
    assert(six.drop_last() =~= seq![a, b, c, d, e]);
    assert(seven.drop_last() =~= six);
    assert(concatenation(six) == concatenation(six.drop_last()) + six.last());
    assert(concatenation(seven) == concatenation(seven.drop_last()) + seven.last());
}

/// The lines of the size table and of the decision table show their fields in order.
pub proof fn law_other_lines(
    line: SizeLine,
    arena: Seq<char>,
    summary: Seq<char>,
    g: GateLine,
)
    ensures
        size_text(line, arena, summary) == laid_out(
            "| "@,
            seq![
                line.scenario@,
                decimal(line.eager_json as nat),
                decimal(line.arena_binary as nat),
                decimal(line.tiered_summary as nat),
                decimal(line.tiered_detailed as nat),
                arena + "×"@,
                summary + "×"@,
            ],
            " | "@,
            " |\n"@,
        ),
        gate_text(g) == laid_out(
            "| "@,
            seq![
                g.scenario@,
                if g.built {
                    "**build**"@
                } else {
                    "drop (free)"@
                },
                g.collect@,
                g.discard@,
                g.build@,
                decimal(g.summary_bytes as nat),
                decimal(g.detailed_bytes as nat),
            ],
            " | "@,
            " |\n"@,
        ),
{
}

/// Child `i` of the fan-out scenario has the plan node and the feed range of its number: ranges of
/// 256, in hexadecimal of four digits, each of which starts where the one before it ends.
pub proof fn law_fan_out_children(i: int)
    requires
        0 <= i,
        1_000_000 + i * 50_000 <= 0xFFFF_FFFF_FFFF_FFFF,
    ensures
        s4_child(i).plan_node_id == "plan/node/"@ + decimal(i as nat),
        s4_child(i).feed_range == "range-"@ + zero_padded(decimal(i as nat), 2) + ":["@
            + zero_padded(digits((256 * i) as nat, 16), 4) + "-"@ + zero_padded(
            digits((256 * i + 256) as nat, 16),
            4,
        ) + ")"@,
        s4_child(i).duration_ns == 1_000_000 + i * 50_000,
{
    lemma_seven(
        "range-"@,
        zero_padded(decimal(i as nat), 2),
        ":["@,
        zero_padded(digits((i * 256) as nat, 16), 4),
        "-"@,
        zero_padded(digits(((i + 1) * 256) as nat, 16), 4),
        ")"@,
    );
    assert((i + 1) * 256 == 256 * i + 256);
}

/// The terms that a table counts are the columns of the first row of the scenario, design and mode,
/// whatever follows it, and there are none where there is no such row.
pub proof fn law_terms_are_of_the_first_row<N>(
    rows: Seq<BenchRow<N>>,
    at: int,
    scenario: Seq<char>,
    combo: Seq<char>,
    mode: Seq<char>,
    three: Option<(N, N, N)>,
    two: Option<(N, N)>,
)
    ensures
        (0 <= at < rows.len() && rows[at].scenario@ == scenario && rows[at].combo@ == combo
            && rows[at].mode@ == mode && (forall|k: int|
            0 <= k < at ==> !((#[trigger] rows[k]).scenario@ == scenario && rows[k].combo@ == combo
                && rows[k].mode@ == mode))) ==> {
            &&& whole_of(rows, three, scenario, combo, mode) <==> three == Some(
                (rows[at].collect_ns, rows[at].construct_ns, rows[at].serialize_ns),
            )
            &&& dropped_of(rows, two, scenario, combo, mode) <==> two == Some(
                (rows[at].collect_ns, rows[at].discard_ns),
            )
            &&& built_of(rows, two, scenario, combo, mode) <==> two == Some(
                (rows[at].construct_ns, rows[at].serialize_ns),
            )
        },
        (forall|k: int|
            0 <= k < rows.len() ==> !((#[trigger] rows[k]).scenario@ == scenario && rows[k].combo@
                == combo && rows[k].mode@ == mode)) ==> {
            &&& whole_of(rows, three, scenario, combo, mode) <==> three is None
            &&& dropped_of(rows, two, scenario, combo, mode) <==> two is None
            &&& built_of(rows, two, scenario, combo, mode) <==> two is None
        },
{
    if 0 <= at < rows.len() && rows[at].scenario@ == scenario && rows[at].combo@ == combo
        && rows[at].mode@ == mode && (forall|k: int|
        0 <= k < at ==> !((#[trigger] rows[k]).scenario@ == scenario && rows[k].combo@ == combo
            && rows[k].mode@ == mode)) {
        assert(is_first(rows, at, scenario, combo, mode));
        assert(!is_unmeasured(rows, scenario, combo, mode));
        assert forall|i: int| #[trigger] is_first(rows, i, scenario, combo, mode) implies i
            == at by {
            if i < at {
                assert(row_is(rows[i], scenario, combo, mode));
            }
            if at < i {
                assert(row_is(rows[at], scenario, combo, mode));
            }
        }
    }
    if forall|k: int|
        0 <= k < rows.len() ==> !((#[trigger] rows[k]).scenario@ == scenario && rows[k].combo@
            == combo && rows[k].mode@ == mode) {
        assert(is_unmeasured(rows, scenario, combo, mode));
        assert forall|i: int| !(#[trigger] is_first(rows, i, scenario, combo, mode)) by {
            if 0 <= i < rows.len() {
                assert(!(rows[i].scenario@ == scenario && rows[i].combo@ == combo && rows[i].mode@
                    == mode));
            }
        }
    }
}

/// The size table has its heading and then one line for each scenario, in order, with the ratios
/// that belong to it.
pub proof fn law_size_table_grows_by_lines(
    lines: Seq<SizeLine>,
    arena: Seq<String>,
    summary: Seq<String>,
    line: SizeLine,
    a: String,
    s: String,
)
    requires
        arena.len() == lines.len(),
        summary.len() == lines.len(),
    ensures
        sizes_of(Seq::empty(), Seq::empty(), Seq::empty())
            == "## Output size & reduction vs Combo 3 JSON\n\n| Scenario | Combo 3 JSON (bytes) | Combo 1 binary | Combo 2 summary | Combo 2 detailed | C1 × smaller | C2-summary × smaller |\n|---|--:|--:|--:|--:|--:|--:|\n"@,
        sizes_of(lines.push(line), arena.push(a), summary.push(s)) == sizes_of(
            lines,
            arena,
            summary,
        ) + size_text(line, a@, s@),
{
    let empty = Seq::new(
        0,
        |i: int|
            size_text(
                Seq::<SizeLine>::empty()[i],
                Seq::<String>::empty()[i]@,
                Seq::<String>::empty()[i]@,
            ),
    );
    assert(empty =~= Seq::empty());
    assert(sizes_of(Seq::empty(), Seq::empty(), Seq::empty()) =~= SIZES_HEADER@);
    let before = Seq::new(lines.len(), |i: int| size_text(lines[i], arena[i]@, summary[i]@));
    let l = lines.push(line);
    let x = arena.push(a);
    let y = summary.push(s);
    let after = Seq::new(l.len(), |i: int| size_text(l[i], x[i]@, y[i]@));
    assert(after.drop_last() =~= before);
    assert(after.last() == size_text(line, a@, s@));
    assert(sizes_of(l, x, y) =~= sizes_of(lines, arena, summary) + size_text(line, a@, s@));
}

/// What stands above the happy path.
pub proof fn law_happy_path_heading()
    ensures
        HAPPY_HEADER@
            == "\n## Happy-path overhead (S1, success)\n\nOn success, Combo 1 drops the arena without serializing, and Combo 2 (summary) never builds the full tree. Combo 3 pays collect + construct + serialize unconditionally.\n\n| Design | Happy-path cost (ns, median) | Notes |\n|---|--:|---|\n"@,
{
}

/// The names of the designs in samples and rows.
pub proof fn law_names_of_designs()
    ensures
        crate::combo1::COMBO@ == "combo1"@,
        crate::combo2::COMBO@ == "combo2"@,
        crate::combo3::COMBO@ == "combo3"@,
        crate::combo4::COMBO@ == "combo4"@,
{
}

/// The attempt of a script: its status, its id and how long it takes, charged 4.2 request units.
pub open spec fn is_point_attempt(a: AttemptModel, status: u16, id: Seq<char>, ns: u64) -> bool {
    &&& a.status == status
    &&& a.service_request_id == id
    &&& a.duration_ns == ns
    &&& a.request_charge.bits == 0x4010_CCCC_CCCC_CCCD
    &&& a.request_charge.single == 0x4086_6666
    &&& a.request_charge.text == "4.2"@
    &&& a.request_charge.json == "4.2"@
}

/// The reference scenarios: a success, a throttled attempt before a success, a missing item, and a
/// query with a fan-out.
pub proof fn law_reference_scenarios(n: nat)
    ensures
        s1_model().name == "read_item"@,
        s1_model().endpoint == "https://contoso.documents.azure.com/dbs/db/colls/c/docs/1"@,
        s1_model().client_request_id == "client-0001"@,
        s1_model().attempts.len() == 1,
        is_point_attempt(s1_model().attempts[0], 200, "svc-200"@, 4_000_000),
        s1_model().children.len() == 0,
        s2_model().name == "read_item"@,
        s2_model().endpoint == "https://contoso.documents.azure.com/dbs/db/colls/c/docs/1"@,
        s2_model().client_request_id == "client-0002"@,
        s2_model().attempts.len() == 2,
        is_point_attempt(s2_model().attempts[0], 429, "svc-429"@, 3_000_000),
        is_point_attempt(s2_model().attempts[1], 200, "svc-200"@, 4_000_000),
        s2_model().children.len() == 0,
        s3_model().name == "read_item"@,
        s3_model().endpoint == "https://contoso.documents.azure.com/dbs/db/colls/c/docs/missing"@,
        s3_model().client_request_id == "client-0003"@,
        s3_model().attempts.len() == 1,
        is_point_attempt(s3_model().attempts[0], 404, "svc-404"@, 2_500_000),
        s3_model().children.len() == 0,
        s4_model(n).name == "query_items"@,
        s4_model(n).endpoint == "https://contoso.documents.azure.com/dbs/db/colls/c/docs"@,
        s4_model(n).client_request_id == "client-0004"@,
        s4_model(n).attempts.len() == 1,
        s4_model(n).attempts[0].status == 200,
        s4_model(n).attempts[0].service_request_id == "svc-query-200"@,
        s4_model(n).attempts[0].duration_ns == 6_000_000,
        s4_model(n).attempts[0].request_charge.bits == 0x4032_9999_9999_999A,
        s4_model(n).attempts[0].request_charge.single == 0x4194_CCCD,
        s4_model(n).attempts[0].request_charge.text == "18.6"@,
        s4_model(n).attempts[0].request_charge.json == "18.6"@,
        s4_model(n).children.len() == n,
        forall|i: int| 0 <= i < n ==> #[trigger] s4_model(n).children[i] == s4_child(i),
        noop_model().name == "noop"@,
        noop_model().endpoint == "https://noop"@,
        noop_model().client_request_id == "noop"@,
        noop_model().attempts.len() == 0,
        noop_model().children.len() == 0,
{
}

} // verus!
