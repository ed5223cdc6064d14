use tally::digits::{fraction_string, u64_string};
use tally::matrix::{Matrix, Timestamp, Totals};
use tally::render::{data_literal, default_title, document, graph_document};

fn ts(secs: i64) -> Timestamp {
    Timestamp { secs, nanos: 0 }
}

fn scenario_matrix() -> Matrix {
    let mut m = Matrix::new(1);
    m.push_row(ts(0), vec![0]);
    m.push_row(ts(10), vec![5]);
    m.push_row(ts(20), vec![5]);
    m.push_row(ts(30), vec![2]);
    m
}

#[test]
fn integer_rendering() {
    assert_eq!(u64_string(0), "0");
    assert_eq!(u64_string(7), "7");
    assert_eq!(u64_string(1234567), "1234567");
}

#[test]
fn zero_denominator_renders_literal_zero() {
    assert_eq!(fraction_string(5, 0), "0");
    assert_eq!(fraction_string(0, 0), "0");
    assert_eq!(fraction_string(u32::MAX, 0), "0");
}

#[test]
fn zero_numerator_renders_zero() {
    assert_eq!(fraction_string(0, 10), "0");
}

#[test]
fn simple_fractions() {
    assert_eq!(fraction_string(5, 10), "0.5");
    assert_eq!(fraction_string(2, 10), "0.2");
    assert_eq!(fraction_string(1, 8), "0.125");
    assert_eq!(fraction_string(3, 4), "0.75");
}

#[test]
fn truncation_keeps_two_digits_past_the_first_significant() {
    assert_eq!(fraction_string(1, 3), "0.333");
    assert_eq!(fraction_string(2, 3), "0.666");
    assert_eq!(fraction_string(1, 800), "0.00125");
    assert_eq!(fraction_string(1, 7), "0.142");
}

#[test]
fn fractions_above_one() {
    assert_eq!(fraction_string(15, 10), "1.5");
    assert_eq!(fraction_string(20, 10), "2");
    assert_eq!(fraction_string(105, 10), "10.5");
    assert_eq!(fraction_string(1005, 100), "10.0");
    assert_eq!(fraction_string(250, 100), "2.5");
}

#[test]
fn default_titles_cover_both_axes() {
    assert_eq!(
        default_title(true, true),
        "fraction of crates.io depending transitively"
    );
    assert_eq!(
        default_title(true, false),
        "fraction of crates.io depending directly"
    );
    assert_eq!(
        default_title(false, true),
        "number of crates depending transitively"
    );
    assert_eq!(
        default_title(false, false),
        "number of crates depending directly"
    );
}

#[test]
fn scenario_data_literal_unnormalized() {
    let m = scenario_matrix();
    let labels = vec![String::from("serde")];
    let data = data_literal(&m, &labels, None, ts(40));
    let expected = [
        "var data = [\n",
        "      {\"name\":\"serde\", \"values\":[\n",
        "        {\"time\":9000, \"edges\":0},\n",
        "        {\"time\":10000, \"edges\":5},\n",
        "        {\"time\":30000, \"edges\":2},\n",
        "        {\"time\":40000, \"edges\":2},\n",
        "      ]},\n",
        "    ];",
    ]
    .concat();
    assert_eq!(data, expected);
}

#[test]
fn scenario_data_literal_normalized() {
    let m = scenario_matrix();
    let labels = vec![String::from("serde")];
    let totals = Totals {
        per_row: vec![10, 10, 10, 10],
        at_now: 10,
    };
    let data = data_literal(&m, &labels, Some(&totals), ts(40));
    let expected = [
        "var data = [\n",
        "      {\"name\":\"serde\", \"values\":[\n",
        "        {\"time\":9000, \"edges\":0},\n",
        "        {\"time\":10000, \"edges\":0.5},\n",
        "        {\"time\":30000, \"edges\":0.2},\n",
        "        {\"time\":40000, \"edges\":0.2},\n",
        "      ]},\n",
        "    ];",
    ]
    .concat();
    assert_eq!(data, expected);
}

#[test]
fn negative_lead_time_renders_signed_millis() {
    let mut m = Matrix::new(1);
    m.push_row(ts(0), vec![5]);
    let labels = vec![String::from("q")];
    let data = data_literal(&m, &labels, None, ts(10));
    let expected = [
        "var data = [\n",
        "      {\"name\":\"q\", \"values\":[\n",
        "        {\"time\":-1000, \"edges\":0},\n",
        "        {\"time\":0, \"edges\":5},\n",
        "        {\"time\":10000, \"edges\":5},\n",
        "      ]},\n",
        "    ];",
    ]
    .concat();
    assert_eq!(data, expected);
}

#[test]
fn zero_total_at_a_point_renders_zero() {
    let mut m = Matrix::new(1);
    m.push_row(ts(10), vec![5]);
    m.push_row(ts(20), vec![3]);
    let labels = vec![String::from("q")];
    let totals = Totals {
        per_row: vec![0, 6],
        at_now: 0,
    };
    let data = data_literal(&m, &labels, Some(&totals), ts(30));
    let expected = [
        "var data = [\n",
        "      {\"name\":\"q\", \"values\":[\n",
        "        {\"time\":9000, \"edges\":0},\n",
        "        {\"time\":10000, \"edges\":0},\n",
        "        {\"time\":20000, \"edges\":0.5},\n",
        "        {\"time\":30000, \"edges\":0},\n",
        "      ]},\n",
        "    ];",
    ]
    .concat();
    assert_eq!(data, expected);
}

fn template() -> String {
    [
        "<script>\n",
    "var title = \"\";\n",
    "var data = [];\n",
    "var yFormatter = d3.format(\".\" + Math.max(0, d3.precisionFixed(stepSize) - 2) + \"%\");\n",
        "var tooltipFormatter = d3.format(\".\" + Math.max(0, d3.precisionFixed(stepSize / 10) - 2) + \"%\");\n",
        "</script>",
    ]
    .concat()
}

#[test]
fn document_substitutes_title_and_data_when_normalized() {
    let out = document(&template(), "my title", "var data = [\n    ];", true);
    let expected = [
        "<script>\n",
        "var title = \"my title\";\n",
        "var data = [\n    ];\n",
        "var yFormatter = d3.format(\".\" + Math.max(0, d3.precisionFixed(stepSize) - 2) + \"%\");\n",
        "var tooltipFormatter = d3.format(\".\" + Math.max(0, d3.precisionFixed(stepSize / 10) - 2) + \"%\");\n",
        "</script>",
    ]
    .concat();
    assert_eq!(out, expected);
}

#[test]
fn document_swaps_formatters_when_unnormalized() {
    let out = document(&template(), "t", "var data = [\n    ];", false);
    let expected = [
        "<script>\n",
        "var title = \"t\";\n",
        "var data = [\n    ];\n",
        "var yFormatter = d3.format(\",\");\n",
        "var tooltipFormatter = d3.format(\",\");\n",
        "</script>",
    ]
    .concat();
    assert_eq!(out, expected);
}

#[test]
fn graph_document_end_to_end() {
    let m = scenario_matrix();
    let labels = vec![String::from("serde")];
    let totals = Totals {
        per_row: vec![10, 10, 10, 10],
        at_now: 10,
    };
    let out = graph_document(&template(), None, true, &m, &labels, Some(&totals), ts(40));
    assert!(out.contains("var title = \"fraction of crates.io depending transitively\";"));
    assert!(out.contains("{\"time\":10000, \"edges\":0.5}"));
    assert!(out.contains("{\"time\":40000, \"edges\":0.2}"));
    // Normalized charts keep the percentage formatters.
    assert!(out.contains("precisionFixed"));

    let plain = graph_document(&template(), Some("given"), false, &m, &labels, None, ts(40));
    assert!(plain.contains("var title = \"given\";"));
    assert!(plain.contains("{\"time\":10000, \"edges\":5}"));
    assert!(plain.contains("var yFormatter = d3.format(\",\");"));
    assert!(plain.contains("var tooltipFormatter = d3.format(\",\");"));
}
