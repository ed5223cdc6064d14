//! Serialization of compacted series into the chart document.
//!
//! Each column becomes one named series of `{time, edges}` points, the
//! series are embedded as a data literal in a template document, a default
//! title is chosen when none is given, and, for an unnormalized chart, the
//! percentage-style axis formatters are swapped for plain-integer ones.

use crate::compact::Point;
use crate::compact::compact_column;
use crate::compact::point_wf;
use crate::compact::spec_compact_column;
use crate::digits::fraction_string;
use crate::digits::i64_string;
use crate::digits::spec_dec_str;
use crate::digits::spec_int_str;
use crate::digits::spec_fraction_str;
use crate::digits::u64_string;
use crate::matrix::Matrix;
use crate::matrix::Timestamp;
use crate::matrix::Totals;
use vstd::prelude::*;
use vstd::string::StringExecFns;

verus! {

/// The string with every match of a nonempty pattern replaced, scanning
/// left to right over non-overlapping occurrences.
pub open spec fn spec_replace(s: Seq<char>, from: Seq<char>, to: Seq<char>) -> Seq<char>
    recommends
        from.len() > 0,
    decreases s.len(),
{
    if from.len() == 0 || s.len() < from.len() {
        s
    } else if s.subrange(0, from.len() as int) == from {
        to + spec_replace(s.skip(from.len() as int), from, to)
    } else {
        seq![s[0]] + spec_replace(s.skip(1), from, to)
    }
}

/// Relies on str::replace: replaces every match of the pattern string with
/// the replacement, taking matches left to right, non-overlapping.
#[verifier::external_body]
fn replace_all(s: &str, from: &str, to: &str) -> (r: String)
    requires
        from@.len() > 0,
    ensures
        r@ == spec_replace(s@, from@, to@),
{
    s.replace(from, to)
}

/// The textual form of one emitted value: the plain count when no
/// denominator is supplied, the adaptive-precision fraction otherwise.
pub open spec fn spec_edges(value: u32, den: Option<u32>) -> Seq<char> {
    match den {
        None => spec_dec_str(value as nat),
        Some(d) => spec_fraction_str(value as nat, d as nat),
    }
}

/// The denominator that normalizes one point: the total at its source
/// row's instant, or the total at the render instant for the final
/// synthetic point.
pub open spec fn spec_point_den(p: Point, totals: Totals) -> u32 {
    match p.origin {
        Some(j) => totals.per_row@[j as int],
        None => totals.at_now,
    }
}

pub open spec fn spec_opt_den(p: Point, totals: Option<Totals>) -> Option<u32> {
    match totals {
        None => None,
        Some(t) => Some(spec_point_den(p, t)),
    }
}

/// One point as a line of the embedded data literal.
pub open spec fn spec_point_line(p: Point, den: Option<u32>) -> Seq<char> {
    "        {\"time\":"@ + spec_int_str(p.time.spec_millis() as int) + ", \"edges\":"@
        + spec_edges(p.value, den) + "},\n"@
}

/// The lines for a whole series of points.
pub open spec fn spec_series_body(pts: Seq<Point>, totals: Option<Totals>) -> Seq<char>
    decreases pts.len(),
{
    if pts.len() == 0 {
        Seq::empty()
    } else {
        spec_point_line(pts[0], spec_opt_den(pts[0], totals)) + spec_series_body(
            pts.drop_first(),
            totals,
        )
    }
}

/// The ghost value of an optional borrowed denominator table.
pub open spec fn spec_totals_of(totals: Option<&Totals>) -> Option<Totals> {
    match totals {
        None => None,
        Some(t) => Some(*t),
    }
}

fn push_point_line(s: &mut String, p: &Point, den: Option<u32>)
    requires
        p.time.renderable(),
    ensures
        final(s)@ == old(s)@ + spec_point_line(*p, den),
{
    s.append("        {\"time\":");
    assert(p.time.spec_millis() > i64::MIN);
    let millis = i64_string(p.time.millis());
    s.append(millis.as_str());
    s.append(", \"edges\":");
    let edges = match den {
        None => u64_string(p.value as u64),
        Some(d) => fraction_string(p.value, d),
    };
    s.append(edges.as_str());
    s.append("},\n");
    proof {
        assert(s@ =~= old(s)@ + spec_point_line(*p, den));
    }
}

fn series_body(pts: &Vec<Point>, totals: Option<&Totals>) -> (r: String)
    requires
        match totals {
            Some(t) => forall|k: int|
                0 <= k < pts@.len() ==> point_wf(#[trigger] pts@[k], t.per_row@.len() as int),
            None => forall|k: int|
                0 <= k < pts@.len() ==> (#[trigger] pts@[k]).time.renderable(),
        },
    ensures
        r@ == spec_series_body(pts@, spec_totals_of(totals)),
{
    let ghost gt = spec_totals_of(totals);
    let mut s = String::new();
    proof {
        assert(pts@.skip(0) =~= pts@);
        assert(s@ + spec_series_body(pts@, gt) =~= spec_series_body(pts@, gt));
    }
    let mut i: usize = 0;
    while i < pts.len()
        invariant
            0 <= i <= pts@.len(),
            match totals {
                Some(t) => forall|k: int|
                    0 <= k < pts@.len() ==> point_wf(#[trigger] pts@[k], t.per_row@.len() as int),
                None => forall|k: int|
                    0 <= k < pts@.len() ==> (#[trigger] pts@[k]).time.renderable(),
            },
            gt == spec_totals_of(totals),
            spec_series_body(pts@, gt) == s@ + spec_series_body(pts@.skip(i as int), gt),
        decreases pts@.len() - i,
    {
        let p = pts[i];
        let den: Option<u32> = match totals {
            None => None,
            Some(t) => match p.origin {
                Some(j) => Some(t.per_row[j]),
                None => Some(t.at_now),
            },
        };
        assert(den == spec_opt_den(pts@[i as int], gt));
        let ghost s_before = s@;
        push_point_line(&mut s, &p, den);
        proof {
            assert(pts@.skip(i as int).drop_first() =~= pts@.skip(i + 1));
            assert(pts@.skip(i as int)[0] == pts@[i as int]);
            assert(s@ + spec_series_body(pts@.skip(i + 1), gt) =~= s_before + spec_series_body(
                pts@.skip(i as int),
                gt,
            ));
        }
        i += 1;
    }
    proof {
        assert(pts@.skip(pts@.len() as int) =~= Seq::<Point>::empty());
        assert(s@ + spec_series_body(pts@.skip(pts@.len() as int), gt) =~= s@);
    }
    s
}

/// One labelled series block of the data literal.
pub open spec fn spec_label_block(
    label: Seq<char>,
    pts: Seq<Point>,
    totals: Option<Totals>,
) -> Seq<char> {
    "      {\"name\":\""@ + label + "\", \"values\":[\n"@ + spec_series_body(pts, totals)
        + "      ]},\n"@
}

/// The series blocks for the columns from `i` onward.
pub open spec fn spec_data_from(
    m: Matrix,
    labels: Seq<String>,
    totals: Option<Totals>,
    now: Timestamp,
    i: int,
) -> Seq<char>
    decreases labels.len() - i,
{
    if i < 0 || i >= labels.len() {
        Seq::empty()
    } else {
        spec_label_block(
            labels[i]@,
            spec_compact_column(m.times@, m.spec_column(i), now),
            totals,
        ) + spec_data_from(m, labels, totals, now, i + 1)
    }
}

/// The whole embedded data literal: one block per column, in label order.
pub open spec fn spec_data_literal(
    m: Matrix,
    labels: Seq<String>,
    totals: Option<Totals>,
    now: Timestamp,
) -> Seq<char> {
    "var data = [\n"@ + spec_data_from(m, labels, totals, now, 0) + "    ];"@
}

/// Build the data literal that replaces the template's empty one.
pub fn data_literal(
    m: &Matrix,
    labels: &Vec<String>,
    totals: Option<&Totals>,
    now: Timestamp,
) -> (r: String)
    requires
        m.wf(),
        labels@.len() == m.width,
        now.wf(),
        match totals {
            Some(t) => t.matches(m),
            None => true,
        },
    ensures
        r@ == spec_data_literal(*m, labels@, spec_totals_of(totals), now),
{
    let ghost gt = spec_totals_of(totals);
    let mut s = String::new();
    s.append("var data = [\n");
    proof {
        assert(s@ =~= "var data = [\n"@);
    }
    let mut i: usize = 0;
    while i < labels.len()
        invariant
            m.wf(),
            labels@.len() == m.width,
            now.wf(),
            match totals {
                Some(t) => t.matches(m),
                None => true,
            },
            gt == spec_totals_of(totals),
            0 <= i <= labels@.len(),
            s@ + spec_data_from(*m, labels@, gt, now, i as int) == "var data = [\n"@
                + spec_data_from(*m, labels@, gt, now, 0),
        decreases labels@.len() - i,
    {
        let ghost s_before = s@;
        s.append("      {\"name\":\"");
        s.append(labels[i].as_str());
        s.append("\", \"values\":[\n");
        let pts = compact_column(m, i, now);
        let body = series_body(&pts, totals);
        s.append(body.as_str());
        s.append("      ]},\n");
        proof {
            assert(s@ =~= s_before + spec_label_block(
                labels@[i as int]@,
                spec_compact_column(m.times@, m.spec_column(i as int), now),
                gt,
            ));
            assert(s@ + spec_data_from(*m, labels@, gt, now, i + 1) =~= s_before
                + spec_data_from(*m, labels@, gt, now, i as int));
        }
        i += 1;
    }
    proof {
        assert(s@ + spec_data_from(*m, labels@, gt, now, labels@.len() as int) =~= s@);
    }
    s.append("    ];");
    proof {
        assert(s@ =~= spec_data_literal(*m, labels@, gt, now));
    }
    s
}

/// The default chart title, chosen by whether the counts are normalized
/// and whether transitive dependencies are tallied.
pub open spec fn spec_default_title(normalized: bool, transitive: bool) -> Seq<char> {
    if normalized {
        if transitive {
            "fraction of crates.io depending transitively"@
        } else {
            "fraction of crates.io depending directly"@
        }
    } else {
        if transitive {
            "number of crates depending transitively"@
        } else {
            "number of crates depending directly"@
        }
    }
}

pub fn default_title(normalized: bool, transitive: bool) -> (r: &'static str)
    ensures
        r@ == spec_default_title(normalized, transitive),
{
    if normalized {
        if transitive {
            "fraction of crates.io depending transitively"
        } else {
            "fraction of crates.io depending directly"
        }
    } else {
        if transitive {
            "number of crates depending transitively"
        } else {
            "number of crates depending directly"
        }
    }
}

/// The document with the title and data substituted, and, when the chart is
/// unnormalized, the percentage-style formatter expressions swapped for
/// plain-integer ones.
pub open spec fn spec_document(
    template: Seq<char>,
    title: Seq<char>,
    data: Seq<char>,
    normalized: bool,
) -> Seq<char> {
    let with_title = spec_replace(
        template,
        "var title = \"\";"@,
        "var title = \""@ + title + "\";"@,
    );
    let with_data = spec_replace(with_title, "var data = [];"@, data);
    if normalized {
        with_data
    } else {
        spec_replace(
            spec_replace(
                with_data,
                "var yFormatter = d3.format(\".\" + Math.max(0, d3.precisionFixed(stepSize) - 2) + \"%\");"@,
                "var yFormatter = d3.format(\",\");"@,
            ),
            "var tooltipFormatter = d3.format(\".\" + Math.max(0, d3.precisionFixed(stepSize / 10) - 2) + \"%\");"@,
            "var tooltipFormatter = d3.format(\",\");"@,
        )
    }
}

/// Substitute the title and the data literal into the template document.
pub fn document(template: &str, title: &str, data: &str, normalized: bool) -> (r: String)
    ensures
        r@ == spec_document(template@, title@, data@, normalized),
{
    proof {
        reveal_strlit("var title = \"\";");
        reveal_strlit("var data = [];");
        reveal_strlit(
            "var yFormatter = d3.format(\".\" + Math.max(0, d3.precisionFixed(stepSize) - 2) + \"%\");",
        );
        reveal_strlit(
            "var tooltipFormatter = d3.format(\".\" + Math.max(0, d3.precisionFixed(stepSize / 10) - 2) + \"%\");",
        );
    }
    let mut title_line = String::new();
    title_line.append("var title = \"");
    title_line.append(title);
    title_line.append("\";");
    proof {
        assert(title_line@ =~= "var title = \""@ + title@ + "\";"@);
    }
    let with_title = replace_all(template, "var title = \"\";", title_line.as_str());
    let with_data = replace_all(with_title.as_str(), "var data = [];", data);
    if normalized {
        with_data
    } else {
        let y = replace_all(
            with_data.as_str(),
            "var yFormatter = d3.format(\".\" + Math.max(0, d3.precisionFixed(stepSize) - 2) + \"%\");",
            "var yFormatter = d3.format(\",\");",
        );
        replace_all(
            y.as_str(),
            "var tooltipFormatter = d3.format(\".\" + Math.max(0, d3.precisionFixed(stepSize / 10) - 2) + \"%\");",
            "var tooltipFormatter = d3.format(\",\");",
        )
    }
}

/// The ghost value of an optional borrowed title.
pub open spec fn spec_title_of(title: Option<&str>) -> Option<Seq<char>> {
    match title {
        None => None,
        Some(t) => Some(t@),
    }
}

/// The finished chart document for a matrix snapshot: an explicit title or
/// the default one, the compacted series of every column, and the formatter
/// substitution when the chart is unnormalized.
pub open spec fn spec_graph_document(
    template: Seq<char>,
    title: Option<Seq<char>>,
    transitive: bool,
    m: Matrix,
    labels: Seq<String>,
    totals: Option<Totals>,
    now: Timestamp,
) -> Seq<char> {
    let t = match title {
        Some(t) => t,
        None => spec_default_title(totals is Some, transitive),
    };
    spec_document(template, t, spec_data_literal(m, labels, totals, now), totals is Some)
}

/// Render the whole chart document. Writing it out and choosing the render
/// instant are the caller's business.
pub fn graph_document(
    template: &str,
    title: Option<&str>,
    transitive: bool,
    m: &Matrix,
    labels: &Vec<String>,
    totals: Option<&Totals>,
    now: Timestamp,
) -> (r: String)
    requires
        m.wf(),
        labels@.len() == m.width,
        now.wf(),
        match totals {
            Some(t) => t.matches(m),
            None => true,
        },
    ensures
        r@ == spec_graph_document(
            template@,
            spec_title_of(title),
            transitive,
            *m,
            labels@,
            spec_totals_of(totals),
            now,
        ),
{
    let normalized = totals.is_some();
    let chosen: &str = match title {
        Some(t) => t,
        None => default_title(normalized, transitive),
    };
    let data = data_literal(m, labels, totals, now);
    document(template, chosen, data.as_str(), normalized)
}

} // verus!
