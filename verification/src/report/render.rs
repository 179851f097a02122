//! The two renderings of a report: `results.json` and `index.html`.

use vstd::prelude::*;

use super::{
    fact_views, metric_views, row_views, worse_views, Fact, FactView, Fitness, FitnessView, Metric,
    MetricView, Report, ReportView, Row, RowView, Sensitivity, Status, Worse, WorseView,
    REPRODUCE_RECIPE, SCHEMA,
};
use crate::number::{self, finite, less, magnitude, Number, NumberView};
use crate::text::{
    self, begins, chars, decimal, digits, holds, lemma_both_parts, lemma_end_of_a_beginning,
    lemma_holds_what_a_part_holds, texts,
};

verus! {

/// 0.001, as a bit pattern.
pub const THOUSANDTH: u64 = 0x3f50_624d_d2f1_a9fc;

/// 1e9, as a bit pattern.
pub const BILLION: u64 = 0x41cd_cd65_0000_0000;

/// 100.0, as a bit pattern.
pub const HUNDRED: u64 = 0x4059_0000_0000_0000;

// ---------------------------------------------------------------------------
// Escaping
// ---------------------------------------------------------------------------

/// A hexadecimal digit, in lower case.
pub open spec fn hex_char(d: nat) -> char
    recommends
        d < 16,
{
    if d < 10 {
        (d + '0' as int) as char
    } else {
        (d - 10 + 'a' as int) as char
    }
}

/// One character inside a JSON string.
pub open spec fn json_char(c: char) -> Seq<char> {
    if c == '"' {
        seq!['\\', '"']
    } else if c == '\\' {
        seq!['\\', '\\']
    } else if c == '\n' {
        seq!['\\', 'n']
    } else if c == '\r' {
        seq!['\\', 'r']
    } else if c == '\t' {
        seq!['\\', 't']
    } else if (c as u32) < 0x20 {
        seq!['\\', 'u', '0', '0', hex_char(c as nat / 16), hex_char(c as nat % 16)]
    } else {
        seq![c]
    }
}

/// What stands between the quotes of a JSON string.
pub open spec fn json_body(s: Seq<char>) -> Seq<char>
    decreases s.len(),
{
    if s.len() == 0 {
        seq![]
    } else {
        json_body(s.drop_last()) + json_char(s.last())
    }
}

/// A JSON string literal.
pub open spec fn json_string(s: Seq<char>) -> Seq<char> {
    seq!['"'] + json_body(s) + seq!['"']
}

/// What a hexadecimal digit stands for.
pub open spec fn hex_value(c: char) -> int {
    if '0' <= c <= '9' {
        c as int - '0' as int
    } else {
        c as int - 'a' as int + 10
    }
}

/// Reads what stands between the quotes of a JSON string: the text, or nothing where
/// an unescaped quote or control character, or a broken escape, stands in it.
pub open spec fn read_json_body(t: Seq<char>) -> Option<Seq<char>>
    decreases t.len(),
{
    if t.len() == 0 {
        Some(seq![])
    } else if t[0] == '"' || (t[0] as u32) < 0x20 {
        None
    } else if t[0] != '\\' {
        prepend(t[0], read_json_body(t.skip(1)))
    } else if t.len() >= 2 && (t[1] == '"' || t[1] == '\\') {
        prepend(t[1], read_json_body(t.skip(2)))
    } else if t.len() >= 2 && t[1] == 'n' {
        prepend('\n', read_json_body(t.skip(2)))
    } else if t.len() >= 2 && t[1] == 'r' {
        prepend('\r', read_json_body(t.skip(2)))
    } else if t.len() >= 2 && t[1] == 't' {
        prepend('\t', read_json_body(t.skip(2)))
    } else if t.len() >= 6 && t[1] == 'u' && t[2] == '0' && t[3] == '0' {
        prepend(
            (hex_value(t[4]) * 16 + hex_value(t[5])) as char,
            read_json_body(t.skip(6)),
        )
    } else {
        None
    }
}

pub open spec fn prepend(c: char, rest: Option<Seq<char>>) -> Option<Seq<char>> {
    match rest {
        Some(s) => Some(seq![c] + s),
        None => None,
    }
}

proof fn lemma_json_body_front(s: Seq<char>)
    requires
        s.len() > 0,
    ensures
        json_body(s) == json_char(s[0]) + json_body(s.skip(1)),
    decreases s.len(),
{
    if s.len() == 1 {
        assert(s.drop_last() =~= seq![]);
        assert(s.skip(1) =~= seq![]);
        assert(json_body(s.drop_last()) =~= seq![]);
        assert(json_body(s.skip(1)) =~= seq![]);
        assert(json_body(s) =~= json_char(s[0]));
    } else {
        lemma_json_body_front(s.drop_last());
        assert(s.drop_last().skip(1) =~= s.skip(1).drop_last());
        assert(json_body(s) =~= json_char(s[0]) + json_body(s.skip(1)));
    }
}

/// A string that was written as JSON reads back as itself, whatever it holds: no
/// quote and no control character stands in it unescaped.
pub proof fn law_json_string_reads_back(s: Seq<char>)
    ensures
        json_string(s).len() >= 2,
        json_string(s)[0] == '"',
        json_string(s).last() == '"',
        read_json_body(json_string(s).subrange(1, json_string(s).len() - 1)) == Some(s),
{
    assert(json_string(s).subrange(1, json_string(s).len() - 1) =~= json_body(s));
    lemma_read_json_body(s);
}

proof fn lemma_read_json_char(c: char, rest: Seq<char>)
    ensures
        read_json_body(json_char(c) + rest) == prepend(c, read_json_body(rest)),
{
    let t = json_char(c) + rest;
    if c == '"' || c == '\\' || c == '\n' || c == '\r' || c == '\t' {
        assert(t.skip(2) =~= rest);
    } else if (c as u32) < 0x20 {
        assert(t.skip(6) =~= rest);
        let (hi, lo) = (c as nat / 16, c as nat % 16);
        assert(hi < 2);
        assert(hex_value(hex_char(hi)) == hi);
        assert(hex_value(hex_char(lo)) == lo);
    } else {
        assert(t.skip(1) =~= rest);
    }
}

proof fn lemma_read_json_body(s: Seq<char>)
    ensures
        read_json_body(json_body(s)) == Some(s),
    decreases s.len(),
{
    if s.len() == 0 {
        assert(s =~= seq![]);
    } else {
        lemma_json_body_front(s);
        lemma_read_json_body(s.skip(1));
        lemma_read_json_char(s[0], json_body(s.skip(1)));
        assert(seq![s[0]] + s.skip(1) =~= s);
    }
}

/// One character of HTML text.
pub open spec fn html_char(c: char) -> Seq<char> {
    if c == '&' {
        "&amp;"@
    } else if c == '<' {
        "&lt;"@
    } else if c == '>' {
        "&gt;"@
    } else if c == '"' {
        "&quot;"@
    } else {
        seq![c]
    }
}

/// A text as it is written in HTML.
pub open spec fn html_text(s: Seq<char>) -> Seq<char>
    decreases s.len(),
{
    if s.len() == 0 {
        seq![]
    } else {
        html_text(s.drop_last()) + html_char(s.last())
    }
}

proof fn lemma_html_char(c: char)
    ensures
        forall|i: int|
            0 <= i < html_char(c).len() ==> (#[trigger] html_char(c)[i]) != '<' && html_char(c)[i]
                != '>' && html_char(c)[i] != '"',
{
    reveal_strlit("&amp;");
    reveal_strlit("&lt;");
    reveal_strlit("&gt;");
    reveal_strlit("&quot;");
}

/// No text that is written in HTML opens or closes a tag, or ends an attribute.
pub proof fn law_html_text_has_no_markup(s: Seq<char>)
    ensures
        forall|i: int|
            0 <= i < html_text(s).len() ==> (#[trigger] html_text(s)[i]) != '<' && html_text(s)[i]
                != '>' && html_text(s)[i] != '"',
    decreases s.len(),
{
    if s.len() > 0 {
        let before = html_text(s.drop_last());
        law_html_text_has_no_markup(s.drop_last());
        lemma_html_char(s.last());
        assert forall|i: int| 0 <= i < html_text(s).len() implies (#[trigger] html_text(s)[i])
            != '<' && html_text(s)[i] != '>' && html_text(s)[i] != '"' by {
            if i < before.len() {
                assert(html_text(s)[i] == before[i]);
            } else {
                assert(html_text(s)[i] == html_char(s.last())[i - before.len()]);
            }
        }
    }
}

fn hex_of(d: u8) -> (c: char)
    requires
        d < 16,
    ensures
        c == hex_char(d as nat),
{
    if d < 10 {
        (48u8 + d) as char
    } else {
        (87u8 + d) as char
    }
}

fn push_json_char(out: &mut String, c: char)
    ensures
        final(out)@ == old(out)@ + json_char(c),
{
    let ghost before = out@;
    if c == '"' {
        out.push('\\');
        out.push('"');
    } else if c == '\\' {
        out.push('\\');
        out.push('\\');
    } else if c == '\n' {
        out.push('\\');
        out.push('n');
    } else if c == '\r' {
        out.push('\\');
        out.push('r');
    } else if c == '\t' {
        out.push('\\');
        out.push('t');
    } else if (c as u32) < 0x20 {
        let u: u8 = c as u8;
        out.push('\\');
        out.push('u');
        out.push('0');
        out.push('0');
        out.push(hex_of(u / 16));
        out.push(hex_of(u % 16));
    } else {
        out.push(c);
    }
    assert(out@ =~= before + json_char(c));
}

/// A JSON string literal.
pub fn jstr(s: &str) -> (r: String)
    ensures
        r@ == json_string(s@),
{
    let cs = chars(s);
    let mut out = String::new();
    out.push('"');
    let mut i: usize = 0;
    assert(cs@.take(0) =~= seq![]);
    assert(out@ =~= seq!['"'] + json_body(cs@.take(0)));
    while i < cs.len()
        invariant
            i <= cs@.len(),
            out@ == seq!['"'] + json_body(cs@.take(i as int)),
        decreases cs@.len() - i,
    {
        let ghost before = json_body(cs@.take(i as int));
        push_json_char(&mut out, cs[i]);
        i = i + 1;
        assert(cs@.take(i as int).drop_last() =~= cs@.take(i - 1));
        assert(out@ =~= seq!['"'] + (before + json_char(cs@[i - 1])));
    }
    assert(cs@.take(i as int) =~= cs@);
    out.push('"');
    assert(out@ =~= json_string(s@));
    out
}

/// A JSON number, or `null`: what is not finite is not JSON.
pub open spec fn json_number(v: NumberView) -> Seq<char> {
    if finite(v.bits) {
        v.plain
    } else {
        "null"@
    }
}

pub fn jnum(v: &Number) -> (r: String)
    ensures
        r@ == json_number(v@),
{
    if number::is_finite(v.bits) {
        v.plain.clone()
    } else {
        "null".to_owned()
    }
}

/// A text as it is written in HTML.
pub fn esc_html(s: &str) -> (r: String)
    ensures
        r@ == html_text(s@),
{
    let cs = chars(s);
    let mut out = String::new();
    let mut i: usize = 0;
    assert(cs@.take(0) =~= seq![]);
    while i < cs.len()
        invariant
            i <= cs@.len(),
            out@ == html_text(cs@.take(i as int)),
        decreases cs@.len() - i,
    {
        let c = cs[i];
        let ghost before = out@;
        if c == '&' {
            out.append("&amp;");
        } else if c == '<' {
            out.append("&lt;");
        } else if c == '>' {
            out.append("&gt;");
        } else if c == '"' {
            out.append("&quot;");
        } else {
            out.push(c);
            assert(out@ =~= before + seq![c]);
        }
        i = i + 1;
        assert(cs@.take(i as int).drop_last() =~= cs@.take(i - 1));
    }
    assert(cs@.take(i as int) =~= cs@);
    out
}

/// A value in a column for people: scientific where fixed-point would print `0.000`
/// or a row of digits, whole where decimals say nothing.
pub open spec fn column_value(v: NumberView) -> Seq<char> {
    let a = magnitude(v.bits);
    if !finite(v.bits) {
        "n/a"@
    } else if a != 0 && (less(a, THOUSANDTH) || !less(a, BILLION)) {
        v.scientific
    } else if !less(a, HUNDRED) || a == 0 {
        v.whole
    } else {
        v.thousandths
    }
}

pub fn fmt_value(v: &Number) -> (r: String)
    ensures
        r@ == column_value(v@),
{
    if !number::is_finite(v.bits) {
        return "n/a".to_owned();
    }
    let a: u64 = number::magnitude_of(v.bits);
    if a != 0 && (number::lt(a, THOUSANDTH) || !number::lt(a, BILLION)) {
        v.scientific.clone()
    } else if !number::lt(a, HUNDRED) || a == 0 {
        v.whole.clone()
    } else {
        v.thousandths.clone()
    }
}

// ---------------------------------------------------------------------------
// results.json
// ---------------------------------------------------------------------------

pub open spec fn json_metric(m: MetricView) -> Seq<char> {
    json_string(m.key) + ": {\"value\": "@ + json_number(m.value) + ", \"unit\": "@ + json_string(
        m.unit,
    ) + ", \"drift\": "@ + json_string(m.drift.name()) + ", \"tolerance\": "@ + json_number(
        m.tolerance,
    ) + "}"@
}

/// The first `n` metrics, with commas between them.
pub open spec fn json_metric_list(ms: Seq<MetricView>, n: nat) -> Seq<char>
    decreases n,
{
    if n == 0 {
        seq![]
    } else {
        json_metric_list(ms, (n - 1) as nat) + comma(n > 1) + json_metric(ms[n - 1])
    }
}

pub open spec fn comma(b: bool) -> Seq<char> {
    if b {
        ", "@
    } else {
        seq![]
    }
}

pub open spec fn json_metrics(ms: Seq<MetricView>) -> Seq<char> {
    "{"@ + json_metric_list(ms, ms.len()) + "}"@
}

pub open spec fn json_bool(b: bool) -> Seq<char> {
    if b {
        "true"@
    } else {
        "false"@
    }
}

/// One member on a line of its own.
pub open spec fn member(name: Seq<char>, value: Seq<char>) -> Seq<char> {
    name + value + ",\n"@
}

/// The first `n` of the facts.
pub open spec fn json_facts(facts: Seq<FactView>, n: nat) -> Seq<char>
    decreases n,
{
    if n == 0 {
        seq![]
    } else {
        json_facts(facts, (n - 1) as nat) + json_fact(facts[n - 1], n == facts.len())
    }
}

pub open spec fn json_fact(f: FactView, last: bool) -> Seq<char> {
    "    "@ + json_string(f.key) + ": "@ + json_string(f.value) + if last {
        "\n"@
    } else {
        ",\n"@
    }
}

/// The first `n` of some texts, with commas between them.
pub open spec fn json_texts(v: Seq<Seq<char>>, n: nat) -> Seq<char>
    decreases n,
{
    if n == 0 {
        seq![]
    } else {
        json_texts(v, (n - 1) as nat) + comma(n > 1) + json_string(v[n - 1])
    }
}

pub open spec fn json_option(s: Option<Seq<char>>) -> Seq<char> {
    match s {
        Some(t) => json_string(t),
        None => "null"@,
    }
}

pub open spec fn json_fitness(f: FitnessView, warmup: NumberView) -> Seq<char> {
    member("    \"fair_for_timing\": "@, json_bool(f.fair_for_timing)) + member(
        "    \"fair_for_ratios\": "@,
        json_bool(f.fair_for_ratios),
    ) + member("    \"fair_for_memory\": "@, json_bool(f.fair_for_memory)) + member(
        "    \"enough_cores\": "@,
        json_bool(f.enough_cores),
    ) + member("    \"core_reason\": "@, json_option(f.core_reason)) + member(
        "    \"forced\": "@,
        json_bool(f.forced),
    ) + member("    \"consumers\": "@, digits(f.consumers as nat)) + member(
        "    \"busy_fraction\": "@,
        json_number(f.busy_fraction),
    ) + member("    \"physical_cores\": "@, digits(f.physical_cores as nat)) + member(
        "    \"logical_cpus\": "@,
        digits(f.logical_cpus as nat),
    ) + member("    \"warmup_discarded_s\": "@, json_number(warmup)) + "    \"reasons\": ["@
        + json_texts(f.reasons, f.reasons.len()) + "]\n  },\n"@
}

pub open spec fn closing(last: bool) -> Seq<char> {
    if last {
        "    }\n"@
    } else {
        "    },\n"@
    }
}

pub open spec fn json_row(r: RowView, last: bool) -> Seq<char> {
    "    {\n"@ + member("      \"id\": "@, json_string(r.id)) + member(
        "      \"title\": "@,
        json_string(r.title),
    ) + member("      \"note\": "@, json_string(r.note)) + member(
        "      \"timing_sensitive\": "@,
        json_bool(r.sensitivity == Sensitivity::AbsoluteTiming),
    ) + member("      \"needs_n_cores\": "@, json_bool(r.needs_n_cores)) + member(
        "      \"status\": "@,
        json_string(r.status.name()),
    ) + member("      \"reason\": "@, json_string(r.reason)) + member(
        "      \"reproduce\": "@,
        json_string(r.reproduce),
    ) + member("      \"tf_tree\": "@, json_metrics(r.tf_tree)) + "      \"tf2\": "@ + json_metrics(
        r.tf2,
    ) + "\n"@ + closing(last)
}

pub open spec fn json_rows(rows: Seq<RowView>, n: nat) -> Seq<char>
    decreases n,
{
    if n == 0 {
        seq![]
    } else {
        json_rows(rows, (n - 1) as nat) + json_row(rows[n - 1], n == rows.len())
    }
}

pub open spec fn json_worse(w: WorseView, last: bool) -> Seq<char> {
    "    {\n"@ + member("      \"id\": "@, json_string(w.id)) + member(
        "      \"topic\": "@,
        json_string(w.topic),
    ) + member("      \"statement\": "@, json_string(w.statement)) + member(
        "      \"metrics\": "@,
        json_metrics(w.metrics),
    ) + "      \"metrics_absent_because\": "@ + json_option(w.metrics_absent_because) + "\n"@
        + closing(last)
}

pub open spec fn json_worse_list(v: Seq<WorseView>, n: nat) -> Seq<char>
    decreases n,
{
    if n == 0 {
        seq![]
    } else {
        json_worse_list(v, (n - 1) as nat) + json_worse(v[n - 1], n == v.len())
    }
}

/// The text of `results.json`.
pub open spec fn json_report(r: ReportView) -> Seq<char> {
    "{\n"@ + member("  \"schema\": "@, json_string(SCHEMA@)) + "  \"provenance\": {\n"@ + json_facts(
        r.provenance,
        r.provenance.len(),
    ) + "  },\n"@ + "  \"host_fitness\": {\n"@ + json_fitness(r.fitness, r.warmup)
        + "  \"rows\": [\n"@ + json_rows(r.rows, r.rows.len()) + "  ],\n"@
        + "  \"where_we_are_worse\": [\n"@ + json_worse_list(r.worse, r.worse.len()) + "  ]\n}\n"@
}

fn bool_text(b: bool) -> (r: &'static str)
    ensures
        r@ == json_bool(b),
{
    if b {
        "true"
    } else {
        "false"
    }
}

fn member_text(name: &str, value: &str) -> (r: String)
    ensures
        r@ == member(name@, value@),
{
    let mut s = name.to_owned();
    s.append(value);
    s.append(",\n");
    s
}

fn option_text(v: &Option<String>) -> (r: String)
    ensures
        r@ == json_option(super::text_of(*v)),
{
    match v {
        Some(s) => jstr(s.as_str()),
        None => "null".to_owned(),
    }
}

fn metric_text(x: &Metric) -> (r: String)
    ensures
        r@ == json_metric(x@),
{
    let mut s = jstr(x.key);
    s.append(": {\"value\": ");
    s.append(jnum(&x.value).as_str());
    s.append(", \"unit\": ");
    s.append(jstr(x.unit).as_str());
    s.append(", \"drift\": ");
    s.append(jstr(x.drift.as_str()).as_str());
    s.append(", \"tolerance\": ");
    s.append(jnum(&x.tolerance).as_str());
    s.append("}");
    s
}

/// The metrics of a cell as a JSON object.
pub fn jmetrics(m: &Vec<Metric>) -> (r: String)
    ensures
        r@ == json_metrics(metric_views(m@)),
{
    let mut list = String::new();
    let mut i: usize = 0;
    while i < m.len()
        invariant
            i <= m@.len(),
            list@ == json_metric_list(metric_views(m@), i as nat),
        decreases m@.len() - i,
    {
        assert(metric_views(m@)[i as int] == m@[i as int]@);
        let ghost before = list@;
        if i > 0 {
            list.append(", ");
        }
        list.append(metric_text(&m[i]).as_str());
        assert(list@ =~= before + comma(i > 0) + json_metric(m@[i as int]@));
        i = i + 1;
    }
    let mut s = "{".to_owned();
    s.append(list.as_str());
    s.append("}");
    s
}

fn facts_text(facts: &Vec<Fact>) -> (r: String)
    ensures
        r@ == json_facts(fact_views(facts@), facts@.len()),
{
    let mut s = String::new();
    let mut i: usize = 0;
    while i < facts.len()
        invariant
            i <= facts@.len(),
            s@ == json_facts(fact_views(facts@), i as nat),
        decreases facts@.len() - i,
    {
        let f = &facts[i];
        assert(fact_views(facts@)[i as int] == f@);
        let mut line = "    ".to_owned();
        line.append(jstr(f.key).as_str());
        line.append(": ");
        line.append(jstr(f.value.as_str()).as_str());
        if i + 1 == facts.len() {
            line.append("\n");
        } else {
            line.append(",\n");
        }
        assert(line@ =~= json_fact(f@, i + 1 == facts@.len()));
        s.append(line.as_str());
        i = i + 1;
    }
    s
}

fn reasons_text(v: &Vec<String>) -> (r: String)
    ensures
        r@ == json_texts(texts(v@), v@.len()),
{
    let mut s = String::new();
    let mut i: usize = 0;
    while i < v.len()
        invariant
            i <= v@.len(),
            s@ == json_texts(texts(v@), i as nat),
        decreases v@.len() - i,
    {
        assert(texts(v@)[i as int] == v@[i as int]@);
        let ghost before = s@;
        if i > 0 {
            s.append(", ");
        }
        s.append(jstr(v[i].as_str()).as_str());
        assert(s@ =~= before + comma(i > 0) + json_string(v@[i as int]@));
        i = i + 1;
    }
    s
}

fn fitness_text(f: &Fitness, warmup: &Number) -> (r: String)
    ensures
        r@ == json_fitness(f@, warmup@),
{
    let mut s = member_text("    \"fair_for_timing\": ", bool_text(f.fair_for_timing));
    s.append(member_text("    \"fair_for_ratios\": ", bool_text(f.fair_for_ratios)).as_str());
    s.append(member_text("    \"fair_for_memory\": ", bool_text(f.fair_for_memory)).as_str());
    s.append(member_text("    \"enough_cores\": ", bool_text(f.enough_cores)).as_str());
    s.append(member_text("    \"core_reason\": ", option_text(&f.core_reason).as_str()).as_str());
    s.append(member_text("    \"forced\": ", bool_text(f.forced)).as_str());
    s.append(member_text("    \"consumers\": ", decimal(f.consumers as u64).as_str()).as_str());
    s.append(member_text("    \"busy_fraction\": ", jnum(&f.busy_fraction).as_str()).as_str());
    s.append(
        member_text("    \"physical_cores\": ", decimal(f.physical_cores as u64).as_str()).as_str(),
    );
    s.append(
        member_text("    \"logical_cpus\": ", decimal(f.logical_cpus as u64).as_str()).as_str(),
    );
    s.append(member_text("    \"warmup_discarded_s\": ", jnum(warmup).as_str()).as_str());
    s.append("    \"reasons\": [");
    s.append(reasons_text(&f.reasons).as_str());
    s.append("]\n  },\n");
    s
}

fn closing_text(last: bool) -> (r: &'static str)
    ensures
        r@ == closing(last),
{
    if last {
        "    }\n"
    } else {
        "    },\n"
    }
}

fn row_text(r: &Row, last: bool) -> (s: String)
    ensures
        s@ == json_row(r@, last),
{
    let mut s = "    {\n".to_owned();
    s.append(member_text("      \"id\": ", jstr(r.id).as_str()).as_str());
    s.append(member_text("      \"title\": ", jstr(r.title).as_str()).as_str());
    s.append(member_text("      \"note\": ", jstr(r.note.as_str()).as_str()).as_str());
    s.append(
        member_text("      \"timing_sensitive\": ", bool_text(r.timing_sensitive())).as_str(),
    );
    s.append(member_text("      \"needs_n_cores\": ", bool_text(r.needs_n_cores)).as_str());
    s.append(member_text("      \"status\": ", jstr(r.status.as_str()).as_str()).as_str());
    s.append(member_text("      \"reason\": ", jstr(r.reason.as_str()).as_str()).as_str());
    s.append(member_text("      \"reproduce\": ", jstr(r.reproduce).as_str()).as_str());
    s.append(member_text("      \"tf_tree\": ", jmetrics(&r.tf_tree).as_str()).as_str());
    s.append("      \"tf2\": ");
    s.append(jmetrics(&r.tf2).as_str());
    s.append("\n");
    s.append(closing_text(last));
    s
}

fn rows_text(rows: &Vec<Row>) -> (r: String)
    ensures
        r@ == json_rows(row_views(rows@), rows@.len()),
{
    let mut s = String::new();
    let mut i: usize = 0;
    while i < rows.len()
        invariant
            i <= rows@.len(),
            s@ == json_rows(row_views(rows@), i as nat),
        decreases rows@.len() - i,
    {
        assert(row_views(rows@)[i as int] == rows@[i as int]@);
        s.append(row_text(&rows[i], i + 1 == rows.len()).as_str());
        i = i + 1;
    }
    s
}

fn worse_text(w: &Worse, last: bool) -> (s: String)
    ensures
        s@ == json_worse(w@, last),
{
    let mut s = "    {\n".to_owned();
    s.append(member_text("      \"id\": ", jstr(w.id).as_str()).as_str());
    s.append(member_text("      \"topic\": ", jstr(w.topic).as_str()).as_str());
    s.append(member_text("      \"statement\": ", jstr(w.statement.as_str()).as_str()).as_str());
    s.append(member_text("      \"metrics\": ", jmetrics(&w.metrics).as_str()).as_str());
    s.append("      \"metrics_absent_because\": ");
    s.append(option_text(&w.metrics_absent_because).as_str());
    s.append("\n");
    s.append(closing_text(last));
    s
}

fn worse_list_text(v: &Vec<Worse>) -> (r: String)
    ensures
        r@ == json_worse_list(worse_views(v@), v@.len()),
{
    let mut s = String::new();
    let mut i: usize = 0;
    while i < v.len()
        invariant
            i <= v@.len(),
            s@ == json_worse_list(worse_views(v@), i as nat),
        decreases v@.len() - i,
    {
        assert(worse_views(v@)[i as int] == v@[i as int]@);
        s.append(worse_text(&v[i], i + 1 == v.len()).as_str());
        i = i + 1;
    }
    s
}

// ---------------------------------------------------------------------------
// index.html
// ---------------------------------------------------------------------------

pub const HTML_HEAD: &'static str =
    "<meta charset=\"utf-8\">\n<title>tf_tree benchmark report</title>\n<style>\nbody{font:15px/1.5 system-ui,sans-serif;margin:2rem auto;max-width:70rem;padding:0 1rem}\ntable{border-collapse:collapse;width:100%;margin:1rem 0}\nth,td{border:1px solid #b0b6bd;padding:.4rem .6rem;text-align:left;vertical-align:top}\nth{background:#eef1f4}\ntr.section th{background:#dfe4ea;font-size:1.05rem}\n.measured{color:#0a6b2a;font-weight:600}\n.indicative{color:#a35a00;font-weight:600}\n.unavailable{color:#8a1c1c;font-weight:600}\n.reason{color:#333;font-size:.9em}\ncode{background:#f2f4f6;padding:.05rem .25rem}\n.banner{border:2px solid #8a1c1c;padding:.6rem 1rem;background:#fff2f2}\n</style>\n<h1>tf_tree benchmark report</h1>\n";

pub const BANNER_OPEN: &'static str =
    "<div class=\"banner\"><strong>This host cannot measure the timing rows fairly.</strong><ul>\n";

pub const BANNER_FORCED: &'static str =
    "<p><strong>TF_TREE_BENCH_FORCE=1 was set</strong>, so timing rows below are marked <span class=\"indicative\">indicative</span>. An indicative number is not a claim and must not be quoted as one.</p>";

pub const BANNER_REFUSED: &'static str =
    "<p>Timing rows are therefore reported as <span class=\"unavailable\">unavailable</span> with the command that produces them on a host that qualifies.</p>";

pub const RESULTS_OPEN: &'static str =
    "<h2>Results</h2>\n<table>\n<tr><th>Measurement</th><th>tf_tree</th><th>tf2</th><th>Status</th></tr>\n";

pub const WORSE_OPEN: &'static str =
    "<tr class=\"section\"><th colspan=\"4\">Where tf_tree is worse</th></tr>\n<tr><th>Cost</th><th colspan=\"3\">What it means for an operator</th></tr>\n";

pub const REPRODUCING: &'static str =
    " regenerates every file in this directory. Rows marked unavailable name the command that measures them on a host that can; the harness for all of them is in this repository (<code>crates/tf_tree_bench/</code>), per PHASE5 §9.3's &ldquo;no private benchmark&rdquo;.</p>\n";

pub open spec fn html_metric(m: MetricView) -> Seq<char> {
    html_text(m.key) + " = "@ + column_value(m.value) + " "@ + html_text(m.unit)
}

/// The first `n` metrics, each on a line of its own.
pub open spec fn html_metrics(ms: Seq<MetricView>, n: nat) -> Seq<char>
    decreases n,
{
    if n == 0 {
        seq![]
    } else {
        html_metrics(ms, (n - 1) as nat) + (if n > 1 {
            "<br>"@
        } else {
            seq![]
        }) + html_metric(ms[n - 1])
    }
}

pub open spec fn html_cell(ms: Seq<MetricView>) -> Seq<char> {
    if ms.len() == 0 {
        "&mdash;"@
    } else {
        html_metrics(ms, ms.len())
    }
}

pub open spec fn html_reasons(v: Seq<Seq<char>>, n: nat) -> Seq<char>
    decreases n,
{
    if n == 0 {
        seq![]
    } else {
        html_reasons(v, (n - 1) as nat) + ("<li>"@ + html_text(v[n - 1]) + "</li>\n"@)
    }
}

/// The banner over a report from a host that is unfair for timing.
pub open spec fn html_banner(f: FitnessView) -> Seq<char> {
    if f.fair_for_timing {
        seq![]
    } else {
        BANNER_OPEN@ + html_reasons(f.reasons, f.reasons.len()) + "</ul>"@ + (if f.forced {
            BANNER_FORCED@
        } else {
            BANNER_REFUSED@
        }) + "</div>\n"@
    }
}

pub open spec fn html_row(r: RowView) -> Seq<char> {
    "<tr><td><strong>"@ + html_text(r.title) + "</strong><br><span class=\"reason\">"@ + html_text(
        r.note,
    ) + "</span></td><td>"@ + html_cell(r.tf_tree) + "</td><td>"@ + html_cell(r.tf2)
        + "</td><td class=\""@ + r.status.name() + "\">"@ + r.status.loud_name()
        + "</td></tr>\n"@ + (if r.status == Status::Measured {
        seq![]
    } else {
        "<tr><td colspan=\"4\" class=\"reason\">why: "@ + html_text(r.reason)
            + " &middot; reproduce: <code>"@ + html_text(r.reproduce) + "</code></td></tr>\n"@
    })
}

pub open spec fn html_rows(rows: Seq<RowView>, n: nat) -> Seq<char>
    decreases n,
{
    if n == 0 {
        seq![]
    } else {
        html_rows(rows, (n - 1) as nat) + html_row(rows[n - 1])
    }
}

pub open spec fn html_statement(w: WorseView) -> Seq<char> {
    match w.metrics_absent_because {
        None => html_text(w.statement),
        Some(why) => html_text(w.statement) + "<br><em>No metric here: "@ + html_text(why)
            + "</em>"@,
    }
}

pub open spec fn html_worse(w: WorseView) -> Seq<char> {
    "<tr><td><strong>"@ + html_text(w.topic) + "</strong>"@ + (if w.metrics.len() == 0 {
        seq![]
    } else {
        "<br>"@ + html_cell(w.metrics)
    }) + "</td><td colspan=\"3\">"@ + html_statement(w) + "</td></tr>\n"@
}

pub open spec fn html_worse_list(v: Seq<WorseView>, n: nat) -> Seq<char>
    decreases n,
{
    if n == 0 {
        seq![]
    } else {
        html_worse_list(v, (n - 1) as nat) + html_worse(v[n - 1])
    }
}

pub open spec fn html_facts(facts: Seq<FactView>, n: nat) -> Seq<char>
    decreases n,
{
    if n == 0 {
        seq![]
    } else {
        html_facts(facts, (n - 1) as nat) + ("<tr><th>"@ + html_text(facts[n - 1].key)
            + "</th><td>"@ + html_text(facts[n - 1].value) + "</td></tr>\n"@)
    }
}

/// The results table: the rows, and in the same table where `tf_tree` is worse.
pub open spec fn html_results(r: ReportView) -> Seq<char> {
    RESULTS_OPEN@ + html_rows(r.rows, r.rows.len()) + WORSE_OPEN@ + html_worse_list(
        r.worse,
        r.worse.len(),
    ) + "</table>\n"@
}

pub open spec fn html_provenance(r: ReportView) -> Seq<char> {
    "<h2>Provenance</h2>\n<table>\n"@ + html_facts(r.provenance, r.provenance.len())
        + "<tr><th>warmup_discarded_s</th><td>"@ + column_value(r.warmup) + "</td></tr>\n"@
        + "</table>\n"@
}

/// The text of `index.html`.
pub open spec fn html_report(r: ReportView) -> Seq<char> {
    HTML_HEAD@ + html_banner(r.fitness) + html_results(r) + html_provenance(r)
        + "<h2>Reproducing this</h2>\n<p><code>"@ + REPRODUCE_RECIPE@ + "</code>"@ + REPRODUCING@
}

fn cell_metric(x: &Metric) -> (r: String)
    ensures
        r@ == html_metric(x@),
{
    let mut s = esc_html(x.key);
    s.append(" = ");
    s.append(fmt_value(&x.value).as_str());
    s.append(" ");
    s.append(esc_html(x.unit).as_str());
    s
}

/// The metrics of a cell, for people.
pub fn cell_html(m: &Vec<Metric>) -> (r: String)
    ensures
        r@ == html_cell(metric_views(m@)),
{
    if m.len() == 0 {
        return "&mdash;".to_owned();
    }
    let mut s = String::new();
    let mut i: usize = 0;
    while i < m.len()
        invariant
            i <= m@.len(),
            s@ == html_metrics(metric_views(m@), i as nat),
        decreases m@.len() - i,
    {
        assert(metric_views(m@)[i as int] == m@[i as int]@);
        let ghost before = s@;
        if i > 0 {
            s.append("<br>");
        } else {
            assert(before + Seq::<char>::empty() =~= before);
        }
        s.append(cell_metric(&m[i]).as_str());
        i = i + 1;
    }
    s
}

fn banner(f: &Fitness) -> (r: String)
    ensures
        r@ == html_banner(f@),
{
    if f.fair_for_timing {
        return String::new();
    }
    let mut list = String::new();
    let mut i: usize = 0;
    while i < f.reasons.len()
        invariant
            i <= f.reasons@.len(),
            list@ == html_reasons(texts(f.reasons@), i as nat),
        decreases f.reasons@.len() - i,
    {
        assert(texts(f.reasons@)[i as int] == f.reasons@[i as int]@);
        let mut line = "<li>".to_owned();
        line.append(esc_html(f.reasons[i].as_str()).as_str());
        line.append("</li>\n");
        list.append(line.as_str());
        i = i + 1;
    }
    let mut s = BANNER_OPEN.to_owned();
    s.append(list.as_str());
    s.append("</ul>");
    if f.forced {
        s.append(BANNER_FORCED);
    } else {
        s.append(BANNER_REFUSED);
    }
    s.append("</div>\n");
    s
}

fn row_html(r: &Row) -> (s: String)
    ensures
        s@ == html_row(r@),
{
    let mut s = "<tr><td><strong>".to_owned();
    s.append(esc_html(r.title).as_str());
    s.append("</strong><br><span class=\"reason\">");
    s.append(esc_html(r.note.as_str()).as_str());
    s.append("</span></td><td>");
    s.append(cell_html(&r.tf_tree).as_str());
    s.append("</td><td>");
    s.append(cell_html(&r.tf2).as_str());
    s.append("</td><td class=\"");
    s.append(r.status.as_str());
    s.append("\">");
    s.append(r.status.as_upper());
    s.append("</td></tr>\n");
    let ghost before = s@;
    if r.status != Status::Measured {
        let mut t = "<tr><td colspan=\"4\" class=\"reason\">why: ".to_owned();
        t.append(esc_html(r.reason.as_str()).as_str());
        t.append(" &middot; reproduce: <code>");
        t.append(esc_html(r.reproduce).as_str());
        t.append("</code></td></tr>\n");
        s.append(t.as_str());
    } else {
        assert(before + Seq::<char>::empty() =~= before);
    }
    s
}

fn rows_html(rows: &Vec<Row>) -> (r: String)
    ensures
        r@ == html_rows(row_views(rows@), rows@.len()),
{
    let mut s = String::new();
    let mut i: usize = 0;
    while i < rows.len()
        invariant
            i <= rows@.len(),
            s@ == html_rows(row_views(rows@), i as nat),
        decreases rows@.len() - i,
    {
        assert(row_views(rows@)[i as int] == rows@[i as int]@);
        s.append(row_html(&rows[i]).as_str());
        i = i + 1;
    }
    s
}

fn statement_html(w: &Worse) -> (r: String)
    ensures
        r@ == html_statement(w@),
{
    let mut s = esc_html(w.statement.as_str());
    match &w.metrics_absent_because {
        None => {},
        Some(why) => {
            s.append("<br><em>No metric here: ");
            s.append(esc_html(why.as_str()).as_str());
            s.append("</em>");
        },
    }
    s
}

fn worse_html(w: &Worse) -> (s: String)
    ensures
        s@ == html_worse(w@),
{
    let mut s = "<tr><td><strong>".to_owned();
    s.append(esc_html(w.topic).as_str());
    s.append("</strong>");
    let ghost before = s@;
    if w.metrics.len() > 0 {
        let mut t = "<br>".to_owned();
        t.append(cell_html(&w.metrics).as_str());
        s.append(t.as_str());
    } else {
        assert(before + Seq::<char>::empty() =~= before);
    }
    s.append("</td><td colspan=\"3\">");
    s.append(statement_html(w).as_str());
    s.append("</td></tr>\n");
    s
}

fn worse_list_html(v: &Vec<Worse>) -> (r: String)
    ensures
        r@ == html_worse_list(worse_views(v@), v@.len()),
{
    let mut s = String::new();
    let mut i: usize = 0;
    while i < v.len()
        invariant
            i <= v@.len(),
            s@ == html_worse_list(worse_views(v@), i as nat),
        decreases v@.len() - i,
    {
        assert(worse_views(v@)[i as int] == v@[i as int]@);
        s.append(worse_html(&v[i]).as_str());
        i = i + 1;
    }
    s
}

fn facts_html(facts: &Vec<Fact>) -> (r: String)
    ensures
        r@ == html_facts(fact_views(facts@), facts@.len()),
{
    let mut s = String::new();
    let mut i: usize = 0;
    while i < facts.len()
        invariant
            i <= facts@.len(),
            s@ == html_facts(fact_views(facts@), i as nat),
        decreases facts@.len() - i,
    {
        assert(fact_views(facts@)[i as int] == facts@[i as int]@);
        let mut line = "<tr><th>".to_owned();
        line.append(esc_html(facts[i].key).as_str());
        line.append("</th><td>");
        line.append(esc_html(facts[i].value.as_str()).as_str());
        line.append("</td></tr>\n");
        s.append(line.as_str());
        i = i + 1;
    }
    s
}

impl Report {
    /// `results.json`.
    #[must_use]
    pub fn to_json(&self) -> (r: String)
        ensures
            r@ == json_report(self@),
    {
        let mut s = "{\n".to_owned();
        s.append(member_text("  \"schema\": ", jstr(SCHEMA).as_str()).as_str());
        s.append("  \"provenance\": {\n");
        s.append(facts_text(&self.provenance.facts).as_str());
        s.append("  },\n");
        s.append("  \"host_fitness\": {\n");
        s.append(fitness_text(&self.fitness, &self.warmup_discarded_s).as_str());
        s.append("  \"rows\": [\n");
        s.append(rows_text(&self.rows).as_str());
        s.append("  ],\n");
        s.append("  \"where_we_are_worse\": [\n");
        s.append(worse_list_text(&self.worse).as_str());
        s.append("  ]\n}\n");
        s
    }

    /// `index.html`: self-contained, without outside assets and without script. Where
    /// `tf_tree` is worse stands in the results table, not in a footnote.
    #[must_use]
    pub fn to_html(&self) -> (r: String)
        ensures
            r@ == html_report(self@),
    {
        let mut results = RESULTS_OPEN.to_owned();
        results.append(rows_html(&self.rows).as_str());
        results.append(WORSE_OPEN);
        results.append(worse_list_html(&self.worse).as_str());
        results.append("</table>\n");

        let mut provenance = "<h2>Provenance</h2>\n<table>\n".to_owned();
        provenance.append(facts_html(&self.provenance.facts).as_str());
        provenance.append("<tr><th>warmup_discarded_s</th><td>");
        provenance.append(fmt_value(&self.warmup_discarded_s).as_str());
        provenance.append("</td></tr>\n");
        provenance.append("</table>\n");

        let mut s = HTML_HEAD.to_owned();
        s.append(banner(&self.fitness).as_str());
        s.append(results.as_str());
        s.append(provenance.as_str());
        s.append("<h2>Reproducing this</h2>\n<p><code>");
        s.append(REPRODUCE_RECIPE);
        s.append("</code>");
        s.append(REPRODUCING);
        s
    }
}

// ---------------------------------------------------------------------------
// What the documents say
// ---------------------------------------------------------------------------

/// A metric is written under its key, with its value, unit, direction and tolerance each
/// under the word for it.
pub proof fn law_a_metric_is_written_by_name(m: MetricView)
    ensures
        begins(json_metric(m), json_string(m.key)),
        holds(json_metric(m), ": {\"value\": "@ + json_number(m.value)),
        holds(json_metric(m), ", \"unit\": "@ + json_string(m.unit)),
        holds(json_metric(m), ", \"drift\": "@ + json_string(m.drift.name())),
        holds(json_metric(m), ", \"tolerance\": "@ + json_number(m.tolerance)),
{
    let doc = json_metric(m);
    let a0 = json_string(m.key);
    let a1 = a0 + (": {\"value\": "@ + json_number(m.value));
    let a2 = a1 + (", \"unit\": "@ + json_string(m.unit));
    let a3 = a2 + (", \"drift\": "@ + json_string(m.drift.name()));
    let a4 = a3 + (", \"tolerance\": "@ + json_number(m.tolerance));
    let a5 = a4 + "}"@;
    assert(doc =~= a5);
    assert(doc.take(a5.len() as int) =~= a5);
    lemma_end_of_a_beginning(doc, a4, "}"@);
    lemma_end_of_a_beginning(doc, a3, (", \"tolerance\": "@ + json_number(m.tolerance)));
    lemma_end_of_a_beginning(doc, a2, (", \"drift\": "@ + json_string(m.drift.name())));
    lemma_end_of_a_beginning(doc, a1, (", \"unit\": "@ + json_string(m.unit)));
    lemma_end_of_a_beginning(doc, a0, (": {\"value\": "@ + json_number(m.value)));
}

/// A number that is none is written as no number, and any other as it is.
pub proof fn law_only_numbers_are_written_as_numbers(v: NumberView)
    ensures
        finite(v.bits) ==> json_number(v) == v.plain,
        !finite(v.bits) ==> json_number(v) == "null"@ && column_value(v) == "n/a"@,
{
}

/// A row is written with each of its parts under the word for it, the numbers of the two
/// engines each under its own.
pub proof fn law_a_row_is_written_by_name(r: RowView, last: bool)
    ensures
        holds(json_row(r, last), "      \"id\": "@ + json_string(r.id) + ",\n"@),
        holds(json_row(r, last), "      \"title\": "@ + json_string(r.title) + ",\n"@),
        holds(json_row(r, last), "      \"note\": "@ + json_string(r.note) + ",\n"@),
        holds(json_row(r, last), "      \"timing_sensitive\": "@ + json_bool(r.sensitivity == Sensitivity::AbsoluteTiming) + ",\n"@),
        holds(json_row(r, last), "      \"needs_n_cores\": "@ + json_bool(r.needs_n_cores) + ",\n"@),
        holds(json_row(r, last), "      \"status\": "@ + json_string(r.status.name()) + ",\n"@),
        holds(json_row(r, last), "      \"reason\": "@ + json_string(r.reason) + ",\n"@),
        holds(json_row(r, last), "      \"reproduce\": "@ + json_string(r.reproduce) + ",\n"@),
        holds(json_row(r, last), "      \"tf_tree\": "@ + json_metrics(r.tf_tree) + ",\n"@),
        holds(json_row(r, last), "      \"tf2\": "@ + json_metrics(r.tf2)),
{
    let doc = json_row(r, last);
    let a0 = "    {\n"@;
    let a1 = a0 + member("      \"id\": "@, json_string(r.id));
    let a2 = a1 + member("      \"title\": "@, json_string(r.title));
    let a3 = a2 + member("      \"note\": "@, json_string(r.note));
    let a4 = a3 + member("      \"timing_sensitive\": "@, json_bool(r.sensitivity == Sensitivity::AbsoluteTiming));
    let a5 = a4 + member("      \"needs_n_cores\": "@, json_bool(r.needs_n_cores));
    let a6 = a5 + member("      \"status\": "@, json_string(r.status.name()));
    let a7 = a6 + member("      \"reason\": "@, json_string(r.reason));
    let a8 = a7 + member("      \"reproduce\": "@, json_string(r.reproduce));
    let a9 = a8 + member("      \"tf_tree\": "@, json_metrics(r.tf_tree));
    let a10 = a9 + ("      \"tf2\": "@ + json_metrics(r.tf2));
    let a11 = a10 + "\n"@;
    let a12 = a11 + closing(last);
    assert(doc =~= a12);
    assert(doc.take(a12.len() as int) =~= a12);
    lemma_end_of_a_beginning(doc, a11, closing(last));
    lemma_end_of_a_beginning(doc, a10, "\n"@);
    lemma_end_of_a_beginning(doc, a9, ("      \"tf2\": "@ + json_metrics(r.tf2)));
    lemma_end_of_a_beginning(doc, a8, member("      \"tf_tree\": "@, json_metrics(r.tf_tree)));
    lemma_end_of_a_beginning(doc, a7, member("      \"reproduce\": "@, json_string(r.reproduce)));
    lemma_end_of_a_beginning(doc, a6, member("      \"reason\": "@, json_string(r.reason)));
    lemma_end_of_a_beginning(doc, a5, member("      \"status\": "@, json_string(r.status.name())));
    lemma_end_of_a_beginning(doc, a4, member("      \"needs_n_cores\": "@, json_bool(r.needs_n_cores)));
    lemma_end_of_a_beginning(doc, a3, member("      \"timing_sensitive\": "@, json_bool(r.sensitivity == Sensitivity::AbsoluteTiming)));
    lemma_end_of_a_beginning(doc, a2, member("      \"note\": "@, json_string(r.note)));
    lemma_end_of_a_beginning(doc, a1, member("      \"title\": "@, json_string(r.title)));
    lemma_end_of_a_beginning(doc, a0, member("      \"id\": "@, json_string(r.id)));
}

/// The verdicts on a host are written each under the word for it.
pub proof fn law_fitness_is_written_by_name(f: FitnessView, warmup: NumberView)
    ensures
        holds(json_fitness(f, warmup), "    \"fair_for_timing\": "@ + json_bool(f.fair_for_timing) + ",\n"@),
        holds(json_fitness(f, warmup), "    \"fair_for_ratios\": "@ + json_bool(f.fair_for_ratios) + ",\n"@),
        holds(json_fitness(f, warmup), "    \"fair_for_memory\": "@ + json_bool(f.fair_for_memory) + ",\n"@),
        holds(json_fitness(f, warmup), "    \"enough_cores\": "@ + json_bool(f.enough_cores) + ",\n"@),
        holds(json_fitness(f, warmup), "    \"core_reason\": "@ + json_option(f.core_reason) + ",\n"@),
        holds(json_fitness(f, warmup), "    \"forced\": "@ + json_bool(f.forced) + ",\n"@),
        holds(json_fitness(f, warmup), "    \"consumers\": "@ + digits(f.consumers as nat) + ",\n"@),
        holds(json_fitness(f, warmup), "    \"busy_fraction\": "@ + json_number(f.busy_fraction) + ",\n"@),
        holds(json_fitness(f, warmup), "    \"physical_cores\": "@ + digits(f.physical_cores as nat) + ",\n"@),
        holds(json_fitness(f, warmup), "    \"logical_cpus\": "@ + digits(f.logical_cpus as nat) + ",\n"@),
        holds(json_fitness(f, warmup), "    \"warmup_discarded_s\": "@ + json_number(warmup) + ",\n"@),
        holds(json_fitness(f, warmup), json_texts(f.reasons, f.reasons.len())),
{
    let doc = json_fitness(f, warmup);
    let a0 = member("    \"fair_for_timing\": "@, json_bool(f.fair_for_timing));
    let a1 = a0 + member("    \"fair_for_ratios\": "@, json_bool(f.fair_for_ratios));
    let a2 = a1 + member("    \"fair_for_memory\": "@, json_bool(f.fair_for_memory));
    let a3 = a2 + member("    \"enough_cores\": "@, json_bool(f.enough_cores));
    let a4 = a3 + member("    \"core_reason\": "@, json_option(f.core_reason));
    let a5 = a4 + member("    \"forced\": "@, json_bool(f.forced));
    let a6 = a5 + member("    \"consumers\": "@, digits(f.consumers as nat));
    let a7 = a6 + member("    \"busy_fraction\": "@, json_number(f.busy_fraction));
    let a8 = a7 + member("    \"physical_cores\": "@, digits(f.physical_cores as nat));
    let a9 = a8 + member("    \"logical_cpus\": "@, digits(f.logical_cpus as nat));
    let a10 = a9 + member("    \"warmup_discarded_s\": "@, json_number(warmup));
    let a11 = a10 + "    \"reasons\": ["@;
    let a12 = a11 + json_texts(f.reasons, f.reasons.len());
    let a13 = a12 + "]\n  },\n"@;
    assert(doc =~= a13);
    assert(doc.take(a13.len() as int) =~= a13);
    lemma_end_of_a_beginning(doc, a12, "]\n  },\n"@);
    lemma_end_of_a_beginning(doc, a11, json_texts(f.reasons, f.reasons.len()));
    lemma_end_of_a_beginning(doc, a10, "    \"reasons\": ["@);
    lemma_end_of_a_beginning(doc, a9, member("    \"warmup_discarded_s\": "@, json_number(warmup)));
    lemma_end_of_a_beginning(doc, a8, member("    \"logical_cpus\": "@, digits(f.logical_cpus as nat)));
    lemma_end_of_a_beginning(doc, a7, member("    \"physical_cores\": "@, digits(f.physical_cores as nat)));
    lemma_end_of_a_beginning(doc, a6, member("    \"busy_fraction\": "@, json_number(f.busy_fraction)));
    lemma_end_of_a_beginning(doc, a5, member("    \"consumers\": "@, digits(f.consumers as nat)));
    lemma_end_of_a_beginning(doc, a4, member("    \"forced\": "@, json_bool(f.forced)));
    lemma_end_of_a_beginning(doc, a3, member("    \"core_reason\": "@, json_option(f.core_reason)));
    lemma_end_of_a_beginning(doc, a2, member("    \"enough_cores\": "@, json_bool(f.enough_cores)));
    lemma_end_of_a_beginning(doc, a1, member("    \"fair_for_memory\": "@, json_bool(f.fair_for_memory)));
    lemma_end_of_a_beginning(doc, a0, member("    \"fair_for_ratios\": "@, json_bool(f.fair_for_ratios)));
    assert(doc.take(a0.len() as int) =~= a0);
    assert(doc.subrange(0, a0.len() as int) =~= a0);
    assert(text::stands_at(doc, a0, 0));
}

/// An entry is written with each of its parts under the word for it.
pub proof fn law_an_entry_is_written_by_name(w: WorseView, last: bool)
    ensures
        holds(json_worse(w, last), "      \"id\": "@ + json_string(w.id) + ",\n"@),
        holds(json_worse(w, last), "      \"topic\": "@ + json_string(w.topic) + ",\n"@),
        holds(json_worse(w, last), "      \"statement\": "@ + json_string(w.statement) + ",\n"@),
        holds(json_worse(w, last), "      \"metrics\": "@ + json_metrics(w.metrics) + ",\n"@),
        holds(
            json_worse(w, last),
            "      \"metrics_absent_because\": "@ + json_option(w.metrics_absent_because),
        ),
{
    let doc = json_worse(w, last);
    let a0 = "    {\n"@;
    let a1 = a0 + member("      \"id\": "@, json_string(w.id));
    let a2 = a1 + member("      \"topic\": "@, json_string(w.topic));
    let a3 = a2 + member("      \"statement\": "@, json_string(w.statement));
    let a4 = a3 + member("      \"metrics\": "@, json_metrics(w.metrics));
    let a5 = a4 + ("      \"metrics_absent_because\": "@ + json_option(w.metrics_absent_because));
    let a6 = a5 + "\n"@;
    let a7 = a6 + closing(last);
    assert(doc =~= a7);
    assert(doc.take(a7.len() as int) =~= a7);
    lemma_end_of_a_beginning(doc, a6, closing(last));
    lemma_end_of_a_beginning(doc, a5, "\n"@);
    lemma_end_of_a_beginning(doc, a4, ("      \"metrics_absent_because\": "@ + json_option(w.metrics_absent_because)));
    lemma_end_of_a_beginning(doc, a3, member("      \"metrics\": "@, json_metrics(w.metrics)));
    lemma_end_of_a_beginning(doc, a2, member("      \"statement\": "@, json_string(w.statement)));
    lemma_end_of_a_beginning(doc, a1, member("      \"topic\": "@, json_string(w.topic)));
    lemma_end_of_a_beginning(doc, a0, member("      \"id\": "@, json_string(w.id)));
}

proof fn lemma_list_holds_metric(ms: Seq<MetricView>, n: nat, k: int)
    requires
        0 <= k < n <= ms.len(),
    ensures
        holds(json_metric_list(ms, n), json_metric(ms[k])),
    decreases n,
{
    let doc = json_metric_list(ms, n);
    let a = json_metric_list(ms, (n - 1) as nat);
    let b = a + comma(n > 1);
    assert(doc.take((b + json_metric(ms[n - 1])).len() as int) =~= b + json_metric(ms[n - 1]));
    lemma_end_of_a_beginning(doc, b, json_metric(ms[n - 1]));
    if k < n - 1 {
        lemma_end_of_a_beginning(doc, a, comma(n > 1));
        assert(seq![] + a =~= a);
        lemma_end_of_a_beginning(doc, seq![], a);
        lemma_list_holds_metric(ms, (n - 1) as nat, k);
        lemma_holds_what_a_part_holds(doc, a, json_metric(ms[k]));
    }
}

proof fn lemma_list_holds_row(rows: Seq<RowView>, n: nat, k: int)
    requires
        0 <= k < n <= rows.len(),
    ensures
        holds(json_rows(rows, n), json_row(rows[k], k + 1 == rows.len())),
    decreases n,
{
    let doc = json_rows(rows, n);
    let a = json_rows(rows, (n - 1) as nat);
    let last = json_row(rows[n - 1], n == rows.len());
    lemma_both_parts(a, last);
    if k < n - 1 {
        lemma_list_holds_row(rows, (n - 1) as nat, k);
        lemma_holds_what_a_part_holds(doc, a, json_row(rows[k], k + 1 == rows.len()));
    }
}

proof fn lemma_middle_is_held(
    x: Seq<char>,
    a: Seq<char>,
    b: Seq<char>,
    c: Seq<char>,
    t: Seq<char>,
)
    ensures
        holds(x + a + b + c + t, a + b + c),
{
    assert(x + a + b + c + t =~= x + (a + b + c) + t);
    lemma_both_parts(x + (a + b + c), t);
    lemma_end_of_a_beginning(x + (a + b + c) + t, x, a + b + c);
}

proof fn lemma_list_holds_fact(facts: Seq<FactView>, n: nat, k: int)
    requires
        0 <= k < n <= facts.len(),
    ensures
        holds(
            json_facts(facts, n),
            json_string(facts[k].key) + ": "@ + json_string(facts[k].value),
        ),
    decreases n,
{
    let a = json_facts(facts, (n - 1) as nat);
    let last = json_fact(facts[n - 1], n == facts.len());
    let f = facts[k];
    let said = json_string(f.key) + ": "@ + json_string(f.value);
    lemma_both_parts(a, last);
    if k < n - 1 {
        lemma_list_holds_fact(facts, (n - 1) as nat, k);
        lemma_holds_what_a_part_holds(a + last, a, said);
    } else {
        lemma_middle_is_held(
            "    "@,
            json_string(f.key),
            ": "@,
            json_string(f.value),
            if n == facts.len() {
                "\n"@
            } else {
                ",\n"@
            },
        );
        lemma_holds_what_a_part_holds(a + last, last, said);
    }
}

proof fn lemma_list_holds_entry(v: Seq<WorseView>, n: nat, k: int)
    requires
        0 <= k < n <= v.len(),
    ensures
        holds(json_worse_list(v, n), json_worse(v[k], k + 1 == v.len())),
    decreases n,
{
    let doc = json_worse_list(v, n);
    let a = json_worse_list(v, (n - 1) as nat);
    let last = json_worse(v[n - 1], n == v.len());
    lemma_both_parts(a, last);
    if k < n - 1 {
        lemma_list_holds_entry(v, (n - 1) as nat, k);
        lemma_holds_what_a_part_holds(doc, a, json_worse(v[k], k + 1 == v.len()));
    }
}

/// Every metric of a cell is written.
pub proof fn law_every_metric_is_written(ms: Seq<MetricView>, k: int)
    requires
        0 <= k < ms.len(),
    ensures
        holds(json_metrics(ms), json_metric(ms[k])),
{
    let doc = json_metrics(ms);
    let list = json_metric_list(ms, ms.len());
    assert(doc.take(("{"@ + list).len() as int) =~= "{"@ + list);
    lemma_end_of_a_beginning(doc, "{"@, list);
    lemma_list_holds_metric(ms, ms.len(), k);
    lemma_holds_what_a_part_holds(doc, list, json_metric(ms[k]));
}

/// Every row, every entry and every fact of a report is written, and so are the verdicts on
/// the host.
pub proof fn law_everything_is_written(r: ReportView)
    ensures
        forall|k: int|
            0 <= k < r.rows.len() ==> holds(
                json_report(r),
                json_row(#[trigger] r.rows[k], k + 1 == r.rows.len()),
            ),
        forall|k: int|
            0 <= k < r.worse.len() ==> holds(
                json_report(r),
                json_worse(#[trigger] r.worse[k], k + 1 == r.worse.len()),
            ),
        forall|k: int|
            0 <= k < r.provenance.len() ==> holds(
                json_report(r),
                json_string((#[trigger] r.provenance[k]).key) + ": "@ + json_string(
                    r.provenance[k].value,
                ),
            ),
        holds(json_report(r), json_fitness(r.fitness, r.warmup)),
{
    let doc = json_report(r);
    let a0 = "{\n"@;
    let a1 = a0 + member("  \"schema\": "@, json_string(SCHEMA@));
    let a2 = a1 + "  \"provenance\": {\n"@;
    let a3 = a2 + json_facts(r.provenance, r.provenance.len());
    let a4 = a3 + "  },\n"@;
    let a5 = a4 + "  \"host_fitness\": {\n"@;
    let a6 = a5 + json_fitness(r.fitness, r.warmup);
    let a7 = a6 + "  \"rows\": [\n"@;
    let a8 = a7 + json_rows(r.rows, r.rows.len());
    let a9 = a8 + "  ],\n"@;
    let a10 = a9 + "  \"where_we_are_worse\": [\n"@;
    let a11 = a10 + json_worse_list(r.worse, r.worse.len());
    let a12 = a11 + "  ]\n}\n"@;
    assert(doc =~= a12);
    assert(doc.take(a12.len() as int) =~= a12);
    lemma_end_of_a_beginning(doc, a11, "  ]\n}\n"@);
    lemma_end_of_a_beginning(doc, a10, json_worse_list(r.worse, r.worse.len()));
    lemma_end_of_a_beginning(doc, a9, "  \"where_we_are_worse\": [\n"@);
    lemma_end_of_a_beginning(doc, a8, "  ],\n"@);
    lemma_end_of_a_beginning(doc, a7, json_rows(r.rows, r.rows.len()));
    lemma_end_of_a_beginning(doc, a6, "  \"rows\": [\n"@);
    lemma_end_of_a_beginning(doc, a5, json_fitness(r.fitness, r.warmup));
    lemma_end_of_a_beginning(doc, a4, "  \"host_fitness\": {\n"@);
    lemma_end_of_a_beginning(doc, a3, "  },\n"@);
    lemma_end_of_a_beginning(doc, a2, json_facts(r.provenance, r.provenance.len()));
    lemma_end_of_a_beginning(doc, a1, "  \"provenance\": {\n"@);
    lemma_end_of_a_beginning(doc, a0, member("  \"schema\": "@, json_string(SCHEMA@)));
    assert forall|k: int| 0 <= k < r.rows.len() implies holds(
        doc,
        json_row(#[trigger] r.rows[k], k + 1 == r.rows.len()),
    ) by {
        lemma_list_holds_row(r.rows, r.rows.len(), k);
        lemma_holds_what_a_part_holds(
            doc,
            json_rows(r.rows, r.rows.len()),
            json_row(r.rows[k], k + 1 == r.rows.len()),
        );
    }
    assert forall|k: int| 0 <= k < r.worse.len() implies holds(
        doc,
        json_worse(#[trigger] r.worse[k], k + 1 == r.worse.len()),
    ) by {
        lemma_list_holds_entry(r.worse, r.worse.len(), k);
        lemma_holds_what_a_part_holds(
            doc,
            json_worse_list(r.worse, r.worse.len()),
            json_worse(r.worse[k], k + 1 == r.worse.len()),
        );
    }
    assert forall|k: int| 0 <= k < r.provenance.len() implies holds(
        doc,
        json_string((#[trigger] r.provenance[k]).key) + ": "@ + json_string(r.provenance[k].value),
    ) by {
        lemma_list_holds_fact(r.provenance, r.provenance.len(), k);
        lemma_holds_what_a_part_holds(
            doc,
            json_facts(r.provenance, r.provenance.len()),
            json_string(r.provenance[k].key) + ": "@ + json_string(r.provenance[k].value),
        );
    }
}

/// The page shows the numbers of the one engine in the second column and of the other in the
/// third, then what they are worth; and where they are no claim, why.
pub proof fn law_a_row_of_the_page_has_its_columns(r: RowView)
    ensures
        holds(
            html_row(r),
            "</span></td><td>"@ + html_cell(r.tf_tree) + "</td><td>"@ + html_cell(r.tf2)
                + "</td><td class=\""@ + r.status.name(),
        ),
        r.status !is Measured ==> holds(html_row(r), "why: "@ + html_text(r.reason)) && holds(
            html_row(r),
            "reproduce: <code>"@ + html_text(r.reproduce),
        ),
{
    reveal_strlit("<tr><td colspan=\"4\" class=\"reason\">why: ");
    reveal_strlit("why: ");
    reveal_strlit(" &middot; reproduce: <code>");
    reveal_strlit("reproduce: <code>");
    let doc = html_row(r);
    let a = "<tr><td><strong>"@ + html_text(r.title) + "</strong><br><span class=\"reason\">"@
        + html_text(r.note);
    let p = "</span></td><td>"@ + html_cell(r.tf_tree) + "</td><td>"@ + html_cell(r.tf2)
        + "</td><td class=\""@ + r.status.name();
    assert(doc.take((a + p).len() as int) =~= a + p);
    lemma_end_of_a_beginning(doc, a, p);
    if r.status !is Measured {
        let b = a + p + "\">"@ + r.status.loud_name() + "</td></tr>\n"@;
        let open = "<tr><td colspan=\"4\" class=\"reason\">why: "@;
        let n = open.len() - 5;
        let mid = " &middot; reproduce: <code>"@;
        let c = b + open.take(n);
        let q = "why: "@ + html_text(r.reason);
        assert(open =~= open.take(n) + "why: "@);
        assert(doc.take((c + q).len() as int) =~= c + q);
        lemma_end_of_a_beginning(doc, c, q);
        let d = c + q + mid.take(10);
        let x = "reproduce: <code>"@ + html_text(r.reproduce);
        assert(mid =~= mid.take(10) + "reproduce: <code>"@);
        assert(doc.take((d + x).len() as int) =~= d + x);
        lemma_end_of_a_beginning(doc, d, x);
    }
}

/// The page carries a warning exactly where the host is not fair for a duration.
pub proof fn law_an_unfair_host_is_announced(f: FitnessView)
    ensures
        html_banner(f).len() == 0 <==> f.fair_for_timing,
{
    reveal_strlit("</div>\n");
}

/// What is shown in a column: a whole number from a hundred on and for nothing, three decimals
/// below, and the scientific form below a thousandth and from a billion on.
pub proof fn law_how_a_value_is_shown(v: NumberView)
    requires
        finite(v.bits),
    ensures
        ({
            let a = v.bits % 0x8000_0000_0000_0000;
            &&& a == 0 ==> column_value(v) == v.whole
            &&& 0 < a < 0x3f50_624d_d2f1_a9fc ==> column_value(v) == v.scientific
            &&& 0x3f50_624d_d2f1_a9fc <= a < 0x4059_0000_0000_0000 ==> column_value(v)
                == v.thousandths
            &&& 0x4059_0000_0000_0000 <= a < 0x41cd_cd65_0000_0000 ==> column_value(v) == v.whole
            &&& a >= 0x41cd_cd65_0000_0000 ==> column_value(v) == v.scientific
        }),
{
    assert(magnitude(v.bits) == v.bits % 0x8000_0000_0000_0000);
}

/// The four characters of markup are replaced by what stands for them, and every other is itself;
/// a text is replaced character by character.
pub proof fn law_how_a_text_is_escaped(s: Seq<char>, c: char)
    ensures
        html_text(seq![]).len() == 0,
        html_text(s.push('&')) == html_text(s) + "&amp;"@,
        html_text(s.push('<')) == html_text(s) + "&lt;"@,
        html_text(s.push('>')) == html_text(s) + "&gt;"@,
        html_text(s.push('"')) == html_text(s) + "&quot;"@,
        c != '&' && c != '<' && c != '>' && c != '"' ==> html_text(s.push(c)) == html_text(s).push(
            c,
        ),
{
    assert(s.push('&').drop_last() =~= s);
    assert(s.push('<').drop_last() =~= s);
    assert(s.push('>').drop_last() =~= s);
    assert(s.push('"').drop_last() =~= s);
    assert(s.push(c).drop_last() =~= s);
    assert(html_text(s) + seq![c] =~= html_text(s).push(c));
}

proof fn lemma_texts_hold(v: Seq<Seq<char>>, n: nat, k: int)
    requires
        0 <= k < n <= v.len(),
    ensures
        holds(json_texts(v, n), json_string(v[k])),
    decreases n,
{
    let doc = json_texts(v, n);
    let a = json_texts(v, (n - 1) as nat);
    let b = a + comma(n > 1);
    assert(doc.take(doc.len() as int) =~= doc);
    lemma_end_of_a_beginning(doc, b, json_string(v[n - 1]));
    if k < n - 1 {
        lemma_end_of_a_beginning(doc, a, comma(n > 1));
        assert(seq![] + a =~= a);
        lemma_end_of_a_beginning(doc, seq![], a);
        lemma_texts_hold(v, (n - 1) as nat, k);
        lemma_holds_what_a_part_holds(doc, a, json_string(v[k]));
    }
}

/// Every reason of a host is written, and what is true is written as such.
pub proof fn law_every_reason_is_written(f: FitnessView, warmup: NumberView, k: int)
    requires
        0 <= k < f.reasons.len(),
    ensures
        holds(json_fitness(f, warmup), json_string(f.reasons[k])),
        json_bool(true) == "true"@,
        json_bool(false) == "false"@,
        json_option(None) == "null"@,
        json_option(Some(f.reasons[k])) == json_string(f.reasons[k]),
{
    law_fitness_is_written_by_name(f, warmup);
    lemma_texts_hold(f.reasons, f.reasons.len(), k);
    lemma_holds_what_a_part_holds(
        json_fitness(f, warmup),
        json_texts(f.reasons, f.reasons.len()),
        json_string(f.reasons[k]),
    );
}

proof fn lemma_metrics_shown(ms: Seq<MetricView>, n: nat, k: int)
    requires
        0 <= k < n <= ms.len(),
    ensures
        holds(html_metrics(ms, n), html_metric(ms[k])),
    decreases n,
{
    let doc = html_metrics(ms, n);
    let a = html_metrics(ms, (n - 1) as nat);
    let gap = if n > 1 {
        "<br>"@
    } else {
        seq![]
    };
    assert(doc.take(doc.len() as int) =~= doc);
    lemma_end_of_a_beginning(doc, a + gap, html_metric(ms[n - 1]));
    if k < n - 1 {
        lemma_end_of_a_beginning(doc, a, gap);
        assert(seq![] + a =~= a);
        lemma_end_of_a_beginning(doc, seq![], a);
        lemma_metrics_shown(ms, (n - 1) as nat, k);
        lemma_holds_what_a_part_holds(doc, a, html_metric(ms[k]));
    }
}

/// A cell shows every metric with its key, its value and its unit, and a dash where there is
/// none.
pub proof fn law_a_cell_shows_its_metrics(ms: Seq<MetricView>, k: int)
    ensures
        ms.len() == 0 ==> html_cell(ms) == "&mdash;"@,
        0 <= k < ms.len() ==> holds(
            html_cell(ms),
            html_text(ms[k].key) + " = "@ + column_value(ms[k].value) + " "@ + html_text(
                ms[k].unit,
            ),
        ),
{
    if 0 <= k < ms.len() {
        lemma_metrics_shown(ms, ms.len(), k);
    }
}

proof fn lemma_reasons_shown(v: Seq<Seq<char>>, n: nat, k: int)
    requires
        0 <= k < n <= v.len(),
    ensures
        holds(html_reasons(v, n), "<li>"@ + html_text(v[k]) + "</li>\n"@),
    decreases n,
{
    let doc = html_reasons(v, n);
    let a = html_reasons(v, (n - 1) as nat);
    let last = "<li>"@ + html_text(v[n - 1]) + "</li>\n"@;
    lemma_both_parts(a, last);
    if k < n - 1 {
        lemma_reasons_shown(v, (n - 1) as nat, k);
        lemma_holds_what_a_part_holds(doc, a, "<li>"@ + html_text(v[k]) + "</li>\n"@);
    }
}

/// The warning on an unfair host lists every reason, and says whether the refusal was overridden.
pub proof fn law_the_warning_says_why(f: FitnessView, k: int)
    requires
        !f.fair_for_timing,
    ensures
        0 <= k < f.reasons.len() ==> holds(
            html_banner(f),
            "<li>"@ + html_text(f.reasons[k]) + "</li>\n"@,
        ),
        f.forced ==> holds(html_banner(f), BANNER_FORCED@),
        !f.forced ==> holds(html_banner(f), BANNER_REFUSED@),
{
    let doc = html_banner(f);
    let said = if f.forced {
        BANNER_FORCED@
    } else {
        BANNER_REFUSED@
    };
    let list = html_reasons(f.reasons, f.reasons.len());
    let a = BANNER_OPEN@ + list;
    assert(doc.take(doc.len() as int) =~= doc);
    lemma_end_of_a_beginning(doc, a + "</ul>"@ + said, "</div>\n"@);
    lemma_end_of_a_beginning(doc, a + "</ul>"@, said);
    lemma_end_of_a_beginning(doc, a, "</ul>"@);
    lemma_end_of_a_beginning(doc, BANNER_OPEN@, list);
    if 0 <= k < f.reasons.len() {
        lemma_reasons_shown(f.reasons, f.reasons.len(), k);
        lemma_holds_what_a_part_holds(
            doc,
            list,
            "<li>"@ + html_text(f.reasons[k]) + "</li>\n"@,
        );
    }
}

proof fn lemma_rows_shown(rows: Seq<RowView>, n: nat, k: int)
    requires
        0 <= k < n <= rows.len(),
    ensures
        holds(html_rows(rows, n), html_row(rows[k])),
    decreases n,
{
    let doc = html_rows(rows, n);
    let a = html_rows(rows, (n - 1) as nat);
    lemma_both_parts(a, html_row(rows[n - 1]));
    if k < n - 1 {
        lemma_rows_shown(rows, (n - 1) as nat, k);
        lemma_holds_what_a_part_holds(doc, a, html_row(rows[k]));
    }
}

proof fn lemma_entries_shown(v: Seq<WorseView>, n: nat, k: int)
    requires
        0 <= k < n <= v.len(),
    ensures
        holds(html_worse_list(v, n), html_worse(v[k])),
    decreases n,
{
    let doc = html_worse_list(v, n);
    let a = html_worse_list(v, (n - 1) as nat);
    lemma_both_parts(a, html_worse(v[n - 1]));
    if k < n - 1 {
        lemma_entries_shown(v, (n - 1) as nat, k);
        lemma_holds_what_a_part_holds(doc, a, html_worse(v[k]));
    }
}

spec fn shown_fact(f: FactView) -> Seq<char> {
    "<tr><th>"@ + html_text(f.key) + "</th><td>"@ + html_text(f.value) + "</td></tr>\n"@
}

proof fn lemma_facts_shown(v: Seq<FactView>, n: nat, k: int)
    requires
        0 <= k < n <= v.len(),
    ensures
        holds(html_facts(v, n), shown_fact(v[k])),
    decreases n,
{
    let doc = html_facts(v, n);
    let a = html_facts(v, (n - 1) as nat);
    assert(doc == a + shown_fact(v[n - 1]));
    lemma_both_parts(a, shown_fact(v[n - 1]));
    if k < n - 1 {
        lemma_facts_shown(v, (n - 1) as nat, k);
        lemma_holds_what_a_part_holds(doc, a, shown_fact(v[k]));
    }
}

proof fn lemma_parts_of_the_page(r: ReportView)
    ensures
        holds(html_report(r), html_banner(r.fitness)),
        holds(html_report(r), html_results(r)),
        holds(html_report(r), html_provenance(r)),
{
    let doc = html_report(r);
    let a1 = HTML_HEAD@ + html_banner(r.fitness);
    let a2 = a1 + html_results(r);
    let a3 = a2 + html_provenance(r);
    let a4 = a3 + "<h2>Reproducing this</h2>\n<p><code>"@;
    let a5 = a4 + REPRODUCE_RECIPE@;
    let a6 = a5 + "</code>"@;
    lemma_both_parts(a6, REPRODUCING@);
    assert(doc == a6 + REPRODUCING@);
    lemma_end_of_a_beginning(doc, a5, "</code>"@);
    lemma_end_of_a_beginning(doc, a4, REPRODUCE_RECIPE@);
    lemma_end_of_a_beginning(doc, a3, "<h2>Reproducing this</h2>\n<p><code>"@);
    lemma_end_of_a_beginning(doc, a2, html_provenance(r));
    lemma_end_of_a_beginning(doc, a1, html_results(r));
    lemma_end_of_a_beginning(doc, HTML_HEAD@, html_banner(r.fitness));
}

proof fn lemma_parts_of_the_results(r: ReportView)
    ensures
        holds(html_results(r), html_rows(r.rows, r.rows.len())),
        holds(html_results(r), html_worse_list(r.worse, r.worse.len())),
{
    let doc = html_results(r);
    let rows = html_rows(r.rows, r.rows.len());
    let worse = html_worse_list(r.worse, r.worse.len());
    let b0 = RESULTS_OPEN@ + rows;
    let b1 = b0 + WORSE_OPEN@;
    lemma_both_parts(b1 + worse, "</table>\n"@);
    assert(doc == b1 + worse + "</table>\n"@);
    lemma_end_of_a_beginning(doc, b1, worse);
    lemma_end_of_a_beginning(doc, b0, WORSE_OPEN@);
    lemma_end_of_a_beginning(doc, RESULTS_OPEN@, rows);
}

proof fn lemma_parts_of_the_provenance(r: ReportView)
    ensures
        holds(html_provenance(r), html_facts(r.provenance, r.provenance.len())),
        holds(
            html_provenance(r),
            "<tr><th>warmup_discarded_s</th><td>"@ + column_value(r.warmup) + "</td></tr>\n"@,
        ),
{
    let list = html_facts(r.provenance, r.provenance.len());
    let c0 = "<h2>Provenance</h2>\n<table>\n"@ + list;
    let v = column_value(r.warmup);
    lemma_both_parts("<h2>Provenance</h2>\n<table>\n"@, list);
    lemma_middle_is_held(
        c0,
        "<tr><th>warmup_discarded_s</th><td>"@,
        v,
        "</td></tr>\n"@,
        "</table>\n"@,
    );
    let c1 = c0 + "<tr><th>warmup_discarded_s</th><td>"@;
    let c2 = c1 + v;
    let c3 = c2 + "</td></tr>\n"@;
    lemma_both_parts(c3, "</table>\n"@);
    assert(html_provenance(r) == c3 + "</table>\n"@);
    lemma_end_of_a_beginning(html_provenance(r), c2, "</td></tr>\n"@);
    lemma_end_of_a_beginning(html_provenance(r), c1, v);
    lemma_end_of_a_beginning(html_provenance(r), c0, "<tr><th>warmup_discarded_s</th><td>"@);
    lemma_end_of_a_beginning(html_provenance(r), "<h2>Provenance</h2>\n<table>\n"@, list);
}

/// The page shows every row, every entry, every fact, the warm-up and the warning.
pub proof fn law_everything_is_shown(r: ReportView, k: int)
    ensures
        0 <= k < r.rows.len() ==> holds(html_report(r), html_row(r.rows[k])),
        0 <= k < r.worse.len() ==> holds(html_report(r), html_worse(r.worse[k])),
        0 <= k < r.provenance.len() ==> holds(
            html_report(r),
            "<tr><th>"@ + html_text(r.provenance[k].key) + "</th><td>"@ + html_text(
                r.provenance[k].value,
            ) + "</td></tr>\n"@,
        ),
        holds(
            html_report(r),
            "<tr><th>warmup_discarded_s</th><td>"@ + column_value(r.warmup) + "</td></tr>\n"@,
        ),
        holds(html_report(r), html_banner(r.fitness)),
{
    let doc = html_report(r);
    let rows = html_rows(r.rows, r.rows.len());
    let worse = html_worse_list(r.worse, r.worse.len());
    let list = html_facts(r.provenance, r.provenance.len());
    lemma_parts_of_the_page(r);
    lemma_parts_of_the_results(r);
    lemma_parts_of_the_provenance(r);
    lemma_holds_what_a_part_holds(
        doc,
        html_provenance(r),
        "<tr><th>warmup_discarded_s</th><td>"@ + column_value(r.warmup) + "</td></tr>\n"@,
    );
    lemma_holds_what_a_part_holds(doc, html_provenance(r), list);
    lemma_holds_what_a_part_holds(doc, html_results(r), rows);
    lemma_holds_what_a_part_holds(doc, html_results(r), worse);
    if 0 <= k < r.rows.len() {
        lemma_rows_shown(r.rows, r.rows.len(), k);
        lemma_holds_what_a_part_holds(doc, rows, html_row(r.rows[k]));
    }
    if 0 <= k < r.worse.len() {
        lemma_entries_shown(r.worse, r.worse.len(), k);
        lemma_holds_what_a_part_holds(doc, worse, html_worse(r.worse[k]));
    }
    if 0 <= k < r.provenance.len() {
        lemma_facts_shown(r.provenance, r.provenance.len(), k);
        lemma_holds_what_a_part_holds(doc, list, shown_fact(r.provenance[k]));
    }
}

/// An entry of the page names its topic, shows its metrics and makes its statement, with the
/// reason where it has no metric.
pub proof fn law_an_entry_is_shown_whole(w: WorseView)
    ensures
        begins(html_worse(w), "<tr><td><strong>"@ + html_text(w.topic)),
        w.metrics.len() > 0 ==> holds(html_worse(w), html_cell(w.metrics)),
        holds(html_worse(w), html_text(w.statement)),
        w.metrics_absent_because matches Some(why) ==> holds(
            html_worse(w),
            "<br><em>No metric here: "@ + html_text(why),
        ),
{
    let doc = html_worse(w);
    let a = "<tr><td><strong>"@ + html_text(w.topic);
    let b = a + "</strong>"@;
    let cell = if w.metrics.len() == 0 {
        seq![]
    } else {
        "<br>"@ + html_cell(w.metrics)
    };
    let c = b + cell + "</td><td colspan=\"3\">"@;
    let said = html_statement(w);
    assert(doc == c + said + "</td></tr>\n"@);
    assert(doc.take(doc.len() as int) =~= doc);
    lemma_end_of_a_beginning(doc, c + said, "</td></tr>\n"@);
    lemma_end_of_a_beginning(doc, c, said);
    lemma_end_of_a_beginning(doc, b + cell, "</td><td colspan=\"3\">"@);
    lemma_end_of_a_beginning(doc, b, cell);
    lemma_end_of_a_beginning(doc, a, "</strong>"@);
    if w.metrics.len() > 0 {
        assert(b + cell =~= b + "<br>"@ + html_cell(w.metrics));
        lemma_end_of_a_beginning(doc, b + "<br>"@, html_cell(w.metrics));
    }
    let s = html_text(w.statement);
    assert(seq![] + s =~= s);
    match w.metrics_absent_because {
        None => {},
        Some(why) => {
            let p = "<br><em>No metric here: "@ + html_text(why);
            assert(said =~= s + p + "</em>"@);
            assert(said.take(said.len() as int) =~= said);
            lemma_end_of_a_beginning(said, s + p, "</em>"@);
            lemma_end_of_a_beginning(said, s, p);
            lemma_end_of_a_beginning(said, seq![], s);
            lemma_holds_what_a_part_holds(doc, said, p);
            lemma_holds_what_a_part_holds(doc, said, s);
        },
    }
}

} // verus!
