//! Vulnerability-record lookups: identifier normalization, score handling
//! and the parts of an NVD record that responses are built from.
//!
//! CVSS scores have one decimal place, so they are carried as tenths of a
//! point (`98` stands for 9.8); the network layer converts when it parses a
//! record.

use vstd::prelude::*;

use crate::error::BotError;
use crate::dates::{is_rfc3339, rfc3339_date_prefix};
use crate::strutil::{
    all_digits, ascii_upper, dec_spec, is_digit_char, push_decimal, split_char, split_spec,
    starts_with, str_eq, trim, trim_spec, upper_seq,
};

verus! {

/// One description of a vulnerability, in one language.
#[derive(Debug, Clone)]
pub struct CveDescription {
    pub lang: String,
    pub value: String,
}

/// One CVSS measurement, as one source scored it.
#[derive(Debug, Clone)]
pub struct CvssMetric {
    pub source: String,
    pub metric_type: String,
    pub version: String,
    pub base_score_tenths: u16,
    pub base_severity: Option<String>,
}

/// The CVSS measurements of a record, by CVSS version.
#[derive(Debug, Clone)]
pub struct CveMetrics {
    pub cvss_v31: Vec<CvssMetric>,
    pub cvss_v30: Vec<CvssMetric>,
    pub cvss_v2: Vec<CvssMetric>,
}

/// One weakness (CWE) note on a record.
#[derive(Debug, Clone)]
pub struct CveWeakness {
    pub source: String,
    pub weakness_type: String,
    pub description: Vec<CveDescription>,
}

/// One affected-product pattern (a CPE string) of a record.
#[derive(Debug, Clone)]
pub struct CpeMatch {
    pub vulnerable: bool,
    pub criteria: String,
}

/// One configuration node of a record.
#[derive(Debug, Clone)]
pub struct CveNode {
    pub operator: Option<String>,
    pub cpe_match: Vec<CpeMatch>,
}

/// One configuration block of a record.
#[derive(Debug, Clone)]
pub struct CveConfiguration {
    pub nodes: Vec<CveNode>,
}

/// One reference link on a record.
#[derive(Debug, Clone)]
pub struct CveReference {
    pub url: String,
    pub source: Option<String>,
    pub tags: Vec<String>,
}

/// Everything of an NVD vulnerability record that responses are built from.
#[derive(Debug, Clone)]
pub struct CveData {
    pub id: String,
    pub source_identifier: Option<String>,
    pub published: Option<String>,
    pub last_modified: Option<String>,
    pub vuln_status: Option<String>,
    pub descriptions: Vec<CveDescription>,
    pub metrics: Option<CveMetrics>,
    pub weaknesses: Vec<CveWeakness>,
    pub configurations: Option<Vec<CveConfiguration>>,
    pub references: Vec<CveReference>,
}

/// What a case-raised, trimmed identifier normalizes to: a well-formed
/// `CVE-YYYY-NNNN...` passes through; a bare `YYYY-NNNN...` of digits and
/// dashes gets the `CVE-` prefix; anything else is refused.
pub open spec fn cve_norm_spec(s: Seq<char>) -> Option<Seq<char>> {
    if s.len() >= 4 && s.take(4) == "CVE-"@ {
        if s.len() >= 13 && s[8] == '-' && (forall|i: int| 4 <= i < 8 ==> is_digit_char(s[i])) && (
        forall|i: int| 9 <= i < s.len() ==> is_digit_char(s[i])) {
            Option::Some(s)
        } else {
            Option::None
        }
    } else if forall|i: int| 0 <= i < s.len() ==> is_digit_char(s[i]) || s[i] == '-' {
        Option::Some("CVE-"@ + s)
    } else {
        Option::None
    }
}

/// Brings a user-typed CVE identifier to the canonical `CVE-YYYY-NNNN` form,
/// or says exactly why it cannot be.
pub fn normalize_cve_id(input: &str) -> (r: Result<String, BotError>)
    ensures
        ({
            let clean = upper_seq(trim_spec(input@));
            &&& (r matches Ok(s) ==> cve_norm_spec(clean) == Option::Some(s@))
            &&& (r is Ok <==> cve_norm_spec(clean) is Some)
            &&& (r matches Err(e) ==> e matches BotError::InvalidFormat(m) && m@
                == "Invalid CVE format. Expected format: CVE-YYYY-NNNN (e.g., CVE-2019-16863)"@)
        }),
{
    proof {
        reveal_strlit("CVE-");
    }
    let trimmed = trim(input);
    let clean = ascii_upper(trimmed);
    let len = clean.as_str().unicode_len();
    if starts_with(clean.as_str(), "CVE-") {
        if len >= 13 && clean.as_str().get_char(8) == '-' {
            let year = clean.as_str().substring_char(4, 8);
            let number = clean.as_str().substring_char(9, len);
            if all_digits(year) && all_digits(number) {
                proof {
                    assert forall|i: int| 4 <= i < 8 implies is_digit_char(clean@[i]) by {
                        assert(year@[i - 4] == clean@[i]);
                    }
                    assert forall|i: int| 9 <= i < clean@.len() implies is_digit_char(
                        clean@[i],
                    ) by {
                        assert(number@[i - 9] == clean@[i]);
                    }
                }
                return Ok(clean);
            }
            proof {
                if !(forall|j: int| 0 <= j < year@.len() ==> is_digit_char(year@[j])) {
                    let j = choose|j: int| 0 <= j < year@.len() && !is_digit_char(year@[j]);
                    assert(clean@[j + 4] == year@[j]);
                    assert(!is_digit_char(clean@[j + 4]));
                } else {
                    let j = choose|j: int|
                        0 <= j < number@.len() && !is_digit_char(number@[j]);
                    assert(clean@[j + 9] == number@[j]);
                    assert(!is_digit_char(clean@[j + 9]));
                }
                assert(cve_norm_spec(clean@) is None);
            }
        }
        Err(BotError::InvalidFormat(
            ("Invalid CVE format. Expected format: CVE-YYYY-NNNN (e.g., CVE-2019-16863)").to_owned(),
        ))
    } else {
        let mut i: usize = 0;
        let mut ok = true;
        while i < len
            invariant
                len == clean@.len(),
                i <= len,
                ok == forall|j: int| 0 <= j < i ==> is_digit_char(clean@[j]) || clean@[j] == '-',
            decreases len - i,
        {
            let c = clean.as_str().get_char(i);
            let u = c as u32;
            if !(48 <= u && u <= 57) && c != '-' {
                ok = false;
            }
            i += 1;
        }
        if ok {
            let mut s = ("CVE-").to_owned();
            s.append(clean.as_str());
            Ok(s)
        } else {
            Err(BotError::InvalidFormat(
                (
                "Invalid CVE format. Expected format: CVE-YYYY-NNNN (e.g., CVE-2019-16863)").to_owned(),
            ))
        }
    }
}

/// The vendor/product reading of a CPE string: its fourth and fifth
/// colon-separated fields where they are concrete, the whole string where
/// they are not.
pub open spec fn product_from_cpe_spec(s: Seq<char>) -> Seq<char> {
    let parts = split_spec(s, ':');
    if parts.len() >= 5 {
        if parts[3] != "*"@ && parts[4] != "*"@ {
            parts[3] + " "@ + parts[4]
        } else if parts[4] != "*"@ {
            parts[4]
        } else {
            s
        }
    } else {
        s
    }
}

/// Reads the human-meaningful vendor and product out of a CPE string.
pub fn extract_product_from_cpe(cpe: &str) -> (r: String)
    ensures
        r@ == product_from_cpe_spec(cpe@),
{
    let parts = split_char(cpe, ':');
    if parts.len() >= 5 {
        let vendor = &parts[3];
        let product = &parts[4];
        let vendor_any = str_eq(vendor.as_str(), "*");
        let product_any = str_eq(product.as_str(), "*");
        if !vendor_any && !product_any {
            let mut s = vendor.clone();
            s.append(" ");
            s.append(product.as_str());
            s
        } else if !product_any {
            product.clone()
        } else {
            cpe.to_owned()
        }
    } else {
        cpe.to_owned()
    }
}

/// The severity band of a score in tenths of a point: none at zero, low to
/// critical across the CVSS bands, unknown beyond ten.
pub open spec fn severity_spec(tenths: u16) -> Seq<char> {
    if tenths == 0 {
        "None"@
    } else if tenths <= 39 {
        "Low"@
    } else if tenths <= 69 {
        "Medium"@
    } else if tenths <= 89 {
        "High"@
    } else if tenths <= 100 {
        "Critical"@
    } else {
        "Unknown"@
    }
}

/// Names the severity band of a CVSS score given in tenths of a point.
pub fn severity_from_score(tenths: u16) -> (r: String)
    ensures
        r@ == severity_spec(tenths),
{
    if tenths == 0 {
        ("None").to_owned()
    } else if tenths <= 39 {
        ("Low").to_owned()
    } else if tenths <= 69 {
        ("Medium").to_owned()
    } else if tenths <= 89 {
        ("High").to_owned()
    } else if tenths <= 100 {
        ("Critical").to_owned()
    } else {
        ("Unknown").to_owned()
    }
}

/// A score in tenths written as its decimal value: whole number where the
/// tenths digit is zero, one decimal place otherwise.
pub open spec fn score_string_spec(tenths: u16) -> Seq<char> {
    if tenths % 10 == 0 {
        dec_spec(tenths as int / 10)
    } else {
        dec_spec(tenths as int / 10) + "."@ + dec_spec(tenths as int % 10)
    }
}

/// Writes a score held in tenths the way its decimal value prints.
pub fn score_string(tenths: u16) -> (r: String)
    ensures
        r@ == score_string_spec(tenths),
{
    let mut s = String::new();
    push_decimal(&mut s, (tenths / 10) as u64);
    if tenths % 10 != 0 {
        s.append(".");
        push_decimal(&mut s, (tenths % 10) as u64);
    }
    proof {
        assert(Seq::<char>::empty() + dec_spec(tenths as int / 10) =~= dec_spec(
            tenths as int / 10,
        ));
    }
    s
}

/// The score, CVSS version label and severity text that a record is best
/// described by: the first v3.1 measurement, else the first v3.0 one (both
/// with their recorded severity when one is present), else the first v2 one
/// with a derived severity.
pub open spec fn best_cvss_spec(m: CveMetrics) -> Option<(u16, Seq<char>, Seq<char>)> {
    if m.cvss_v31.len() > 0 {
        Option::Some(
            (
                m.cvss_v31[0].base_score_tenths,
                "v"@ + m.cvss_v31[0].version@,
                match m.cvss_v31[0].base_severity {
                    Option::Some(sev) => sev@,
                    Option::None => severity_spec(m.cvss_v31[0].base_score_tenths),
                },
            ),
        )
    } else if m.cvss_v30.len() > 0 {
        Option::Some(
            (
                m.cvss_v30[0].base_score_tenths,
                "v"@ + m.cvss_v30[0].version@,
                match m.cvss_v30[0].base_severity {
                    Option::Some(sev) => sev@,
                    Option::None => severity_spec(m.cvss_v30[0].base_score_tenths),
                },
            ),
        )
    } else if m.cvss_v2.len() > 0 {
        Option::Some(
            (
                m.cvss_v2[0].base_score_tenths,
                "v"@ + m.cvss_v2[0].version@,
                severity_spec(m.cvss_v2[0].base_score_tenths),
            ),
        )
    } else {
        Option::None
    }
}

/// Picks the most telling CVSS measurement of a record: v3.1 over v3.0
/// over v2, first entry each.
pub fn get_best_cvss_score(metrics: &CveMetrics) -> (r: Option<(u16, String, String)>)
    ensures
        match r {
            Some(t) => best_cvss_spec(*metrics) matches Some(u) && u.0 == t.0 && u.1 == t.1@
                && u.2 == t.2@,
            None => best_cvss_spec(*metrics) is None,
        },
{
    if metrics.cvss_v31.len() > 0 {
        let m = &metrics.cvss_v31[0];
        let mut label = ("v").to_owned();
        label.append(m.version.as_str());
        let sev = match &m.base_severity {
            Some(s) => s.clone(),
            None => severity_from_score(m.base_score_tenths),
        };
        Some((m.base_score_tenths, label, sev))
    } else if metrics.cvss_v30.len() > 0 {
        let m = &metrics.cvss_v30[0];
        let mut label = ("v").to_owned();
        label.append(m.version.as_str());
        let sev = match &m.base_severity {
            Some(s) => s.clone(),
            None => severity_from_score(m.base_score_tenths),
        };
        Some((m.base_score_tenths, label, sev))
    } else if metrics.cvss_v2.len() > 0 {
        let m = &metrics.cvss_v2[0];
        let mut label = ("v").to_owned();
        label.append(m.version.as_str());
        let sev = severity_from_score(m.base_score_tenths);
        Some((m.base_score_tenths, label, sev))
    } else {
        None
    }
}

/// A text cut to 500 characters with an ellipsis, where it runs longer.
pub open spec fn trunc500(s: Seq<char>) -> Seq<char> {
    if s.len() > 500 {
        s.take(500) + "..."@
    } else {
        s
    }
}

/// The first index with an English-language entry, or -1.
pub open spec fn first_en_idx(descs: Seq<CveDescription>, i: int) -> int
    decreases descs.len() - i,
{
    if i < 0 || i >= descs.len() {
        -1
    } else if descs[i].lang@ == "en"@ {
        i
    } else {
        first_en_idx(descs, i + 1)
    }
}

/// Finds the first English-language entry.
fn find_en<'a>(descs: &'a Vec<CveDescription>, start: usize) -> (r: Option<&'a CveDescription>)
    requires
        start <= descs@.len(),
    ensures
        match r {
            Some(d) => first_en_idx(descs@, start as int) >= 0 && *d == descs@[first_en_idx(
                descs@,
                start as int,
            )],
            None => first_en_idx(descs@, start as int) == -1,
        },
    decreases descs@.len() - start,
{
    if start == descs.len() {
        return None;
    }
    if str_eq(descs[start].lang.as_str(), "en") {
        Some(&descs[start])
    } else {
        find_en(descs, start + 1)
    }
}

/// The status line of a record's response.
pub open spec fn cve_status_part(cve: CveData) -> Seq<char> {
    match cve.vuln_status {
        Option::Some(s) => "**Status:** "@ + s@ + "\n"@,
        Option::None => Seq::<char>::empty(),
    }
}

/// The publication line, present where the record's date is well-formed.
pub open spec fn cve_published_part(cve: CveData) -> Seq<char> {
    match cve.published {
        Option::Some(p) => if is_rfc3339(p@) {
            "**Published:** "@ + p@.take(10) + "\n"@
        } else {
            Seq::<char>::empty()
        },
        Option::None => Seq::<char>::empty(),
    }
}

/// The score line, present where the record carries a CVSS measurement.
pub open spec fn cve_score_part(cve: CveData) -> Seq<char> {
    match cve.metrics {
        Option::Some(m) => match best_cvss_spec(m) {
            Option::Some(t) => "**CVSS Score:** "@ + score_string_spec(t.0) + " ("@ + t.1
                + ") - "@ + t.2 + "\n"@,
            Option::None => Seq::<char>::empty(),
        },
        Option::None => Seq::<char>::empty(),
    }
}

/// The description section, from the first English entry.
pub open spec fn cve_desc_part(cve: CveData) -> Seq<char> {
    let i = first_en_idx(cve.descriptions@, 0);
    if i >= 0 {
        "\n**Description:**\n"@ + trunc500(cve.descriptions@[i].value@) + "\n"@
    } else {
        Seq::<char>::empty()
    }
}

/// One weakness bullet, where the weakness has an English entry.
pub open spec fn weakness_line(w: CveWeakness) -> Seq<char> {
    let i = first_en_idx(w.description@, 0);
    if i >= 0 {
        "• "@ + w.description@[i].value@ + "\n"@
    } else {
        Seq::<char>::empty()
    }
}

/// The weaknesses section: a header and up to three bullets.
pub open spec fn cve_weaknesses_part(cve: CveData) -> Seq<char> {
    if cve.weaknesses@.len() > 0 {
        "\n**Weaknesses:**\n"@ + weakness_line(cve.weaknesses@[0]) + (if cve.weaknesses@.len()
            > 1 {
            weakness_line(cve.weaknesses@[1])
        } else {
            Seq::<char>::empty()
        }) + (if cve.weaknesses@.len() > 2 {
            weakness_line(cve.weaknesses@[2])
        } else {
            Seq::<char>::empty()
        })
    } else {
        Seq::<char>::empty()
    }
}

/// The products of one node's first three CPE patterns.
pub open spec fn cpe_prods(cpes: Seq<CpeMatch>) -> Seq<Seq<char>> {
    Seq::new(
        if cpes.len() < 3 {
            cpes.len()
        } else {
            3
        },
        |i: int| product_from_cpe_spec(cpes[i].criteria@),
    )
}

/// The products of a configuration's nodes, from index `i` on.
pub open spec fn nodes_prods(nodes: Seq<CveNode>, i: int) -> Seq<Seq<char>>
    decreases nodes.len() - i,
{
    if i < 0 || i >= nodes.len() {
        Seq::<Seq<char>>::empty()
    } else {
        cpe_prods(nodes[i].cpe_match@) + nodes_prods(nodes, i + 1)
    }
}

/// The products of the first two configurations, from index `i` on.
pub open spec fn configs_prods(cfgs: Seq<CveConfiguration>, i: int) -> Seq<Seq<char>>
    decreases cfgs.len() - i,
{
    if i < 0 || i >= cfgs.len() || i >= 2 {
        Seq::<Seq<char>>::empty()
    } else {
        nodes_prods(cfgs[i].nodes@, 0) + configs_prods(cfgs, i + 1)
    }
}

/// Bullet lines for the entries from `i` up to the cap.
pub open spec fn prod_bullets(ps: Seq<Seq<char>>, i: int, cap: int) -> Seq<char>
    decreases ps.len() - i,
{
    if i < 0 || i >= ps.len() || i >= cap {
        Seq::<char>::empty()
    } else {
        "• "@ + ps[i] + "\n"@ + prod_bullets(ps, i + 1, cap)
    }
}

/// The affected-products section: a header, up to five product bullets,
/// and a note where more were listed.
pub open spec fn cve_products_part(cve: CveData) -> Seq<char> {
    match cve.configurations {
        Option::Some(cfgs) => {
            let ps = configs_prods(cfgs@, 0);
            "\n**Affected Products:**\n"@ + prod_bullets(ps, 0, 5) + (if ps.len() >= 5 {
                "• ... and more\n"@
            } else {
                Seq::<char>::empty()
            })
        },
        Option::None => Seq::<char>::empty(),
    }
}

/// Whether one reference carries a vendor-advisory tag.
pub open spec fn is_advisory_ref(r: CveReference) -> bool {
    exists|t: int|
        0 <= t < r.tags@.len() && (crate::strutil::find_sub_idx(r.tags@[t]@, "Vendor"@) >= 0
            || crate::strutil::find_sub_idx(r.tags@[t]@, "Advisory"@) >= 0)
}

/// The first vendor-advisory reference, or -1.
pub open spec fn advisory_idx(refs: Seq<CveReference>, i: int) -> int
    decreases refs.len() - i,
{
    if i < 0 || i >= refs.len() {
        -1
    } else if is_advisory_ref(refs[i]) {
        i
    } else {
        advisory_idx(refs, i + 1)
    }
}

/// The advisory line, where a tagged reference exists.
pub open spec fn cve_advisory_part(cve: CveData) -> Seq<char> {
    let i = advisory_idx(cve.references@, 0);
    if i >= 0 {
        "\n**Vendor Advisory:** "@ + cve.references@[i].url@
    } else {
        Seq::<char>::empty()
    }
}

/// The whole response body of a record.
pub open spec fn cve_response_spec(cve: CveData, detailed: bool) -> Seq<char> {
    cve_status_part(cve) + cve_published_part(cve) + cve_score_part(cve) + cve_desc_part(cve) + (
    if detailed {
        cve_weaknesses_part(cve) + cve_products_part(cve)
    } else {
        Seq::<char>::empty()
    }) + "\n**NVD Link:** https://nvd.nist.gov/vuln/detail/"@ + cve.id@ + cve_advisory_part(cve)
}

/// Whether this reference carries a vendor-advisory tag.
fn advisory_check(r: &CveReference) -> (res: bool)
    ensures
        res == is_advisory_ref(*r),
{
    proof {
        reveal_strlit("Vendor");
        reveal_strlit("Advisory");
    }
    let mut t: usize = 0;
    while t < r.tags.len()
        invariant
            t <= r.tags@.len(),
            forall|j: int|
                0 <= j < t ==> !(crate::strutil::find_sub_idx(r.tags@[j]@, "Vendor"@) >= 0
                    || crate::strutil::find_sub_idx(r.tags@[j]@, "Advisory"@) >= 0),
        decreases r.tags@.len() - t,
    {
        proof {
            reveal_strlit("Vendor");
            reveal_strlit("Advisory");
        }
        let v = crate::strutil::find_sub(r.tags[t].as_str(), "Vendor");
        let a = crate::strutil::find_sub(r.tags[t].as_str(), "Advisory");
        if v.is_some() || a.is_some() {
            return true;
        }
        t += 1;
    }
    false
}

/// Finds the first vendor-advisory reference.
fn find_advisory<'a>(refs: &'a Vec<CveReference>, start: usize) -> (r: Option<&'a CveReference>)
    requires
        start <= refs@.len(),
    ensures
        match r {
            Some(rf) => advisory_idx(refs@, start as int) >= 0 && *rf == refs@[advisory_idx(
                refs@,
                start as int,
            )],
            None => advisory_idx(refs@, start as int) == -1,
        },
    decreases refs@.len() - start,
{
    if start == refs.len() {
        return None;
    }
    if advisory_check(&refs[start]) {
        Some(&refs[start])
    } else {
        find_advisory(refs, start + 1)
    }
}

/// Collects the products of one node's first three CPE patterns.
fn cpe_prods_exec(cpes: &Vec<CpeMatch>) -> (r: Vec<String>)
    ensures
        r@.len() == cpe_prods(cpes@).len(),
        forall|i: int| 0 <= i < r@.len() ==> r@[i]@ == cpe_prods(cpes@)[i],
{
    let mut out: Vec<String> = Vec::new();
    let cap = if cpes.len() < 3 {
        cpes.len()
    } else {
        3
    };
    let mut i: usize = 0;
    while i < cap
        invariant
            cap == (if cpes@.len() < 3 {
                cpes@.len() as int
            } else {
                3
            }),
            i <= cap,
            out@.len() == i,
            forall|j: int| 0 <= j < i ==> out@[j]@ == cpe_prods(cpes@)[j],
        decreases cap - i,
    {
        let p = extract_product_from_cpe(cpes[i].criteria.as_str());
        out.push(p);
        i += 1;
    }
    out
}

/// Collects the products of a configuration's nodes, from `i` on.
fn nodes_prods_exec(nodes: &Vec<CveNode>, i: usize) -> (r: Vec<String>)
    requires
        i <= nodes@.len(),
    ensures
        r@.len() == nodes_prods(nodes@, i as int).len(),
        forall|j: int| 0 <= j < r@.len() ==> r@[j]@ == nodes_prods(nodes@, i as int)[j],
    decreases nodes@.len() - i,
{
    if i == nodes.len() {
        return Vec::new();
    }
    let mut head = cpe_prods_exec(&nodes[i].cpe_match);
    let mut rest = nodes_prods_exec(nodes, i + 1);
    let ghost hview = head@;
    head.append(&mut rest);
    proof {
        assert forall|j: int| 0 <= j < head@.len() implies head@[j]@ == nodes_prods(
            nodes@,
            i as int,
        )[j] by {
            if j < hview.len() {
                assert(head@[j] == hview[j]);
            }
        }
    }
    head
}

/// Collects the products of the first two configurations, from `i` on.
fn configs_prods_exec(cfgs: &Vec<CveConfiguration>, i: usize) -> (r: Vec<String>)
    requires
        i <= cfgs@.len(),
    ensures
        r@.len() == configs_prods(cfgs@, i as int).len(),
        forall|j: int| 0 <= j < r@.len() ==> r@[j]@ == configs_prods(cfgs@, i as int)[j],
    decreases cfgs@.len() - i,
{
    if i == cfgs.len() || i >= 2 {
        return Vec::new();
    }
    let mut head = nodes_prods_exec(&cfgs[i].nodes, 0);
    let mut rest = configs_prods_exec(cfgs, i + 1);
    let ghost hview = head@;
    head.append(&mut rest);
    proof {
        assert forall|j: int| 0 <= j < head@.len() implies head@[j]@ == configs_prods(
            cfgs@,
            i as int,
        )[j] by {
            if j < hview.len() {
                assert(head@[j] == hview[j]);
            }
        }
    }
    head
}

/// Appends up to `cap` product bullets, from `i` on.
fn push_prod_bullets(out: &mut String, ps: &Vec<String>, i: usize, cap: usize, Ghost(spec_ps): Ghost<Seq<Seq<char>>>)
    requires
        i <= ps@.len(),
        spec_ps.len() == ps@.len(),
        forall|j: int| 0 <= j < ps@.len() ==> ps@[j]@ == spec_ps[j],
    ensures
        final(out)@ == old(out)@ + prod_bullets(spec_ps, i as int, cap as int),
    decreases ps@.len() - i,
{
    if i == ps.len() || i >= cap {
        proof {
            crate::strutil::lemma_cat_empty(old(out)@);
        }
        return ;
    }
    let ghost base = out@;
    out.append("• ");
    out.append(ps[i].as_str());
    out.append("\n");
    proof {
        crate::strutil::lemma_cat3(base, "• "@, spec_ps[i as int], "\n"@);
    }
    let ghost mid = out@;
    push_prod_bullets(out, ps, i + 1, cap, Ghost(spec_ps));
    proof {
        crate::strutil::lemma_cat2(
            base,
            "• "@ + spec_ps[i as int] + "\n"@,
            prod_bullets(spec_ps, i + 1, cap as int),
        );
    }
}

/// Appends one weakness bullet.
fn push_weakness_line(out: &mut String, w: &CveWeakness)
    ensures
        final(out)@ == old(out)@ + weakness_line(*w),
{
    let ghost base = out@;
    match find_en(&w.description, 0) {
        Some(d) => {
            out.append("• ");
            out.append(d.value.as_str());
            out.append("\n");
            proof {
                crate::strutil::lemma_cat3(
                    base,
                    "• "@,
                    w.description@[first_en_idx(w.description@, 0)].value@,
                    "\n"@,
                );
            }
        },
        None => {
            proof {
                crate::strutil::lemma_cat_empty(base);
            }
        },
    }
}

/// Lays one record out as its response title and body.
#[verifier::rlimit(100)]
pub fn format_cve_response(cve: &CveData, detailed: bool) -> (r: (String, String))
    ensures
        r.0@ == cve.id@,
        r.1@ == cve_response_spec(*cve, detailed),
{
    let mut description = String::new();
    match &cve.vuln_status {
        Some(status) => {
            description.append("**Status:** ");
            description.append(status.as_str());
            description.append("\n");
            proof {
                crate::strutil::lemma_cat3(Seq::<char>::empty(), "**Status:** "@, status@, "\n"@);
                crate::strutil::lemma_cat_empty(cve_status_part(*cve));
            }
        },
        None => {},
    }
    proof {
        crate::strutil::lemma_cat_empty(cve_status_part(*cve));
        assert(description@ == cve_status_part(*cve));
    }
    let ghost c1 = description@;
    match &cve.published {
        Some(published) => {
            match rfc3339_date_prefix(published.as_str()) {
                Some(date) => {
                    description.append("**Published:** ");
                    description.append(date.as_str());
                    description.append("\n");
                    proof {
                        crate::strutil::lemma_cat3(c1, "**Published:** "@, published@.take(10), "\n"@);
                    }
                },
                None => {
                    proof {
                        crate::strutil::lemma_cat_empty(c1);
                    }
                },
            }
        },
        None => {
            proof {
                crate::strutil::lemma_cat_empty(c1);
            }
        },
    }
    proof {
        assert(description@ == c1 + cve_published_part(*cve));
        crate::strutil::lemma_cat2(Seq::<char>::empty(), cve_status_part(*cve), cve_published_part(*cve));
    }
    let ghost c2 = description@;
    match &cve.metrics {
        Some(metrics) => {
            match get_best_cvss_score(metrics) {
                Some(score_info) => {
                    description.append("**CVSS Score:** ");
                    let s = score_string(score_info.0);
                    description.append(s.as_str());
                    description.append(" (");
                    description.append(score_info.1.as_str());
                    description.append(") - ");
                    description.append(score_info.2.as_str());
                    description.append("\n");
                    proof {
                        let t = best_cvss_spec(*metrics).unwrap();
                        assert(description@ == ((((((c2 + "**CVSS Score:** "@)
                            + score_string_spec(t.0)) + " ("@) + t.1) + ") - "@) + t.2) + "\n"@);
                        assert(description@ =~= c2 + ("**CVSS Score:** "@ + score_string_spec(t.0)
                            + " ("@ + t.1 + ") - "@ + t.2 + "\n"@));
                    }
                },
                None => {
                    proof {
                        crate::strutil::lemma_cat_empty(c2);
                    }
                },
            }
        },
        None => {
            proof {
                crate::strutil::lemma_cat_empty(c2);
            }
        },
    }
    proof {
        assert(description@ == c2 + cve_score_part(*cve));
        crate::strutil::lemma_cat2(
            Seq::<char>::empty(),
            cve_status_part(*cve) + cve_published_part(*cve),
            cve_score_part(*cve),
        );
    }
    let ghost c3 = description@;
    match find_en(&cve.descriptions, 0) {
        Some(desc) => {
            description.append("\n**Description:**\n");
            let dlen = desc.value.as_str().unicode_len();
            if dlen > 500 {
                description.append(desc.value.as_str().substring_char(0, 500));
                description.append("...");
            } else {
                description.append(desc.value.as_str());
            }
            description.append("\n");
            proof {
                let i = first_en_idx(cve.descriptions@, 0);
                assert(trunc500(cve.descriptions@[i].value@) == (if cve.descriptions@[i].value@.len() > 500 {
                    cve.descriptions@[i].value@.take(500) + "..."@
                } else {
                    cve.descriptions@[i].value@
                }));
                if dlen > 500 {
                    crate::strutil::lemma_cat2(
                        c3 + "\n**Description:**\n"@,
                        cve.descriptions@[i].value@.take(500),
                        "..."@,
                    );
                }
                crate::strutil::lemma_cat3(
                    c3,
                    "\n**Description:**\n"@,
                    trunc500(cve.descriptions@[i].value@),
                    "\n"@,
                );
            }
        },
        None => {
            proof {
                crate::strutil::lemma_cat_empty(c3);
            }
        },
    }
    proof {
        assert(description@ == c3 + cve_desc_part(*cve));
        crate::strutil::lemma_cat2(
            Seq::<char>::empty(),
            cve_status_part(*cve) + cve_published_part(*cve) + cve_score_part(*cve),
            cve_desc_part(*cve),
        );
        assert(description@ == cve_status_part(*cve) + cve_published_part(*cve) + cve_score_part(
            *cve,
        ) + cve_desc_part(*cve));
    }
    let ghost c4 = description@;
    if detailed {
        let ghost w0 = description@;
        if cve.weaknesses.len() > 0 {
            description.append("\n**Weaknesses:**\n");
            push_weakness_line(&mut description, &cve.weaknesses[0]);
            proof {
                crate::strutil::lemma_cat2(
                    w0,
                    "\n**Weaknesses:**\n"@,
                    weakness_line(cve.weaknesses@[0]),
                );
            }
            let ghost w1 = description@;
            if cve.weaknesses.len() > 1 {
                push_weakness_line(&mut description, &cve.weaknesses[1]);
            } else {
                proof {
                    crate::strutil::lemma_cat_empty(w1);
                }
            }
            proof {
                crate::strutil::lemma_cat2(
                    w0,
                    "\n**Weaknesses:**\n"@ + weakness_line(cve.weaknesses@[0]),
                    (if cve.weaknesses@.len() > 1 {
                        weakness_line(cve.weaknesses@[1])
                    } else {
                        Seq::<char>::empty()
                    }),
                );
            }
            let ghost w2 = description@;
            if cve.weaknesses.len() > 2 {
                push_weakness_line(&mut description, &cve.weaknesses[2]);
            } else {
                proof {
                    crate::strutil::lemma_cat_empty(w2);
                }
            }
            proof {
                crate::strutil::lemma_cat2(
                    w0,
                    "\n**Weaknesses:**\n"@ + weakness_line(cve.weaknesses@[0]) + (if
                    cve.weaknesses@.len() > 1 {
                        weakness_line(cve.weaknesses@[1])
                    } else {
                        Seq::<char>::empty()
                    }),
                    (if cve.weaknesses@.len() > 2 {
                        weakness_line(cve.weaknesses@[2])
                    } else {
                        Seq::<char>::empty()
                    }),
                );
            }
        } else {
            proof {
                crate::strutil::lemma_cat_empty(w0);
            }
        }
        proof {
            assert(description@ == c4 + cve_weaknesses_part(*cve));
        }
        let ghost p0 = description@;
        match &cve.configurations {
            Some(configs) => {
                description.append("\n**Affected Products:**\n");
                let products = configs_prods_exec(configs, 0);
                push_prod_bullets(
                    &mut description,
                    &products,
                    0,
                    5,
                    Ghost(configs_prods(configs@, 0)),
                );
                proof {
                    crate::strutil::lemma_cat2(
                        p0,
                        "\n**Affected Products:**\n"@,
                        prod_bullets(configs_prods(configs@, 0), 0, 5),
                    );
                }
                let ghost p1 = description@;
                if products.len() >= 5 {
                    description.append("• ... and more\n");
                } else {
                    proof {
                        crate::strutil::lemma_cat_empty(p1);
                    }
                }
                proof {
                    crate::strutil::lemma_cat2(
                        p0,
                        "\n**Affected Products:**\n"@ + prod_bullets(
                            configs_prods(configs@, 0),
                            0,
                            5,
                        ),
                        (if configs_prods(configs@, 0).len() >= 5 {
                            "• ... and more\n"@
                        } else {
                            Seq::<char>::empty()
                        }),
                    );
                }
            },
            None => {
                proof {
                    crate::strutil::lemma_cat_empty(p0);
                }
            },
        }
        proof {
            assert(description@ == (c4 + cve_weaknesses_part(*cve)) + cve_products_part(*cve));
            crate::strutil::lemma_cat2(c4, cve_weaknesses_part(*cve), cve_products_part(*cve));
            assert(description@ == c4 + (cve_weaknesses_part(*cve) + cve_products_part(*cve)));
        }
    } else {
        proof {
            crate::strutil::lemma_cat_empty(c4);
        }
    }
    proof {
        assert(description@ == c4 + (if detailed {
            cve_weaknesses_part(*cve) + cve_products_part(*cve)
        } else {
            Seq::<char>::empty()
        }));
    }
    let ghost c5 = description@;
    description.append("\n**NVD Link:** https://nvd.nist.gov/vuln/detail/");
    description.append(cve.id.as_str());
    proof {
        crate::strutil::lemma_cat2(
            c5,
            "\n**NVD Link:** https://nvd.nist.gov/vuln/detail/"@,
            cve.id@,
        );
    }
    let ghost c6 = description@;
    match find_advisory(&cve.references, 0) {
        Some(advisory) => {
            description.append("\n**Vendor Advisory:** ");
            description.append(advisory.url.as_str());
            proof {
                crate::strutil::lemma_cat2(
                    c6,
                    "\n**Vendor Advisory:** "@,
                    cve.references@[advisory_idx(cve.references@, 0)].url@,
                );
            }
        },
        None => {
            proof {
                crate::strutil::lemma_cat_empty(c6);
            }
        },
    }
    proof {
        assert(description@ == c6 + cve_advisory_part(*cve));
        crate::strutil::lemma_cat2(
            c5,
            "\n**NVD Link:** https://nvd.nist.gov/vuln/detail/"@ + cve.id@,
            cve_advisory_part(*cve),
        );
        crate::strutil::lemma_cat2(
            c5 + "\n**NVD Link:** https://nvd.nist.gov/vuln/detail/"@,
            cve.id@,
            cve_advisory_part(*cve),
        );
        assert(description@ =~= cve_response_spec(*cve, detailed));
    }
    (cve.id.clone(), description)
}

} // verus!
