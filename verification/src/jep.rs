//! Java Enhancement Proposal records: cleaning text that came out of the
//! proposal pages and laying a record out as a response.
//!
//! Walking the pages' markup is the network layer's business; what arrives
//! here is text, and everything done to it is proved.

use vstd::prelude::*;

use crate::strutil::{
    dec_spec, find_char, find_char_idx, is_digit_char, is_ws_char, push_decimal, replace_spec,
    replace_sub, trim, trim_spec, ws_prefix_len,
};

verus! {

/// Everything of a proposal's page that responses are built from.
#[derive(Debug, Clone)]
pub struct JepMetadata {
    pub title: String,
    pub author: Option<String>,
    pub owner: Option<String>,
    pub jep_type: Option<String>,
    pub scope: Option<String>,
    pub status: Option<String>,
    pub release: Option<String>,
    pub component: Option<String>,
    pub discussion: Option<String>,
    pub reviewed_by: Option<String>,
    pub endorsed_by: Option<String>,
    pub created: Option<String>,
    pub updated: Option<String>,
    pub issue: Option<String>,
    pub summary: Option<String>,
    pub goals: Option<Vec<String>>,
    pub non_goals: Option<Vec<String>>,
    pub motivation: Option<String>,
    pub description: Option<String>,
}

/// The entity rewrites `clean_html` makes, in order.
pub open spec fn entities_replaced(s: Seq<char>) -> Seq<char> {
    let s1 = replace_spec(s, "&amp;"@, "&"@);
    let s2 = replace_spec(s1, "&lt;"@, "<"@);
    let s3 = replace_spec(s2, "&gt;"@, ">"@);
    let s4 = replace_spec(s3, "&quot;"@, "\""@);
    let s5 = replace_spec(s4, "&#8201;"@, ""@);
    let s6 = replace_spec(s5, "&#8201;/&#8201;"@, "/"@);
    let s7 = replace_spec(s6, "&#8212;"@, "—"@);
    let s8 = replace_spec(s7, "&#160;"@, " "@);
    replace_spec(s8, "&nbsp;"@, " "@)
}

/// The string with every markup tag removed: from each `<` to the next
/// `>`, scanning left to right; a `<` with no closing `>` stays.
pub open spec fn tags_stripped(s: Seq<char>) -> Seq<char>
    decreases s.len(),
{
    let i = find_char_idx(s, '<');
    if i < 0 || i >= s.len() {
        s
    } else {
        let j = find_char_idx(s.skip(i), '>');
        if j < 0 || i + j + 1 > s.len() {
            s
        } else {
            s.take(i) + tags_stripped(s.skip(i + j + 1))
        }
    }
}

/// The string with every whitespace run collapsed to one blank.
pub open spec fn ws_collapsed(s: Seq<char>) -> Seq<char>
    decreases s.len(),
{
    if s.len() == 0 {
        Seq::<char>::empty()
    } else if is_ws_char(s[0]) {
        let k = ws_prefix_len(s);
        if 0 < k <= s.len() {
            " "@ + ws_collapsed(s.skip(k))
        } else {
            s
        }
    } else {
        seq![s[0]] + ws_collapsed(s.drop_first())
    }
}

/// What `clean_html` leaves of raw markup: entities resolved, tags
/// stripped, whitespace collapsed, the ends trimmed.
pub open spec fn clean_html_spec(s: Seq<char>) -> Seq<char> {
    trim_spec(ws_collapsed(tags_stripped(entities_replaced(s))))
}

/// Strips tags: from each `<` to the next `>`.
fn strip_tags(s: &str) -> (r: String)
    ensures
        r@ == tags_stripped(s@),
    decreases s@.len(),
{
    let len = s.unicode_len();
    match find_char(s, '<') {
        None => s.to_owned(),
        Some(i) => {
            let after = s.substring_char(i, len);
            proof {
                assert(after@ == s@.skip(i as int));
            }
            match find_char(after, '>') {
                None => s.to_owned(),
                Some(j) => {
                    let head = s.substring_char(0, i);
                    let tail = s.substring_char(i + j + 1, len);
                    let rest = strip_tags(tail);
                    let mut out = head.to_owned();
                    out.append(rest.as_str());
                    proof {
                        assert(tail@ == s@.skip(i + j + 1));
                        assert(out@ == tags_stripped(s@));
                    }
                    out
                },
            }
        },
    }
}

/// Collapses every whitespace run to one blank.
fn collapse_ws(s: &str) -> (r: String)
    ensures
        r@ == ws_collapsed(s@),
    decreases s@.len(),
{
    let len = s.unicode_len();
    if len == 0 {
        return String::new();
    }
    let c = s.get_char(0);
    if c == ' ' || c == '\t' || c == '\n' || c == '\r' {
        let mut k: usize = 0;
        while k < len && crate::strutil::ws_at(s, k)
            invariant
                len == s@.len(),
                k <= len,
                forall|j: int| 0 <= j < k ==> is_ws_char(s@[j]),
            decreases len - k,
        {
            k += 1;
        }
        proof {
            crate::strutil::lemma_ws_prefix_at(s@, k as int);
        }
        let tail = s.substring_char(k, len);
        let rest = collapse_ws(tail);
        let mut out = (" ").to_owned();
        out.append(rest.as_str());
        proof {
            assert(tail@ == s@.skip(k as int));
            assert(out@ == ws_collapsed(s@));
        }
        out
    } else {
        let tail = s.substring_char(1, len);
        let rest = collapse_ws(tail);
        let mut out = String::new();
        crate::strutil::push_char(&mut out, c);
        out.append(rest.as_str());
        proof {
            assert(tail@ == s@.drop_first());
            assert(out@ =~= seq![s@[0]] + ws_collapsed(s@.drop_first()));
        }
        out
    }
}

/// Cleans text that came out of page markup: entities resolved, tags
/// stripped, whitespace collapsed and trimmed.
pub fn clean_html(html: &str) -> (r: String)
    ensures
        r@ == clean_html_spec(html@),
{
    proof {
        reveal_strlit("&amp;");
        reveal_strlit("&lt;");
        reveal_strlit("&gt;");
        reveal_strlit("&quot;");
        reveal_strlit("&#8201;");
        reveal_strlit("&#8201;/&#8201;");
        reveal_strlit("&#8212;");
        reveal_strlit("&#160;");
        reveal_strlit("&nbsp;");
    }
    let s1 = replace_sub(html, "&amp;", "&");
    let s2 = replace_sub(s1.as_str(), "&lt;", "<");
    let s3 = replace_sub(s2.as_str(), "&gt;", ">");
    let s4 = replace_sub(s3.as_str(), "&quot;", "\"");
    let s5 = replace_sub(s4.as_str(), "&#8201;", "");
    let s6 = replace_sub(s5.as_str(), "&#8201;/&#8201;", "/");
    let s7 = replace_sub(s6.as_str(), "&#8212;", "—");
    let s8 = replace_sub(s7.as_str(), "&#160;", " ");
    let s9 = replace_sub(s8.as_str(), "&nbsp;", " ");
    let stripped = strip_tags(s9.as_str());
    let collapsed = collapse_ws(stripped.as_str());
    let trimmed = trim(collapsed.as_str());
    trimmed.to_owned()
}

/// Where a `JDK-` issue key with at least one digit first occurs.
pub open spec fn find_jdk_idx(s: Seq<char>) -> int
    decreases s.len(),
{
    if s.len() < 5 {
        -1
    } else if s.take(4) == "JDK-"@ && is_digit_char(s[4]) {
        0
    } else {
        let r = find_jdk_idx(s.drop_first());
        if r < 0 {
            -1
        } else {
            1 + r
        }
    }
}

/// How many digits open the string.
pub open spec fn digit_prefix_len(s: Seq<char>) -> int
    decreases s.len(),
{
    if s.len() > 0 && is_digit_char(s[0]) {
        1 + digit_prefix_len(s.drop_first())
    } else {
        0
    }
}

/// What `extract_issue_number` reads: the first `JDK-` key with its run of
/// digits, or the cleaned markup where there is none.
pub open spec fn issue_number_spec(s: Seq<char>) -> Seq<char> {
    let i = find_jdk_idx(s);
    if i < 0 {
        clean_html_spec(s)
    } else {
        s.subrange(i, i + 4 + digit_prefix_len(s.skip(i + 4)))
    }
}

proof fn lemma_find_jdk_at(s: Seq<char>, k: int)
    requires
        0 <= k,
        k + 5 <= s.len() || k == s.len() - 4 || (s.len() < 5 && k == 0),
        forall|j: int| #![trigger s.subrange(j, j + 4)]
            0 <= j < k ==> !(j + 5 <= s.len() && s.subrange(j, j + 4) == "JDK-"@ && is_digit_char(
                s[j + 4],
            )),
        k + 5 <= s.len() ==> s.subrange(k, k + 4) == "JDK-"@ && is_digit_char(s[k + 4]),
    ensures
        k + 5 <= s.len() ==> find_jdk_idx(s) == k,
        k + 5 > s.len() ==> find_jdk_idx(s) == -1,
    decreases s.len(),
{
    if s.len() >= 5 {
        assert(s.subrange(0int, 0int + 4) =~= s.take(4));
        if k == 0 && k + 5 <= s.len() {
        } else {
            assert(!(0int + 5 <= s.len() && s.subrange(0int, 0int + 4) == "JDK-"@
                && is_digit_char(s[0int + 4])));
            assert(!(s.take(4) == "JDK-"@ && is_digit_char(s[4])));
            let t = s.drop_first();
            assert forall|j: int| #![trigger t.subrange(j, j + 4)]
                0 <= j < k - 1 implies !(j + 5 <= t.len() && t.subrange(j, j + 4) == "JDK-"@
                && is_digit_char(t[j + 4])) by {
                assert(t.subrange(j, j + 4) =~= s.subrange(j + 1, j + 1 + 4));
                if j + 5 <= t.len() {
                    assert(!(j + 1 + 5 <= s.len() && s.subrange(j + 1, j + 1 + 4) == "JDK-"@
                        && is_digit_char(s[j + 1 + 4])));
                }
            }
            if k > 0 {
                if k + 5 <= s.len() {
                    assert(t.subrange(k - 1, k - 1 + 4) =~= s.subrange(k, k + 4));
                }
                lemma_find_jdk_at(t, k - 1);
            } else {
                lemma_find_jdk_at(t, 0);
            }
        }
    }
}

pub proof fn lemma_digit_prefix_at(s: Seq<char>, k: int)
    requires
        0 <= k <= s.len(),
        forall|j: int| 0 <= j < k ==> is_digit_char(s[j]),
        k < s.len() ==> !is_digit_char(s[k]),
    ensures
        digit_prefix_len(s) == k,
    decreases s.len(),
{
    if k > 0 {
        assert(is_digit_char(s[0]));
        assert forall|j: int| 0 <= j < k - 1 implies is_digit_char(s.drop_first()[j]) by {
            assert(is_digit_char(s[j + 1]));
        }
        lemma_digit_prefix_at(s.drop_first(), k - 1);
    }
}

/// Pulls the `JDK-` issue key out of raw markup, or cleans the markup when
/// no key is there.
pub fn extract_issue_number(html: &str) -> (r: String)
    ensures
        r@ == issue_number_spec(html@),
{
    let len = html.unicode_len();
    let mut i: usize = 0;
    while len >= 5 && i <= len - 5
        invariant
            len == html@.len(),
            i <= len,
            len < 5 ==> i == 0,
            len >= 5 ==> i <= len - 4,
            forall|j: int| #![trigger html@.subrange(j, j + 4)]
                0 <= j < i ==> !(j + 5 <= html@.len() && html@.subrange(j, j + 4) == "JDK-"@
                    && is_digit_char(html@[j + 4])),
        decreases len - i,
    {
        let c0 = html.get_char(i);
        let c1 = html.get_char(i + 1);
        let c2 = html.get_char(i + 2);
        let c3 = html.get_char(i + 3);
        let c4u = html.get_char(i + 4) as u32;
        if c0 == 'J' && c1 == 'D' && c2 == 'K' && c3 == '-' && 48 <= c4u && c4u <= 57 {
            proof {
                reveal_strlit("JDK-");
                assert(html@.subrange(i as int, i as int + 4) =~= "JDK-"@);
                lemma_find_jdk_at(html@, i as int);
            }
            let mut e: usize = i + 4;
            while e < len && crate::strutil::digit_at(html, e)
                invariant
                    len == html@.len(),
                    i + 4 <= e <= len,
                    forall|j: int| i + 4 <= j < e ==> is_digit_char(html@[j]),
                decreases len - e,
            {
                e += 1;
            }
            proof {
                let t = html@.skip(i + 4);
                assert forall|j: int| 0 <= j < e - (i + 4) implies is_digit_char(t[j]) by {
                    assert(t[j] == html@[j + i + 4]);
                }
                if e < len {
                    assert(t[e - (i + 4)] == html@[e as int]);
                }
                lemma_digit_prefix_at(t, e - (i + 4));
            }
            let key = html.substring_char(i, e);
            proof {
                assert(key@ =~= issue_number_spec(html@));
            }
            return key.to_owned();
        }
        proof {
            reveal_strlit("JDK-");
            assert forall|j: int| #![trigger html@.subrange(j, j + 4)]
                0 <= j < i + 1 implies !(j + 5 <= html@.len() && html@.subrange(j, j + 4)
                == "JDK-"@ && is_digit_char(html@[j + 4])) by {
                if j == i && j + 5 <= html@.len() && html@.subrange(j, j + 4) == "JDK-"@ {
                    assert(html@[i as int] == html@.subrange(j, j + 4)[0]);
                    assert(html@[i as int + 1] == html@.subrange(j, j + 4)[1]);
                    assert(html@[i as int + 2] == html@.subrange(j, j + 4)[2]);
                    assert(html@[i as int + 3] == html@.subrange(j, j + 4)[3]);
                }
            }
        }
        i += 1;
    }
    proof {
        reveal_strlit("JDK-");
        lemma_find_jdk_at(html@, if len >= 5 { len - 4 } else { 0 });
    }
    clean_html(html)
}

/// A text cut to 300 characters with an ellipsis, where it runs longer.
pub open spec fn trunc300(s: Seq<char>) -> Seq<char> {
    if s.len() > 300 {
        s.take(300) + "..."@
    } else {
        s
    }
}

/// The first three entries as bullet lines.
pub open spec fn bullets3(items: Seq<Seq<char>>) -> Seq<char> {
    (if items.len() > 0 {
        "• "@ + items[0] + "\n"@
    } else {
        Seq::<char>::empty()
    }) + (if items.len() > 1 {
        "• "@ + items[1] + "\n"@
    } else {
        Seq::<char>::empty()
    }) + (if items.len() > 2 {
        "• "@ + items[2] + "\n"@
    } else {
        Seq::<char>::empty()
    })
}

/// The views of a list of strings.
pub open spec fn views_of(items: Seq<String>) -> Seq<Seq<char>> {
    items.map_values(|s: String| s@)
}

/// The opening status/release/type line of a proposal response.
pub open spec fn jep_meta_line(jep: JepMetadata) -> Seq<char> {
    (match jep.status {
        Option::Some(s) => "**Status:** "@ + s@ + " "@,
        Option::None => Seq::<char>::empty(),
    }) + (match jep.release {
        Option::Some(s) => "**Release:** "@ + s@ + " "@,
        Option::None => Seq::<char>::empty(),
    }) + (match jep.jep_type {
        Option::Some(s) => "**Type:** "@ + s@,
        Option::None => Seq::<char>::empty(),
    })
}

/// The goals section of a detailed response.
pub open spec fn goals_part(jep: JepMetadata) -> Seq<char> {
    match jep.goals {
        Option::Some(goals) => "\n**Goals**\n"@ + bullets3(views_of(goals@)) + (if goals@.len()
            > 3 {
            "• ... and "@ + dec_spec(goals@.len() - 3) + " more goals\n"@
        } else {
            Seq::<char>::empty()
        }),
        Option::None => Seq::<char>::empty(),
    }
}

/// The non-goals section of a detailed response.
pub open spec fn non_goals_part(jep: JepMetadata) -> Seq<char> {
    match jep.non_goals {
        Option::Some(goals) => "\n**Non-Goals**\n"@ + bullets3(views_of(goals@)) + (if
        goals@.len() > 3 {
            "• ... and "@ + dec_spec(goals@.len() - 3) + " more non-goals\n"@
        } else {
            Seq::<char>::empty()
        }),
        Option::None => Seq::<char>::empty(),
    }
}

/// The motivation section of a detailed response.
pub open spec fn motivation_part(jep: JepMetadata) -> Seq<char> {
    match jep.motivation {
        Option::Some(s) => "\n**Motivation**\n"@ + trunc300(s@) + "\n"@,
        Option::None => Seq::<char>::empty(),
    }
}

/// The implementation section of a detailed response.
pub open spec fn impl_part(jep: JepMetadata) -> Seq<char> {
    match jep.description {
        Option::Some(s) => "\n**Implementation**\n"@ + trunc300(s@) + "\n"@,
        Option::None => Seq::<char>::empty(),
    }
}

/// The component line of a detailed response.
pub open spec fn component_part(jep: JepMetadata) -> Seq<char> {
    match jep.component {
        Option::Some(s) => "\n**Component:** "@ + s@ + "\n"@,
        Option::None => Seq::<char>::empty(),
    }
}

/// The sign-off line of a detailed response.
pub open spec fn reviewed_part(jep: JepMetadata) -> Seq<char> {
    match jep.reviewed_by {
        Option::Some(s) => "**Reviewed by:** "@ + s@ + "\n"@,
        Option::None => Seq::<char>::empty(),
    }
}

/// The endorser line of a detailed response.
pub open spec fn endorsed_part(jep: JepMetadata) -> Seq<char> {
    match jep.endorsed_by {
        Option::Some(s) => "**Endorsed by:** "@ + s@ + "\n"@,
        Option::None => Seq::<char>::empty(),
    }
}

/// The closing attribution lines of a detailed response.
pub open spec fn attribution_part(jep: JepMetadata) -> Seq<char> {
    component_part(jep) + reviewed_part(jep) + endorsed_part(jep)
}

/// The detailed middle part of a proposal response.
pub open spec fn jep_details(jep: JepMetadata) -> Seq<char> {
    goals_part(jep) + non_goals_part(jep) + motivation_part(jep) + impl_part(jep)
        + attribution_part(jep)
}

/// The metadata line with its spacing, where it is not empty.
pub open spec fn meta_part(jep: JepMetadata) -> Seq<char> {
    if jep_meta_line(jep).len() > 0 {
        jep_meta_line(jep) + "\n\n"@
    } else {
        Seq::<char>::empty()
    }
}

/// The author line, where one is known.
pub open spec fn author_part(jep: JepMetadata) -> Seq<char> {
    match jep.author {
        Option::Some(s) => "**Author:** "@ + s@ + "\n"@,
        Option::None => Seq::<char>::empty(),
    }
}

/// The owner line, where one is known.
pub open spec fn owner_part(jep: JepMetadata) -> Seq<char> {
    match jep.owner {
        Option::Some(s) => "**Owner:** "@ + s@ + "\n"@,
        Option::None => Seq::<char>::empty(),
    }
}

/// The summary section, where one is known.
pub open spec fn summary_part(jep: JepMetadata) -> Seq<char> {
    match jep.summary {
        Option::Some(s) => "\n**Summary**\n"@ + s@ + "\n"@,
        Option::None => Seq::<char>::empty(),
    }
}

/// The issue line, where one is known.
pub open spec fn issue_part(jep: JepMetadata) -> Seq<char> {
    match jep.issue {
        Option::Some(s) => "\n**Issue:** "@ + s@ + "\n"@,
        Option::None => Seq::<char>::empty(),
    }
}

/// The creation-date line, where one is known.
pub open spec fn created_part(jep: JepMetadata) -> Seq<char> {
    match jep.created {
        Option::Some(s) => "**Created:** "@ + s@ + "\n"@,
        Option::None => Seq::<char>::empty(),
    }
}

/// The opening part of a proposal response: the metadata line and the
/// attribution and summary lines.
pub open spec fn jep_head(jep: JepMetadata) -> Seq<char> {
    meta_part(jep) + author_part(jep) + owner_part(jep) + summary_part(jep)
}

/// The closing part of a proposal response: issue, creation date and link.
pub open spec fn jep_tail(jep: JepMetadata, number: u16) -> Seq<char> {
    issue_part(jep) + created_part(jep) + "\n**Link:** https://openjdk.org/jeps/"@ + dec_spec(
        number as int,
    )
}

/// The whole proposal response body.
pub open spec fn jep_description_spec(jep: JepMetadata, number: u16, detailed: bool) -> Seq<
    char,
> {
    jep_head(jep) + (if detailed {
        jep_details(jep)
    } else {
        Seq::<char>::empty()
    }) + jep_tail(jep, number)
}

/// Appends a text cut to 300 characters.
fn push_trunc300(out: &mut String, s: &str)
    ensures
        final(out)@ == old(out)@ + trunc300(s@),
{
    let len = s.unicode_len();
    if len > 300 {
        let cut = s.substring_char(0, 300);
        out.append(cut);
        out.append("...");
        proof {
            assert(out@ =~= old(out)@ + trunc300(s@));
        }
    } else {
        out.append(s);
    }
}

/// Appends the first three entries as bullet lines, and a count of the
/// rest.
fn push_bullets(out: &mut String, items: &Vec<String>, tail_word: &str)
    ensures
        final(out)@ == old(out)@ + bullets3(views_of(items@)) + (if items@.len() > 3 {
            "• ... and "@ + dec_spec(items@.len() - 3) + tail_word@
        } else {
            Seq::<char>::empty()
        }),
{
    if items.len() > 0 {
        out.append("• ");
        out.append(items[0].as_str());
        out.append("\n");
    }
    if items.len() > 1 {
        out.append("• ");
        out.append(items[1].as_str());
        out.append("\n");
    }
    if items.len() > 2 {
        out.append("• ");
        out.append(items[2].as_str());
        out.append("\n");
    }
    if items.len() > 3 {
        out.append("• ... and ");
        push_decimal(out, (items.len() - 3) as u64);
        out.append(tail_word);
    }
    proof {
        assert(views_of(items@).len() == items@.len());
        if items@.len() > 0 {
            assert(views_of(items@)[0] == items@[0]@);
        }
        if items@.len() > 1 {
            assert(views_of(items@)[1] == items@[1]@);
        }
        if items@.len() > 2 {
            assert(views_of(items@)[2] == items@[2]@);
        }
        assert(out@ =~= old(out)@ + bullets3(views_of(items@)) + (if items@.len() > 3 {
            "• ... and "@ + dec_spec(items@.len() - 3) + tail_word@
        } else {
            Seq::<char>::empty()
        }));
    }
}

/// Appends the opening part of the response.
fn push_jep_head(description: &mut String, jep: &JepMetadata)
    ensures
        final(description)@ == old(description)@ + jep_head(*jep),
{
    let ghost base = description@;
    let mut meta = String::new();
    let ghost m0 = meta@;
    match &jep.status {
        Some(s) => {
            meta.append("**Status:** ");
            meta.append(s.as_str());
            meta.append(" ");
            proof {
                crate::strutil::lemma_cat3(m0, "**Status:** "@, s@, " "@);
            }
        },
        None => {
            proof {
                crate::strutil::lemma_cat_empty(m0);
            }
        },
    }
    let ghost m1 = meta@;
    match &jep.release {
        Some(s) => {
            meta.append("**Release:** ");
            meta.append(s.as_str());
            meta.append(" ");
            proof {
                crate::strutil::lemma_cat3(m1, "**Release:** "@, s@, " "@);
            }
        },
        None => {
            proof {
                crate::strutil::lemma_cat_empty(m1);
            }
        },
    }
    let ghost m2 = meta@;
    match &jep.jep_type {
        Some(s) => {
            meta.append("**Type:** ");
            meta.append(s.as_str());
            proof {
                crate::strutil::lemma_cat2(m2, "**Type:** "@, s@);
            }
        },
        None => {
            proof {
                crate::strutil::lemma_cat_empty(m2);
            }
        },
    }
    proof {
        crate::strutil::lemma_cat_empty(jep_meta_line(*jep));
        assert(meta@ == jep_meta_line(*jep));
    }
    if meta.as_str().unicode_len() > 0 {
        description.append(meta.as_str());
        description.append("\n\n");
        proof {
            crate::strutil::lemma_cat2(base, jep_meta_line(*jep), "\n\n"@);
        }
    } else {
        proof {
            crate::strutil::lemma_cat_empty(base);
        }
    }
    proof {
        assert(description@ == base + meta_part(*jep));
    }
    let ghost h1 = description@;
    match &jep.author {
        Some(s) => {
            description.append("**Author:** ");
            description.append(s.as_str());
            description.append("\n");
            proof {
                crate::strutil::lemma_cat3(h1, "**Author:** "@, s@, "\n"@);
            }
        },
        None => {
            proof {
                crate::strutil::lemma_cat_empty(h1);
            }
        },
    }
    proof {
        assert(description@ == h1 + author_part(*jep));
        crate::strutil::lemma_cat2(base, meta_part(*jep), author_part(*jep));
    }
    let ghost h2 = description@;
    match &jep.owner {
        Some(s) => {
            description.append("**Owner:** ");
            description.append(s.as_str());
            description.append("\n");
            proof {
                crate::strutil::lemma_cat3(h2, "**Owner:** "@, s@, "\n"@);
            }
        },
        None => {
            proof {
                crate::strutil::lemma_cat_empty(h2);
            }
        },
    }
    proof {
        assert(description@ == h2 + owner_part(*jep));
        crate::strutil::lemma_cat2(base, meta_part(*jep) + author_part(*jep), owner_part(*jep));
    }
    let ghost h3 = description@;
    match &jep.summary {
        Some(s) => {
            description.append("\n**Summary**\n");
            description.append(s.as_str());
            description.append("\n");
            proof {
                crate::strutil::lemma_cat3(h3, "\n**Summary**\n"@, s@, "\n"@);
            }
        },
        None => {
            proof {
                crate::strutil::lemma_cat_empty(h3);
            }
        },
    }
    proof {
        assert(description@ == h3 + summary_part(*jep));
        crate::strutil::lemma_cat2(
            base,
            meta_part(*jep) + author_part(*jep) + owner_part(*jep),
            summary_part(*jep),
        );
        assert(description@ == base + jep_head(*jep));
    }
}

/// Appends the detailed middle part of the response.
fn push_jep_details(description: &mut String, jep: &JepMetadata)
    ensures
        final(description)@ == old(description)@ + jep_details(*jep),
{
    let ghost base = description@;
    match &jep.goals {
        Some(goals) => {
            description.append("\n**Goals**\n");
            push_bullets(description, goals, " more goals\n");
            proof {
                crate::strutil::lemma_cat3(
                    base,
                    "\n**Goals**\n"@,
                    bullets3(views_of(goals@)),
                    if goals@.len() > 3 {
                        "• ... and "@ + dec_spec(goals@.len() - 3) + " more goals\n"@
                    } else {
                        Seq::<char>::empty()
                    },
                );
            }
        },
        None => {
            proof {
                crate::strutil::lemma_cat_empty(base);
            }
        },
    }
    proof {
        assert(description@ == base + goals_part(*jep));
    }
    let ghost d1 = description@;
    match &jep.non_goals {
        Some(goals) => {
            description.append("\n**Non-Goals**\n");
            push_bullets(description, goals, " more non-goals\n");
            proof {
                crate::strutil::lemma_cat3(
                    d1,
                    "\n**Non-Goals**\n"@,
                    bullets3(views_of(goals@)),
                    if goals@.len() > 3 {
                        "• ... and "@ + dec_spec(goals@.len() - 3) + " more non-goals\n"@
                    } else {
                        Seq::<char>::empty()
                    },
                );
            }
        },
        None => {
            proof {
                crate::strutil::lemma_cat_empty(d1);
            }
        },
    }
    proof {
        assert(description@ == d1 + non_goals_part(*jep));
        crate::strutil::lemma_cat2(base, goals_part(*jep), non_goals_part(*jep));
    }
    let ghost d2 = description@;
    match &jep.motivation {
        Some(s) => {
            description.append("\n**Motivation**\n");
            push_trunc300(description, s.as_str());
            description.append("\n");
            proof {
                crate::strutil::lemma_cat3(d2, "\n**Motivation**\n"@, trunc300(s@), "\n"@);
            }
        },
        None => {
            proof {
                crate::strutil::lemma_cat_empty(d2);
            }
        },
    }
    proof {
        assert(description@ == d2 + motivation_part(*jep));
        crate::strutil::lemma_cat2(
            base,
            goals_part(*jep) + non_goals_part(*jep),
            motivation_part(*jep),
        );
    }
    let ghost d3 = description@;
    match &jep.description {
        Some(s) => {
            description.append("\n**Implementation**\n");
            push_trunc300(description, s.as_str());
            description.append("\n");
            proof {
                crate::strutil::lemma_cat3(d3, "\n**Implementation**\n"@, trunc300(s@), "\n"@);
            }
        },
        None => {
            proof {
                crate::strutil::lemma_cat_empty(d3);
            }
        },
    }
    proof {
        assert(description@ == d3 + impl_part(*jep));
        crate::strutil::lemma_cat2(
            base,
            goals_part(*jep) + non_goals_part(*jep) + motivation_part(*jep),
            impl_part(*jep),
        );
    }
    let ghost d4 = description@;
    match &jep.component {
        Some(s) => {
            description.append("\n**Component:** ");
            description.append(s.as_str());
            description.append("\n");
            proof {
                crate::strutil::lemma_cat3(d4, "\n**Component:** "@, s@, "\n"@);
            }
        },
        None => {
            proof {
                crate::strutil::lemma_cat_empty(d4);
            }
        },
    }
    proof {
        assert(description@ == d4 + component_part(*jep));
    }
    let ghost d5 = description@;
    match &jep.reviewed_by {
        Some(s) => {
            description.append("**Reviewed by:** ");
            description.append(s.as_str());
            description.append("\n");
            proof {
                crate::strutil::lemma_cat3(d5, "**Reviewed by:** "@, s@, "\n"@);
            }
        },
        None => {
            proof {
                crate::strutil::lemma_cat_empty(d5);
            }
        },
    }
    proof {
        assert(description@ == d5 + reviewed_part(*jep));
        crate::strutil::lemma_cat2(d4, component_part(*jep), reviewed_part(*jep));
    }
    let ghost d6 = description@;
    match &jep.endorsed_by {
        Some(s) => {
            description.append("**Endorsed by:** ");
            description.append(s.as_str());
            description.append("\n");
            proof {
                crate::strutil::lemma_cat3(d6, "**Endorsed by:** "@, s@, "\n"@);
            }
        },
        None => {
            proof {
                crate::strutil::lemma_cat_empty(d6);
            }
        },
    }
    proof {
        assert(description@ == d6 + endorsed_part(*jep));
        crate::strutil::lemma_cat2(d4, component_part(*jep) + reviewed_part(*jep), endorsed_part(*jep));
        assert(description@ == d4 + attribution_part(*jep));
        crate::strutil::lemma_cat2(
            base,
            goals_part(*jep) + non_goals_part(*jep) + motivation_part(*jep) + impl_part(*jep),
            attribution_part(*jep),
        );
        assert(description@ == base + jep_details(*jep));
    }
}

/// Lays one proposal's record out as the response body.
pub fn format_jep_description(jep: &JepMetadata, number: u16, detailed: bool) -> (r: String)
    ensures
        r@ == jep_description_spec(*jep, number, detailed),
{
    let mut description = String::new();
    push_jep_head(&mut description, jep);
    proof {
        crate::strutil::lemma_cat_empty(jep_head(*jep));
        assert(description@ == jep_head(*jep));
    }
    if detailed {
        push_jep_details(&mut description, jep);
    } else {
        proof {
            crate::strutil::lemma_cat_empty(jep_head(*jep));
        }
    }
    proof {
        assert(description@ == jep_head(*jep) + (if detailed {
            jep_details(*jep)
        } else {
            Seq::<char>::empty()
        }));
    }
    let ghost mid = description@;
    match &jep.issue {
        Some(s) => {
            description.append("\n**Issue:** ");
            description.append(s.as_str());
            description.append("\n");
            proof {
                crate::strutil::lemma_cat3(mid, "\n**Issue:** "@, s@, "\n"@);
            }
        },
        None => {
            proof {
                crate::strutil::lemma_cat_empty(mid);
            }
        },
    }
    proof {
        assert(description@ == mid + issue_part(*jep));
    }
    let ghost t1 = description@;
    match &jep.created {
        Some(s) => {
            description.append("**Created:** ");
            description.append(s.as_str());
            description.append("\n");
            proof {
                crate::strutil::lemma_cat3(t1, "**Created:** "@, s@, "\n"@);
            }
        },
        None => {
            proof {
                crate::strutil::lemma_cat_empty(t1);
            }
        },
    }
    proof {
        assert(description@ == t1 + created_part(*jep));
        crate::strutil::lemma_cat2(mid, issue_part(*jep), created_part(*jep));
    }
    description.append("\n**Link:** https://openjdk.org/jeps/");
    push_decimal(&mut description, number as u64);
    proof {
        crate::strutil::lemma_cat3(
            mid,
            issue_part(*jep) + created_part(*jep),
            "\n**Link:** https://openjdk.org/jeps/"@,
            dec_spec(number as int),
        );
        assert(description@ == mid + jep_tail(*jep, number));
        assert(description@ == jep_description_spec(*jep, number, detailed));
    }
    description
}

/// The response title of a proposal: its number and name, the name cut to
/// 180 characters where it runs past 200.
pub open spec fn jep_title_spec(number: u16, title: Seq<char>) -> Seq<char> {
    if title.len() > 200 {
        "JEP "@ + dec_spec(number as int) + ": "@ + title.take(180) + "..."@
    } else {
        "JEP "@ + dec_spec(number as int) + ": "@ + title
    }
}

/// Builds a proposal's response title.
pub fn jep_title(number: u16, title: &str) -> (r: String)
    ensures
        r@ == jep_title_spec(number, title@),
{
    let mut out = ("JEP ").to_owned();
    push_decimal(&mut out, number as u64);
    out.append(": ");
    let len = title.unicode_len();
    if len > 200 {
        out.append(title.substring_char(0, 180));
        out.append("...");
    } else {
        out.append(title);
    }
    proof {
        assert(out@ =~= jep_title_spec(number, title@));
    }
    out
}

/// A response body cut to the platform's limit, where it runs past 4000
/// characters, with a pointer at the full record.
pub open spec fn jep_final_spec(desc: Seq<char>, number: u16) -> Seq<char> {
    if desc.len() > 4000 {
        desc.take(3900)
            + "...\n\n*Output truncated. Use `/jep "@ + dec_spec(number as int)
            + " detailed:true` for full details or visit the link below.*"@
    } else {
        desc
    }
}

/// Cuts a response body to the platform's limit.
pub fn jep_final_description(description: String, number: u16) -> (r: String)
    ensures
        r@ == jep_final_spec(description@, number),
{
    let len = description.as_str().unicode_len();
    if len > 4000 {
        let mut out = description.as_str().substring_char(0, 3900).to_owned();
        out.append("...\n\n*Output truncated. Use `/jep ");
        push_decimal(&mut out, number as u64);
        out.append(" detailed:true` for full details or visit the link below.*");
        proof {
            assert(out@ =~= jep_final_spec(description@, number));
        }
        out
    } else {
        description
    }
}

} // verus!
