//! Reference lookups and text shaping: instructions, proposals, accounts,
//! times and identifiers.

use arisa::github::{
    format_repository_info, format_user_info, parse_github_input, GitHubRepo, GitHubUser,
};
use arisa::help::get_command_description;
use arisa::jep::{
    clean_html, extract_issue_number, format_jep_description, jep_final_description, jep_title,
    JepMetadata,
};
use arisa::opcode::{extract_opcode_number, find_instruction, opcode_lookup, JvmInstruction};
use arisa::quotes::{get_random_interval_minutes, get_random_quote};
use arisa::strutil::{str_eq, trim, u64_to_string};
use arisa::timefmt::{format_relative_time, now_body, timestamp_body, DateStrings};
use arisa::uuid_gen::{
    analyze_uuid_v1, analyze_uuid_v4, analyze_uuid_v7, format_uuid_hyphenated,
    format_uuid_simple, v7_timestamp_millis, UuidVersion,
};

#[test]
fn github_input_forms() {
    assert_eq!(parse_github_input("torvalds"), ("torvalds".to_string(), None));
    assert_eq!(
        parse_github_input("rust-lang/rust"),
        ("rust-lang".to_string(), Some("rust".to_string()))
    );
    assert_eq!(
        parse_github_input("https://github.com/rust-lang/rust/"),
        ("rust-lang".to_string(), Some("rust".to_string()))
    );
    assert_eq!(
        parse_github_input("github.com/torvalds"),
        ("torvalds".to_string(), None)
    );
    assert_eq!(parse_github_input("a/b/c"), ("a".to_string(), None));
}

#[test]
fn user_response_rendering() {
    let user = GitHubUser {
        login: "octocat".to_string(),
        name: Some("The Octocat".to_string()),
        bio: None,
        company: None,
        location: Some("San Francisco".to_string()),
        email: None,
        blog: Some(String::new()),
        public_repos: 8,
        public_gists: 8,
        followers: 9999,
        following: 9,
        created_at: "2011-01-25T18:44:36Z".to_string(),
        avatar_url: "https://example.invalid/a.png".to_string(),
    };
    let (title, body, avatar) = format_user_info(&user);
    assert_eq!(title, "GitHub User: octocat");
    assert_eq!(avatar, "https://example.invalid/a.png");
    assert_eq!(
        body,
        "**Name:** The Octocat\n**Username:** octocat\n**Public Repos:** 8\n**Followers:** 9999 | **Following:** 9\n**Public Gists:** 8\n**Location:** San Francisco\n**Joined:** January 25, 2011\n**Profile:** https://github.com/octocat"
    );
}

#[test]
fn repository_response_rendering() {
    let repo = GitHubRepo {
        name: "rust".to_string(),
        full_name: "rust-lang/rust".to_string(),
        description: Some("A language".to_string()),
        language: Some("Rust".to_string()),
        stargazers_count: 100,
        forks_count: 20,
        watchers_count: 100,
        size: 5000,
        created_at: "2010-06-16T20:39:03Z".to_string(),
        updated_at: "bad".to_string(),
        clone_url: "https://github.com/rust-lang/rust.git".to_string(),
        html_url: "https://github.com/rust-lang/rust".to_string(),
        is_private: false,
        fork: false,
        archived: true,
        disabled: false,
        license: None,
        topics: vec!["language".to_string(), "compiler".to_string()],
        default_branch: "master".to_string(),
        open_issues_count: 7,
    };
    let (title, body) = format_repository_info("rust-lang", &repo);
    assert_eq!(title, "Repository: rust-lang/rust");
    assert_eq!(
        body,
        "**Description:** A language\n\n**Owner:** rust-lang\n**Stars:** 100 | **Forks:** 20 | **Watchers:** 100\n**Open Issues:** 7\n**Size:** 5000 KB\n**Language:** Rust\n**Default Branch:** master\n**Topics:** language, compiler\n**Status:** Archived\n**Created:** June 16, 2010\n**Repository:** https://github.com/rust-lang/rust"
    );
}

#[test]
fn opcode_number_extraction() {
    let info = extract_opcode_number("aaload = 50 (0x32)").unwrap();
    assert_eq!(info.decimal, 50);
    assert_eq!(info.hex, "0x32");
    assert!(extract_opcode_number("aaload").is_none());
    assert!(extract_opcode_number("x = 300 (0x12C)").is_none());
    assert!(extract_opcode_number("x = 50").is_none());
}

fn aaload() -> JvmInstruction {
    JvmInstruction {
        anchor_id: "jvm-6.5.aaload".to_string(),
        description: "Load reference from array".to_string(),
        format: "aaload".to_string(),
        mnemonic: "aaload".to_string(),
        operand_stack_after: "..., value".to_string(),
        operand_stack_before: "..., arrayref, index".to_string(),
        operation: "Load reference from array".to_string(),
        opcode: Some("aaload = 50 (0x32)".to_string()),
    }
}

#[test]
fn instruction_lookup_by_mnemonic_and_anchor() {
    let list = vec![aaload()];
    assert!(find_instruction(&list, "aaload").is_some());
    assert!(find_instruction(&list, "6.5.aaload").is_some());
    assert!(find_instruction(&list, "nop").is_none());
    let (title, body) = opcode_lookup(&list, " AALOAD ", false).unwrap();
    assert_eq!(title, "JVM Instruction: aaload");
    assert_eq!(
        body,
        "**Opcode:** `aaload = 50 (0x32)`\n**Format:** `aaload`\n\n**Description:** Load reference from array\n\n[JVM Specification](https://docs.oracle.com/javase/specs/jvms/se24/html/jvms-6.html#jvm-6.5.aaload)"
    );
    assert!(opcode_lookup(&list, "nop", false).is_err());
}

#[test]
fn instruction_detail_includes_stack_and_opcode_numbers() {
    let list = vec![aaload()];
    let (_, body) = opcode_lookup(&list, "aaload", true).unwrap();
    assert!(body.contains("**Operation:** Load reference from array"));
    assert!(body.contains("• Before: `..., arrayref, index`"));
    assert!(body.contains("• After: `..., value`"));
    assert!(body.contains("• Decimal: 50"));
    assert!(body.contains("• Hexadecimal: 0x32"));
}

#[test]
fn html_cleaning() {
    assert_eq!(clean_html("<p>Hello &amp; world</p>"), "Hello & world");
    assert_eq!(clean_html("  a  \n b "), "a b");
    assert_eq!(clean_html("<a href=\"x\">link</a> text"), "link text");
    // entities are resolved before tags are stripped, so an escaped tag goes too
    assert_eq!(clean_html("&lt;tag&gt;"), "");
    assert_eq!(clean_html("1 &lt; 2"), "1 < 2");
    assert_eq!(clean_html("a &nbsp; b"), "a b");
}

#[test]
fn issue_number_extraction() {
    assert_eq!(extract_issue_number("see JDK-8301234 for details"), "JDK-8301234");
    assert_eq!(extract_issue_number("<b>JDK-1</b>"), "JDK-1");
    assert_eq!(extract_issue_number("<b>no issue</b>"), "no issue");
}

#[test]
fn jep_rendering_minimal() {
    let jep = JepMetadata {
        title: "Virtual Threads".to_string(),
        author: Some("Ron Pressler".to_string()),
        owner: None,
        jep_type: Some("Feature".to_string()),
        scope: None,
        status: Some("Closed / Delivered".to_string()),
        release: Some("21".to_string()),
        component: None,
        discussion: None,
        reviewed_by: None,
        endorsed_by: None,
        created: Some("2021/11/15".to_string()),
        updated: None,
        issue: Some("JDK-8277131".to_string()),
        summary: Some("Introduce virtual threads.".to_string()),
        goals: None,
        non_goals: None,
        motivation: None,
        description: None,
    };
    let body = format_jep_description(&jep, 444, false);
    assert_eq!(
        body,
        "**Status:** Closed / Delivered **Release:** 21 **Type:** Feature\n\n**Author:** Ron Pressler\n\n**Summary**\nIntroduce virtual threads.\n\n**Issue:** JDK-8277131\n**Created:** 2021/11/15\n\n**Link:** https://openjdk.org/jeps/444"
    );
}

#[test]
fn jep_goals_capped_at_three() {
    let jep = JepMetadata {
        title: "t".to_string(),
        author: None,
        owner: None,
        jep_type: None,
        scope: None,
        status: None,
        release: None,
        component: None,
        discussion: None,
        reviewed_by: None,
        endorsed_by: None,
        created: None,
        updated: None,
        issue: None,
        summary: None,
        goals: Some(vec![
            "one".to_string(),
            "two".to_string(),
            "three".to_string(),
            "four".to_string(),
            "five".to_string(),
        ]),
        non_goals: None,
        motivation: None,
        description: None,
    };
    let body = format_jep_description(&jep, 1, true);
    assert!(body.contains("• one\n• two\n• three\n• ... and 2 more goals\n"));
    assert!(!body.contains("• four"));
}

#[test]
fn jep_titles_and_truncation() {
    assert_eq!(jep_title(451, "Prepare to Disallow"), "JEP 451: Prepare to Disallow");
    let long_title = "x".repeat(250);
    let t = jep_title(1, &long_title);
    assert_eq!(t, format!("JEP 1: {}...", "x".repeat(180)));
    let long_desc = "y".repeat(4100);
    let cut = jep_final_description(long_desc, 7);
    assert!(cut.starts_with(&"y".repeat(100)));
    assert!(cut.contains("*Output truncated. Use `/jep 7 detailed:true`"));
    let short = jep_final_description("fine".to_string(), 7);
    assert_eq!(short, "fine");
}

#[test]
fn relative_time_phrases() {
    assert_eq!(format_relative_time(100, 100), "now");
    assert_eq!(format_relative_time(99, 100), "1 second ago");
    assert_eq!(format_relative_time(41, 100), "59 seconds ago");
    assert_eq!(format_relative_time(40, 100), "1 minute ago");
    assert_eq!(format_relative_time(0, 7200), "2 hours ago");
    assert_eq!(format_relative_time(0, 86400), "1 day ago");
    assert_eq!(format_relative_time(0, 2592000), "1 month ago");
    assert_eq!(format_relative_time(0, 31536000), "1 year ago");
    assert_eq!(format_relative_time(3600, 0), "1 hour from now");
}

#[test]
fn timestamp_bodies() {
    let d = DateStrings {
        utc: "2009-02-13 23:31:30 UTC".to_string(),
        local: "2009-02-13 23:31:30 UTC".to_string(),
        iso8601: "2009-02-13T23:31:30+00:00".to_string(),
        rfc2822: "Fri, 13 Feb 2009 23:31:30 +0000".to_string(),
    };
    let body = timestamp_body(1234567890, 1234567890, &d);
    assert!(body.starts_with("**Unix Timestamp:** `1234567890`\n**UTC:** 2009-02-13 23:31:30 UTC\n"));
    assert!(body.contains("**Relative:** now\n"));
    assert!(body.ends_with("**RFC 2822:** Fri, 13 Feb 2009 23:31:30 +0000"));
    let nb = now_body(1234567890, &d);
    assert!(nb.starts_with("**Unix Timestamp:** `1234567890`\n"));
    assert!(!nb.contains("**Relative:**"));
}

#[test]
fn uuid_bits_and_rendering() {
    let v4 = UuidVersion::V4.generate();
    assert_eq!(v4.len(), 16);
    assert_eq!(v4[6] >> 4, 4);
    assert_eq!(v4[8] >> 6, 2);
    let v1 = UuidVersion::V1.generate();
    assert_eq!(v1[6] >> 4, 1);
    assert_eq!(&v1[10..16], &[1, 2, 3, 4, 5, 6]);
    let v7 = UuidVersion::V7.generate();
    assert_eq!(v7[6] >> 4, 7);
    let bytes: Vec<u8> = vec![
        0x00, 0x11, 0x22, 0x33, 0x44, 0x55, 0x66, 0x77, 0x88, 0x99, 0xaa, 0xbb, 0xcc, 0xdd,
        0xee, 0xff,
    ];
    assert_eq!(
        format_uuid_hyphenated(&bytes),
        "00112233-4455-6677-8899-aabbccddeeff"
    );
    assert_eq!(format_uuid_simple(&bytes), "00112233445566778899aabbccddeeff");
    assert_eq!(UuidVersion::V4.description(), "**Version 4** - Random/pseudo-random");
}

#[test]
fn uuid_analysis() {
    let bytes: Vec<u8> = vec![0, 0, 0, 1, 0, 2, 0x10, 0x03, 0x40, 5, 1, 2, 3, 4, 5, 6];
    let text = analyze_uuid_v1(&bytes);
    // timestamp: hi 0x003 << 48 | mid 2 << 32 | low 1
    let ts = (3u64 << 48) | (2u64 << 32) | 1;
    assert!(text.contains(&format!("**Timestamp:** {} (100ns intervals since 1582)", ts)));
    assert!(text.contains("**Clock Sequence:** 5"));
    assert!(text.contains("**Node (MAC):** 01:02:03:04:05:06"));
    assert!(analyze_uuid_v4().contains("122 bits of randomness"));
    let v7bytes: Vec<u8> = vec![0, 0, 0, 0, 1, 0, 0, 0, 0, 0, 0, 0, 0, 0, 0, 0];
    assert_eq!(v7_timestamp_millis(&v7bytes), 256);
    let text7 = analyze_uuid_v7(&v7bytes, "1970-01-01 00:00:00.256");
    assert!(text7.contains("**Timestamp:** 1970-01-01 00:00:00.256 UTC"));
    assert!(text7.contains("**Milliseconds:** 256"));
}

#[test]
fn quotes_come_from_the_pool() {
    let config = arisa::config::Config::default();
    let quote = get_random_quote(&config);
    assert!(config.quotes.quotes.contains(&quote));
    let minutes = get_random_interval_minutes(&config);
    assert!((3..=5).contains(&minutes));
}

#[test]
fn command_descriptions() {
    assert_eq!(get_command_description("hash", None), "Generate cryptographic hashes of data");
    assert_eq!(get_command_description("mystery", Some("custom")), "custom");
    assert_eq!(get_command_description("mystery", None), "No description");
}

#[test]
fn string_helpers() {
    assert_eq!(u64_to_string(0), "0");
    assert_eq!(u64_to_string(1234567890), "1234567890");
    assert_eq!(trim("  abc \n"), "abc");
    assert_eq!(trim(""), "");
    assert_eq!(trim("   "), "");
    assert!(str_eq("same", "same"));
    assert!(!str_eq("same", "sane"));
}
