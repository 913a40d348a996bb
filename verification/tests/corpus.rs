use std::io::{Read, Write};

use gauntlet::corpus::size_limits::{padded_document, MAX_INPUT};
use gauntlet::corpus::svgz::{bomb, css_bomb, svgz_cases_from, Members};
use gauntlet::corpus::{all_cases, case, heavy_cases, Case, Expect, XxeProbe, BASE_SVG};
use gauntlet::gzip::{compress, Effort};
use gauntlet::suites::adversarial::choose_cases;

fn probe() -> XxeProbe {
    XxeProbe {
        http_url: "http://127.0.0.1:4711".to_string(),
        sentinel_path: "C:/work/xxe-sentinel.txt".to_string(),
    }
}

fn corpus() -> Vec<Case> {
    all_cases(&probe())
}

fn find<'a>(cases: &'a [Case], name: &str) -> &'a Case {
    match cases.iter().find(|c| c.name == name) {
        Some(c) => c,
        None => panic!("no case {name}"),
    }
}

fn text(cases: &[Case], name: &str) -> String {
    match String::from_utf8(find(cases, name).bytes.clone()) {
        Ok(s) => s,
        Err(_) => panic!("{name} is not text"),
    }
}

fn inflate(bytes: &[u8]) -> Vec<u8> {
    let mut out = Vec::new();
    match flate2::read::GzDecoder::new(bytes).read_to_end(&mut out) {
        Ok(_) => out,
        Err(e) => panic!("{e}"),
    }
}

#[test]
fn a_case_is_what_it_was_made_of() {
    let c = case("name", vec![1, 2, 3], Expect::RealRender);
    assert_eq!(c.name, "name");
    assert_eq!(c.bytes, vec![1, 2, 3]);
    assert!(matches!(c.expect, Expect::RealRender));
}

#[test]
fn the_plain_corpus_has_its_size() {
    assert_eq!(corpus().len(), 189);
}

#[test]
fn every_plain_case_has_its_own_name() {
    let mut names: Vec<String> = corpus().into_iter().map(|c| c.name).collect();
    names.sort();
    names.dedup();
    assert_eq!(names.len(), 189);
}

const REAL: [&str; 5] = [
    "xml-declaration",
    "comment-before-root",
    "css-basic-class",
    "css-element-selector",
    "css-inline-overrides-class",
];

#[test]
fn only_valid_documents_must_render() {
    for c in corpus() {
        let valid = c.name.starts_with("valid-") || REAL.contains(&c.name.as_str());
        if valid {
            assert!(matches!(c.expect, Expect::RealRender), "{}", c.name);
        } else {
            assert!(matches!(c.expect, Expect::Survive), "{}", c.name);
        }
    }
}

#[test]
fn truncations_are_prefixes_of_the_base_document() {
    let base = BASE_SVG.as_bytes();
    let cases = corpus();
    for percent in [1usize, 5, 10, 17, 25, 33, 50, 66, 75, 90, 95, 99] {
        let c = find(&cases, &format!("truncated-{percent:02}pct"));
        assert_eq!(c.bytes, base[..base.len() * percent / 100], "{percent}");
    }
    for back in [1usize, 2, 3, 6, 7] {
        let c = find(&cases, &format!("truncated-minus{back}"));
        assert_eq!(c.bytes, base[..base.len() - back]);
    }
}

#[test]
fn deep_nesting_is_balanced() {
    let cases = corpus();
    for depth in [64usize, 512, 5_000, 50_000] {
        let s = text(&cases, &format!("deep-nesting-{depth}"));
        assert_eq!(s.matches("<g>").count(), depth);
        assert_eq!(s.matches("</g>").count(), depth);
    }
    let s = text(&cases, "deep-nesting-unclosed");
    assert_eq!(s.matches("<g>").count(), 10_000);
    assert_eq!(s.matches("</g>").count(), 0);
}

#[test]
fn siblings_are_counted() {
    let cases = corpus();
    for n in [1_000usize, 50_000] {
        assert_eq!(text(&cases, &format!("{n}-sibling-elements")).matches("<rect ").count(), n);
    }
}

#[test]
fn the_probe_is_where_the_entities_point() {
    let cases = corpus();
    let pointing = cases
        .iter()
        .filter(|c| {
            let s = String::from_utf8_lossy(&c.bytes).into_owned();
            s.contains("http://127.0.0.1:4711") || s.contains("C:/work/xxe-sentinel.txt")
        })
        .count();
    assert!(pointing >= 6, "{pointing}");
}

#[test]
fn an_effort_changes_the_bytes_and_not_the_payload() {
    let payload = "abc".repeat(1000);
    let stored = compress(payload.as_bytes(), Effort::Stored);
    let usual = compress(payload.as_bytes(), Effort::Usual);
    let best = compress(payload.as_bytes(), Effort::Best);
    for m in [&stored, &usual, &best] {
        assert_eq!(&m[..2], &[0x1F, 0x8B]);
        assert!(m.len() >= 18);
        assert_eq!(inflate(m), payload.as_bytes());
    }
    assert!(stored.len() > payload.len());
    assert!(usual.len() < 200);
    assert!(best.len() <= usual.len());
}

#[test]
fn compressing_matches_the_encoder() {
    for (effort, level) in [
        (Effort::Stored, flate2::Compression::none()),
        (Effort::Usual, flate2::Compression::default()),
        (Effort::Best, flate2::Compression::best()),
    ] {
        let mut enc = flate2::write::GzEncoder::new(Vec::new(), level);
        assert!(enc.write_all(BASE_SVG.as_bytes()).is_ok());
        match enc.finish() {
            Ok(bytes) => assert_eq!(compress(BASE_SVG.as_bytes(), effort), bytes),
            Err(e) => panic!("{e}"),
        }
    }
}

fn small_members() -> Members {
    let base = BASE_SVG.as_bytes();
    let valid = compress(base, Effort::Usual);
    Members {
        double: compress(&valid, Effort::Usual),
        stored: compress(base, Effort::Stored),
        best: compress(base, Effort::Best),
        empty: compress(&[], Effort::Usual),
        plain_text: compress(b"text", Effort::Usual),
        bomb_64: vec![64],
        bomb_512: vec![5, 12],
        deep: vec![1],
        css: vec![2],
        valid,
    }
}

#[test]
fn the_compressed_corpus_damages_one_thing_at_a_time() {
    let m = small_members();
    let cases = svgz_cases_from(&m);
    assert_eq!(cases.len(), 34);
    let v = &m.valid;
    let n = v.len();
    assert_eq!(&find(&cases, "svgz-valid").bytes, v);
    assert!(matches!(find(&cases, "svgz-valid").expect, Expect::RealRender));
    assert_eq!(find(&cases, "svgz-magic-only").bytes, [0x1F, 0x8B]);
    for cut in 1..10usize {
        assert_eq!(find(&cases, &format!("svgz-truncated-header-{cut}")).bytes, v[..cut]);
    }
    for percent in [20usize, 40, 60, 80, 95] {
        let c = find(&cases, &format!("svgz-truncated-body-{percent}pct"));
        assert_eq!(c.bytes, v[..n * percent / 100]);
    }
    assert_eq!(find(&cases, "svgz-missing-trailer").bytes, v[..n - 8]);

    let changed = |name: &str| -> Vec<usize> {
        let c = find(&cases, name);
        assert_eq!(c.bytes.len(), n);
        (0..n).filter(|i| c.bytes[*i] != v[*i]).collect()
    };
    assert_eq!(changed("svgz-bad-crc"), [n - 8]);
    assert_eq!(changed("svgz-bad-isize"), [n - 4, n - 3]);
    assert_eq!(changed("svgz-corrupt-deflate-stream"), [n / 2]);
    assert_eq!(changed("svgz-unknown-compression-method"), [2]);
    assert_eq!(changed("svgz-reserved-flag-bits"), [3]);

    let twice: Vec<u8> = v.iter().chain(v.iter()).copied().collect();
    assert_eq!(find(&cases, "svgz-concatenated-members").bytes, twice);
    let garbage = &find(&cases, "svgz-trailing-garbage").bytes;
    assert_eq!(&garbage[..n], &v[..]);
    assert_eq!(garbage[n..], [0xDE, 0xAD, 0xBE, 0xEF].repeat(64));
}

#[test]
fn a_tiny_member_leaves_the_damage_out() {
    let mut m = small_members();
    m.valid = vec![0x1F, 0x8B, 8];
    let cases = svgz_cases_from(&m);
    let names: Vec<&str> = cases.iter().map(|c| c.name.as_str()).collect();
    assert!(names.contains(&"svgz-truncated-header-2"));
    assert!(!names.contains(&"svgz-truncated-header-3"));
    assert!(!names.contains(&"svgz-bad-crc"));
    assert!(!names.contains(&"svgz-truncated-body-95pct"));
}

#[test]
fn compressed_and_plain_cases_share_no_name() {
    let mut names: Vec<String> = corpus().into_iter().map(|c| c.name).collect();
    names.extend(svgz_cases_from(&small_members()).into_iter().map(|c| c.name));
    let total = names.len();
    names.sort();
    names.dedup();
    assert_eq!(names.len(), total);
    assert_eq!(total, 189 + 34);
}

#[test]
fn bombs_hold_what_they_promise() {
    let b = bomb(2);
    let head = b.iter().position(|x| *x == b'A');
    let filler = b.iter().filter(|x| **x == b'A').count();
    assert_eq!(filler, 2 * 1024 * 1024);
    assert!(b.starts_with(b"<svg "));
    assert!(b.ends_with(b"A--></svg>"));
    assert_eq!(b.len(), filler + "--></svg>".len() + head.unwrap_or(0));
    let member = compress(&b, Effort::Best);
    assert!(member.len() < 20_000);
    assert_eq!(inflate(&member), b);
    assert_eq!(
        css_bomb(3),
        r#"<svg xmlns="http://www.w3.org/2000/svg" viewBox="0 0 64 64"><style>.a{fill:#0a0}.a{fill:#0a0}.a{fill:#0a0}</style><rect class="a" width="64" height="64"/></svg>"#
    );
}

#[test]
fn a_padded_document_has_the_asked_size() {
    for total in [1000usize, 4096, 100_001] {
        let v = padded_document(total);
        assert_eq!(v.len(), total);
        assert!(v.starts_with(b"<svg "));
        assert!(v.ends_with(b"</desc></svg>"));
    }
}

#[test]
fn the_heavy_corpus_straddles_the_limit() {
    let cases = heavy_cases();
    let sizes: Vec<(String, usize)> = cases.iter().map(|c| (c.name.clone(), c.bytes.len())).collect();
    assert_eq!(
        sizes,
        [
            ("size-8mib-under-cap".to_string(), 8 * 1024 * 1024),
            ("size-one-byte-under-cap".to_string(), MAX_INPUT - 1),
            ("size-one-byte-over-cap".to_string(), MAX_INPUT + 1),
            ("size-well-over-cap".to_string(), MAX_INPUT + 32 * 1024 * 1024),
        ]
    );
    for c in &cases {
        let over = c.bytes.len() > MAX_INPUT;
        assert_eq!(matches!(c.expect, Expect::RejectOrFallback), over, "{}", c.name);
    }
}

#[test]
fn the_heavy_corpus_is_what_is_large() {
    let heavy = heavy_cases();
    for c in all_cases(&probe()) {
        assert!(c.bytes.len() < 8 * 1024 * 1024, "{}", c.name);
        assert!(choose_cases(&heavy, Some(c.name.as_str())).is_empty(), "{}", c.name);
    }
    for (i, c) in heavy.iter().enumerate() {
        assert!(c.bytes.len() >= 8 * 1024 * 1024, "{}", c.name);
        assert_eq!(choose_cases(&heavy, Some(c.name.as_str())), [i]);
    }
    assert_eq!(choose_cases(&heavy, None), [0, 1, 2, 3]);
}
