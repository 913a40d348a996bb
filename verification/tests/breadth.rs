use gauntlet::metrics::Delta;
use gauntlet::report::Report;
use gauntlet::gzip::{compress, Effort};
use gauntlet::suites::breadth::{compressed_form, corpus_found, file_size, sample, Tally};
use gauntlet::suites::walk::{comes_before, entry_kind, is_svg, Entry, EntryKind, Walk};
use gauntlet::thumb::{Thumb, ALPHA_ARGB};

const SECOND: u128 = 1_000_000_000;

fn picture(size: u32, p: [u8; 4]) -> Thumb {
    let mut pixels = Vec::new();
    for _ in 0..size * size {
        pixels.extend_from_slice(&p);
    }
    Thumb { width: size, height: size, pixels, alpha: ALPHA_ARGB }
}

fn artwork(size: u32) -> Thumb {
    picture(size, [200, 100, 50, 255])
}

fn delta(handles: i64, gdi: i64) -> Delta {
    Delta {
        private_bytes: 0,
        working_set: 0,
        handles,
        gdi_objects: gdi,
        user_objects: 0,
        threads: 0,
        modules: 0,
    }
}

#[test]
fn extensions_ignore_case() {
    for e in ["svg", "SVG", "Svg", "sVg"] {
        assert!(is_svg(e));
    }
    for e in ["", "svgz", "sv", "xvg", "ſvg", " svg"] {
        assert!(!is_svg(e), "{e}");
    }
    assert!(entry_kind(true, Some("svg")) == EntryKind::Directory);
    assert!(entry_kind(false, Some("SVG")) == EntryKind::Document);
    assert!(entry_kind(false, Some("png")) == EntryKind::Other);
    assert!(entry_kind(false, None) == EntryKind::Other);
}

fn dir(name: &str, id: usize) -> Entry {
    Entry { name: name.as_bytes().to_vec(), id, kind: EntryKind::Directory }
}

fn doc(name: &str, id: usize) -> Entry {
    Entry { name: name.as_bytes().to_vec(), id, kind: EntryKind::Document }
}

fn other(name: &str, id: usize) -> Entry {
    Entry { name: name.as_bytes().to_vec(), id, kind: EntryKind::Other }
}

/// A root with a file, two directories and a file between and after them.
fn listing(id: usize) -> Vec<Entry> {
    match id {
        0 => vec![
            doc("a.svg", 1),
            dir("b", 2),
            doc("b.svg", 3),
            other("c.txt", 4),
            dir("d", 5),
            doc("e.svg", 6),
        ],
        2 => vec![doc("A.svg", 20), dir("deep", 21), doc("x.svg", 22)],
        21 => vec![doc("only.svg", 210)],
        5 => vec![],
        _ => panic!("no such directory"),
    }
}

/// The same listing, turned round `by` places.
fn turned(id: usize, by: usize) -> Vec<Entry> {
    let mut entries = listing(id);
    let n = entries.len();
    if n > 0 {
        entries.rotate_left(by % n);
        if by % 2 == 1 {
            entries.reverse();
        }
    }
    entries
}

fn walked_over(limit: usize, list: fn(usize, usize) -> Vec<Entry>, by: usize) -> (Vec<usize>, Vec<usize>) {
    let mut walk = Walk::new(limit);
    let mut asked = Vec::new();
    walk.enter(list(0, by));
    while let Some(id) = walk.next() {
        asked.push(id);
        walk.enter(list(id, by));
    }
    (walk.found().clone(), asked)
}

fn walked(limit: usize) -> (Vec<usize>, Vec<usize>) {
    walked_over(limit, turned, 0)
}

#[test]
fn names_are_compared_byte_by_byte() {
    let names: [&[u8]; 6] = [b"", b"A", b"a", b"a.svg", b"ab", b"\xC3\xA4"];
    for (i, a) in names.iter().enumerate() {
        for (j, b) in names.iter().enumerate() {
            assert_eq!(comes_before(a, b), i < j);
        }
    }
}

#[test]
fn the_listing_order_is_of_no_account() {
    for limit in 0..8 {
        for by in 0..12 {
            assert_eq!(walked_over(limit, turned, by), walked(limit));
        }
    }
}

/// A flat directory, listed backwards.
fn flat(id: usize, n: usize) -> Vec<Entry> {
    assert_eq!(id, 0);
    (0..n).rev().map(|i| doc(&format!("{i:05}.svg"), i)).collect()
}

#[test]
fn a_large_directory_is_ordered() {
    assert_eq!(walked_over(5000, flat, 3000).0, (0..3000).collect::<Vec<usize>>());
    assert_eq!(walked_over(2, flat, 3000).0, [0, 1]);
}

#[test]
fn the_walk_is_depth_first() {
    assert_eq!(walked(100), (vec![1, 20, 210, 22, 3, 6], vec![2, 21, 5]));
}

#[test]
fn the_walk_stops_at_its_limit() {
    assert_eq!(walked(0), (vec![], vec![]));
    assert_eq!(walked(1), (vec![1], vec![]));
    assert_eq!(walked(3), (vec![1, 20, 210], vec![2, 21]));
    assert_eq!(walked(5), (vec![1, 20, 210, 22, 3], vec![2, 21]));
}

#[test]
fn an_empty_walk_finds_nothing() {
    let mut walk = Walk::new(10);
    assert!(walk.next().is_none());
    assert!(walk.found().is_empty());
}

#[test]
fn sizes_rotate_over_the_files() {
    let sizes: Vec<u32> = (0..8).map(file_size).collect();
    assert_eq!(sizes, [16, 32, 48, 96, 256, 1024, 16, 32]);
}

#[test]
fn every_file_that_rendered_is_compressed() {
    let bytes = b"<svg/> <svg/> <svg/>".to_vec();
    for _ in 0..7 {
        let form = compressed_form(&Ok(artwork(8)), &bytes);
        assert_eq!(form, Some(compress(&bytes, Effort::Usual)));
        assert_ne!(form, Some(bytes.clone()));
    }
    assert!(compressed_form(&Err(7), &bytes).is_none());
}

#[test]
fn long_lists_are_cut() {
    let items: Vec<String> = (0..14).map(|i| format!("item {i}")).collect();
    assert_eq!(sample(&items[..12].to_vec()), items[..12].join("\n      "));
    assert_eq!(sample(&items), format!("{}\n      ... and 2 more", items[..12].join("\n      ")));
    assert_eq!(sample(&vec![]), "");
}

#[test]
fn a_missing_corpus_is_skipped() {
    let mut r = Report::new("b");
    assert!(!corpus_found(&mut r, "dir", None));
    assert!(!corpus_found(&mut r, "dir", Some(0)));
    assert!(corpus_found(&mut r, "dir", Some(7)));
    assert_eq!(
        r.take_lines(),
        [
            "  [SKIP] b/corpus_available: corpus directory dir does not exist",
            "  [SKIP] b/corpus_available: no .svg files under dir",
            "  [PASS] b/corpus_available: 7 files from dir",
        ]
    );
}

#[test]
fn a_clean_corpus() {
    let mut t = Tally::new();
    t.file_done("a.svg", 16, &Ok(artwork(16)), 5, "5ns");
    t.file_done("b.svg", 32, &Ok(artwork(32)), 9, "9ns");
    t.file_done("c.svg", 48, &Ok(picture(48, [0; 4])), 9, "nine");
    t.compressed_done("a.svg", &artwork(16), &Ok(artwork(16)));
    let mut r = Report::new("b");
    let d = delta(128, 32);
    t.judge(&mut r, 3, &d);
    assert_eq!(
        r.take_lines(),
        [
            "  [PASS] b/every_real_world_file_renders: all 3 corpus files produced a bitmap".to_string(),
            "  [PASS] b/no_real_world_file_falls_back: none of the 3 rendered files produced a fallback thumbnail".to_string(),
            "  [PASS] b/corpus_geometry_always_matches_request: every returned bitmap matched the requested size".to_string(),
            "  [PASS] b/corpus_files_render_within_budget: slowest file was b.svg at 9ns".to_string(),
            "  [PASS] b/svg_and_svgz_agree_on_real_corpus: gzip round-trips of the corpus files rendered equivalently".to_string(),
            format!("  [PASS] b/corpus_run_does_not_leak_handles: across the whole corpus run: {}", d.describe()),
        ]
    );
}

#[test]
fn every_defect_is_named() {
    let mut t = Tally::new();
    t.unreadable("gone.svg");
    t.file_done("bad.svg", 16, &Err(0x8000_4005), 5, "5ns");
    t.file_done("black.svg", 32, &Ok(picture(32, [0, 0, 0, 255])), 20 * SECOND + 1, "20.000000001s");
    t.file_done("small.svg", 48, &Ok(artwork(16)), 20 * SECOND, "20s");
    t.compressed_done("black.svg", &artwork(8), &Ok(picture(8, [0; 4])));
    t.compressed_done("small.svg", &artwork(8), &Err(7));
    assert_eq!(t.rendered as usize + t.failed.len(), 4);
    let mut r = Report::new("b");
    let d = delta(129, 0);
    t.judge(&mut r, 4, &d);
    assert_eq!(
        r.take_lines(),
        [
            "  [FAIL] b/every_real_world_file_renders: 2 of 4 corpus files failed to render:\n      gone.svg: could not read file\n      bad.svg: hr=0x80004005 at 16px".to_string(),
            "  [FAIL] b/no_real_world_file_falls_back: 1 of 2 files fell back to the placeholder thumbnail, meaning the provider could not render valid production artwork:\n      black.svg (BlackSquareFallback) at 32px".to_string(),
            "  [FAIL] b/corpus_geometry_always_matches_request: 1 size mismatches:\n      small.svg: asked for 48x48, got 16x16".to_string(),
            "  [FAIL] b/corpus_files_render_within_budget: 1 file(s) exceeded the 20s budget:\n      black.svg: 20.000000001s at 32px".to_string(),
            "  [FAIL] b/svg_and_svgz_agree_on_real_corpus: 2 file(s) rendered differently as .svgz than as .svg:\n      black.svg: svg=Real svgz=Transparent\n      small.svg: svg rendered but svgz failed with 0x00000007".to_string(),
            format!("  [FAIL] b/corpus_run_does_not_leak_handles: across the whole corpus run: {}", d.describe()),
        ]
    );
}

#[test]
fn two_kinds_of_failure_still_agree() {
    let mut t = Tally::new();
    t.compressed_done("x", &picture(8, [0; 4]), &Ok(picture(8, [0, 0, 0, 255])));
    assert!(t.gz_disagreed.is_empty());
}
