use transcodeck::crypto::open;
use transcodeck::ingest::{
    encrypt_fragment, plan_fragments, AddMediaCommand, TooManyFragments,
    assign_retrieval_urls, decimal_text, fragments_of_segments, lex_less_eq,
    replace_extension, retrieval_url_for, seal_fragment, sealed_filename, segment_arguments,
    sort_filenames, whole_fragment,
};

fn names(n: &[&str]) -> Vec<String> {
    n.iter().map(|s| s.to_string()).collect()
}

#[test]
fn segments_are_numbered_from_zero_in_lexical_order() {
    let frags = fragments_of_segments(names(&[
        "fragment-002.mkv",
        "fragment-000.mkv",
        "fragment-003.mkv",
        "fragment-001.mkv",
    ])).unwrap();
    assert_eq!(frags.len(), 4);
    for (k, f) in frags.iter().enumerate() {
        assert_eq!(f.filename, format!("fragment-{:03}.mkv", k));
        assert_eq!(f.fragment_number, Some(k as i32));
        assert_eq!(f.encryption_key, None);
        assert_eq!(f.retrieval_url, None);
    }
}

#[test]
fn ten_second_input_at_three_seconds_gives_four_fragments() {
    // What the segmenter writes for a 10 s input cut every 3 s.
    let frags = fragments_of_segments(names(&[
        "fragment-003.mkv",
        "fragment-001.mkv",
        "fragment-000.mkv",
        "fragment-002.mkv",
    ])).unwrap();
    assert_eq!(frags.len(), (10 + 3 - 1) / 3);
    let numbers: Vec<Option<i32>> = frags.iter().map(|f| f.fragment_number).collect();
    assert_eq!(numbers, vec![Some(0), Some(1), Some(2), Some(3)]);
}

#[test]
fn no_segments_gives_no_fragments() {
    assert!(fragments_of_segments(Vec::new()).unwrap().is_empty());
}

#[test]
fn lexical_order_compares_by_code_point() {
    assert!(lex_less_eq("a", "b"));
    assert!(lex_less_eq("ab", "abc"));
    assert!(!lex_less_eq("abc", "ab"));
    assert!(lex_less_eq("", ""));
    assert!(lex_less_eq("Z", "a"));
    assert_eq!(sort_filenames(names(&["b", "a", "ab", "a"])), names(&["a", "a", "ab", "b"]));
}

#[test]
fn whole_media_is_one_unnumbered_fragment() {
    let f = whole_fragment("m.mkv".to_string());
    assert_eq!(f.filename, "m.mkv");
    assert_eq!(f.fragment_number, None);
    assert_eq!(f.encryption_key, None);
}

#[test]
fn sealed_payloads_take_the_age_extension() {
    assert_eq!(sealed_filename("fragment-000.mkv"), "fragment-000.age");
    assert_eq!(sealed_filename("movie"), "movie.age");
    assert_eq!(sealed_filename(".hidden"), ".hidden.age");
    assert_eq!(sealed_filename("a.tar.gz"), "a.tar.age");
    assert_eq!(replace_extension("clip.", "mkv"), "clip.mkv");
    let f = seal_fragment(whole_fragment("m.mkv".to_string()), "KEY".to_string());
    assert_eq!(f.filename, "m.age");
    assert_eq!(f.encryption_key, Some("KEY".to_string()));
}

#[test]
fn retrieval_urls_join_prefix_and_filename() {
    assert_eq!(retrieval_url_for("http://h", "m.mkv"), "http://h/m.mkv");
    let mut frags = fragments_of_segments(names(&["b.mkv", "a.mkv"])).unwrap();
    assign_retrieval_urls(&mut frags, "http://cdn/x");
    assert_eq!(frags[0].retrieval_url, Some("http://cdn/x/a.mkv".to_string()));
    assert_eq!(frags[1].retrieval_url, Some("http://cdn/x/b.mkv".to_string()));
    assert_eq!(frags[1].fragment_number, Some(1));
}

#[test]
fn segmenter_arguments() {
    let args = segment_arguments("/in/movie.mkv", "/out", 10);
    assert_eq!(
        args,
        names(&[
            "-hide_banner", "-loglevel", "error", "-stats", "-y", "-i", "/in/movie.mkv", "-c:v",
            "copy", "-c:a", "copy", "-f", "segment", "-segment_time", "10", "-reset_timestamps",
            "1", "/out/fragment-%03d.mkv",
        ])
    );
    assert_eq!(decimal_text(0), "0");
    assert_eq!(decimal_text(4294967295), "4294967295");
}

fn command(fragment: u32, encrypted: bool) -> AddMediaCommand {
    AddMediaCommand {
        input: "/in/m.mkv".to_string(),
        retrieval_url: None,
        encrypted,
        fragment,
        output_dir: None,
    }
}

#[test]
fn planning_follows_the_fragment_flag() {
    let whole = plan_fragments(&command(0, false), "m.mkv".to_string(), names(&["x.mkv"])).unwrap();
    assert_eq!(whole.len(), 1);
    assert_eq!(whole[0].filename, "m.mkv");
    assert_eq!(whole[0].fragment_number, None);
    let cut = plan_fragments(&command(5, false), "m.mkv".to_string(), names(&["b.mkv", "a.mkv"])).unwrap();
    assert_eq!(cut.len(), 2);
    assert_eq!(cut[0].filename, "a.mkv");
    assert_eq!(cut[1].fragment_number, Some(1));
    let none: Result<_, TooManyFragments> = plan_fragments(&command(5, false), "m.mkv".to_string(), Vec::new());
    assert!(none.unwrap().is_empty());
}

#[test]
fn encrypted_fragment_opens_with_its_stored_key() {
    let (f, ciphertext) = encrypt_fragment(whole_fragment("m.mkv".to_string()), b"movie bytes");
    assert_eq!(f.filename, "m.age");
    let key = f.encryption_key.clone().unwrap();
    assert_eq!(open(&key, &ciphertext).unwrap(), b"movie bytes");
    let (g, _) = encrypt_fragment(whole_fragment("n.mkv".to_string()), b"movie bytes");
    assert_ne!(g.encryption_key, f.encryption_key);
}
