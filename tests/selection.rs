use aircheq_podcast::matcher::{
    contains_query, extension, find, is_allowed_extension, is_match, same_text, Candidate,
};
use aircheq_podcast::selector::{select, NoMatchError};

fn cand(path: &str, name: &str, created: u64) -> Candidate {
    Candidate { path: path.to_string(), file_name: name.to_string(), created }
}

#[test]
fn extension_after_last_dot() {
    assert_eq!(extension("rec.m2ts"), Some("m2ts".to_string()));
    assert_eq!(extension("a.b.mp4"), Some("mp4".to_string()));
    assert_eq!(extension("trailing."), Some("".to_string()));
}

#[test]
fn extension_absent() {
    assert_eq!(extension("noext"), None);
    assert_eq!(extension(".mp4"), None);
    assert_eq!(extension(""), None);
}

#[test]
fn allow_list_is_exact_and_case_sensitive() {
    for e in ["m4a", "aac", "mp4", "flv", "m2ts"] {
        assert!(is_allowed_extension(e));
    }
    for e in ["MP4", "mkv", "mp3", "", "m2t", "m2tss"] {
        assert!(!is_allowed_extension(e));
    }
}

#[test]
fn substring_search() {
    assert!(contains_query("show_a_2020.mp4", "show_a"));
    assert!(contains_query("xx_show_a", "show_a"));
    assert!(contains_query("anything", ""));
    assert!(!contains_query("show_b_2020.mp4", "show_a"));
    assert!(!contains_query("Show_A.mp4", "show_a"));
    assert!(!contains_query("ab", "abc"));
    assert!(contains_query("オードリーのオールナイト.m4a", "オードリー"));
}

#[test]
fn same_text_compares_characters() {
    assert!(same_text("abc", "abc"));
    assert!(!same_text("abc", "abd"));
    assert!(!same_text("abc", "ab"));
}

#[test]
fn match_needs_extension_and_query() {
    assert!(is_match("show_a_2020.mp4", "show_a"));
    assert!(!is_match("show_a_2020.txt", "show_a"));
    assert!(!is_match("show_a_2020", "show_a"));
    assert!(!is_match("other.mp4", "show_a"));
}

#[test]
fn find_keeps_order_and_allowed_extensions() {
    let entries = vec![
        cand("/r/show_a_1.mp4", "show_a_1.mp4", 1),
        cand("/r/show_a_2.txt", "show_a_2.txt", 2),
        cand("/r/show_b_3.mp4", "show_b_3.mp4", 3),
        cand("/r/d/show_a_4.m2ts", "show_a_4.m2ts", 4),
        cand("/r/show_a_5.MP4", "show_a_5.MP4", 5),
    ];
    let r = find(&entries, "show_a");
    let names: Vec<&str> = r.iter().map(|c| c.file_name.as_str()).collect();
    assert_eq!(names, vec!["show_a_1.mp4", "show_a_4.m2ts"]);
    for c in &r {
        let e = extension(&c.file_name).unwrap();
        assert!(["m4a", "aac", "mp4", "flv", "m2ts"].contains(&e.as_str()));
    }
}

#[test]
fn select_empty_fails() {
    assert_eq!(select(&vec![]).err(), Some(NoMatchError));
}

#[test]
fn select_latest_created() {
    let c = vec![cand("a", "a.mp4", 5), cand("b", "b.mp4", 9), cand("c", "c.mp4", 7)];
    assert_eq!(select(&c).unwrap().path, "b");
}

#[test]
fn select_single() {
    let c = vec![cand("only", "only.aac", 0)];
    assert_eq!(select(&c).unwrap().path, "only");
}

#[test]
fn select_tie_takes_last_met() {
    let c = vec![cand("a", "a.mp4", 9), cand("b", "b.mp4", 3), cand("c", "c.mp4", 9)];
    assert_eq!(select(&c).unwrap().path, "c");
}

#[test]
fn select_unique_latest_any_order() {
    let base = [cand("a", "a.mp4", 1), cand("b", "b.mp4", 8), cand("c", "c.mp4", 4)];
    let orders = [[0, 1, 2], [0, 2, 1], [1, 0, 2], [1, 2, 0], [2, 0, 1], [2, 1, 0]];
    for o in orders {
        let v: Vec<Candidate> = o.iter().map(|&i| base[i].duplicate()).collect();
        let s = select(&v).unwrap();
        assert_eq!(s.path, "b");
        assert_eq!(s.created, 8);
    }
}
