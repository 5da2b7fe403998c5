use rasterstream::names::{ends_with_rev, make_rev_name, make_stats_paths, str_has_suffix};

#[test]
fn rev_name_appends_suffix() {
    assert_eq!(make_rev_name("sum").as_str(), "sum_rev");
    assert_eq!(make_rev_name("").as_str(), "_rev");
}

#[test]
fn detects_reversed_names() {
    assert!(ends_with_rev("sum_rev"));
    assert!(ends_with_rev("_rev"));
    assert!(!ends_with_rev("sum"));
    assert!(!ends_with_rev("rev"));
    assert!(!ends_with_rev("sum_reversed"));
}

#[test]
fn suffix_check_general() {
    assert!(str_has_suffix("count", "count"));
    assert!(str_has_suffix("group/count", "count"));
    assert!(str_has_suffix("anything", ""));
    assert!(!str_has_suffix("coun", "count"));
    assert!(!str_has_suffix("countx", "count"));
}

#[test]
fn stats_paths_follow_the_convention() {
    let p = make_stats_paths("group1");
    assert_eq!(p.sum.as_str(), "/group1/sum_rev");
    assert_eq!(p.sumsq.as_str(), "/group1/sumsq_rev");
    assert_eq!(p.count.as_str(), "/group1/count_rev");
    assert_eq!(p.mean_out.as_str(), "/group1/mean_rev");
    assert_eq!(p.sd_out.as_str(), "/group1/sd_rev");
}
