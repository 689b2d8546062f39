use switch_query::capture::{capture_index_for_name, Capture, QueryMatch};
use switch_query::commit::select_commit;
use switch_query::compare::{compare_matches, pairable_prefix, RootPair};
use switch_query::switches::{
    query_mode, read_switch_match, readable_prefix, switch_capture_ids, switch_report,
    QueryMode, SwitchCaptureIds, SwitchMatch,
};

const DEFAULT_OID: &str = "f461f9752e5918c5c87f2e3767bcb24945ee0fa0";

fn cap(index: u32, node: u64, parent: Option<u64>) -> Capture {
    Capture { index, node, parent }
}

fn names(list: &[&str]) -> Vec<String> {
    list.iter().map(|s| s.to_string()).collect()
}

// Capture names of the switch declaration query, in order of first appearance.
fn switch_query_names() -> Vec<String> {
    names(&["namespace_name", "name", "value", "cond"])
}

#[test]
fn commit_defaults_without_arguments() {
    let args: Vec<String> = vec![];
    assert_eq!(select_commit(&args, DEFAULT_OID), DEFAULT_OID);
}

#[test]
fn commit_taken_from_first_argument() {
    let args = names(&["0123abcd", "ignored"]);
    assert_eq!(select_commit(&args, DEFAULT_OID), "0123abcd");
}

#[test]
fn first_capture_takes_earliest_with_index() {
    let m = QueryMatch {
        captures: vec![cap(2, 10, None), cap(1, 11, Some(10)), cap(1, 12, Some(10))],
    };
    assert_eq!(m.first_capture(1), Some(cap(1, 11, Some(10))));
    assert_eq!(m.first_capture(2), Some(cap(2, 10, None)));
}

#[test]
fn first_capture_absent_index() {
    let m = QueryMatch { captures: vec![cap(0, 1, None)] };
    assert_eq!(m.first_capture(5), None);
    let empty = QueryMatch { captures: vec![] };
    assert_eq!(empty.first_capture(0), None);
}

#[test]
fn capture_index_is_position_of_name() {
    let n = switch_query_names();
    assert_eq!(capture_index_for_name(&n, "namespace_name"), Some(0));
    assert_eq!(capture_index_for_name(&n, "name"), Some(1));
    assert_eq!(capture_index_for_name(&n, "value"), Some(2));
    assert_eq!(capture_index_for_name(&n, "cond"), Some(3));
}

#[test]
fn capture_index_first_of_duplicates() {
    let n = names(&["a", "root", "root"]);
    assert_eq!(capture_index_for_name(&n, "root"), Some(1));
}

#[test]
fn capture_index_missing_name() {
    let n = names(&["name", "root"]);
    assert_eq!(capture_index_for_name(&n, "value"), None);
    assert_eq!(capture_index_for_name(&n, "nam"), None);
    assert_eq!(capture_index_for_name(&vec![], "root"), None);
}

#[test]
fn distinct_names_round_trip() {
    let n = names(&["x", "y", "root", "z"]);
    for (k, name) in n.iter().enumerate() {
        assert_eq!(capture_index_for_name(&n, name), Some(k as u32));
    }
}

#[test]
fn compare_pairs_roots_by_rank() {
    let root = 0;
    let plain = vec![
        QueryMatch { captures: vec![cap(0, 100, None)] },
        QueryMatch { captures: vec![cap(1, 7, Some(101)), cap(0, 101, Some(100))] },
    ];
    let incremental = vec![
        QueryMatch { captures: vec![cap(0, 200, None)] },
        QueryMatch { captures: vec![cap(0, 201, Some(200))] },
        QueryMatch { captures: vec![cap(0, 202, Some(200))] },
    ];
    assert_eq!(pairable_prefix(&plain, &incremental, root), 2);
    let report = compare_matches(&plain, &incremental, root);
    assert_eq!(report.count, 2);
    assert_eq!(
        report.pairs,
        vec![
            RootPair { plain: cap(0, 100, None), incremental: cap(0, 200, None) },
            RootPair { plain: cap(0, 101, Some(100)), incremental: cap(0, 201, Some(200)) },
        ]
    );
}

#[test]
fn pairable_prefix_stops_when_incremental_runs_out() {
    let plain = vec![
        QueryMatch { captures: vec![cap(0, 1, None)] },
        QueryMatch { captures: vec![cap(0, 2, None)] },
    ];
    let incremental = vec![QueryMatch { captures: vec![cap(0, 3, None)] }];
    let k = pairable_prefix(&plain, &incremental, 0);
    assert_eq!(k, 1);
    let report = compare_matches(&plain[..k].to_vec(), &incremental, 0);
    assert_eq!(report.count, 1);
}

#[test]
fn pairable_prefix_stops_on_plain_match_without_root() {
    let plain = vec![QueryMatch { captures: vec![cap(1, 1, None)] }];
    let incremental = vec![QueryMatch { captures: vec![cap(0, 3, None)] }];
    assert_eq!(pairable_prefix(&plain, &incremental, 0), 0);
}

#[test]
fn pairable_prefix_stops_on_incremental_match_without_root() {
    let plain = vec![
        QueryMatch { captures: vec![cap(0, 1, None)] },
        QueryMatch { captures: vec![cap(0, 2, None)] },
    ];
    let incremental = vec![
        QueryMatch { captures: vec![cap(0, 3, None)] },
        QueryMatch { captures: vec![cap(2, 4, None)] },
    ];
    assert_eq!(pairable_prefix(&plain, &incremental, 0), 1);
}

#[test]
fn incremental_flag_selects_precomputed_query() {
    assert_eq!(query_mode(true), QueryMode::Precomputed);
    assert_eq!(query_mode(false), QueryMode::Plain);
}

#[test]
fn switch_query_has_all_captures() {
    assert_eq!(
        switch_capture_ids(&switch_query_names()),
        SwitchCaptureIds { name: Some(1), value: Some(2), cond: Some(3), namespace_name: Some(0) }
    );
}

#[test]
fn test_query_if_statement() {
    // `(preproc_if condition: (identifier) @name) @root` over the switches file: every `#if`
    // condition there is a call or an `||`, so the query matches nothing, and the run
    // reports no switch although the query has no `@value` or `@namespace_name`.
    let ids = switch_capture_ids(&names(&["name", "root"]));
    assert_eq!(ids, SwitchCaptureIds { name: Some(0), value: None, cond: None, namespace_name: None });
    let matches: Vec<QueryMatch> = vec![];
    assert_eq!(readable_prefix(&matches, &ids), 0);
    let report = switch_report(&matches, &ids);
    assert_eq!(report.count, 0);
    assert!(report.switches.is_empty());
}

#[test]
fn missing_value_capture_fails_on_a_match() {
    let ids = switch_capture_ids(&names(&["name", "root"]));
    let m = QueryMatch { captures: vec![cap(0, 3, Some(2)), cap(1, 2, Some(1))] };
    assert_eq!(read_switch_match(&m, &ids), None);
    assert_eq!(readable_prefix(&vec![m], &ids), 0);
}

#[test]
fn test_spacing_issue() {
    // `(preproc_if) @root` over a snippet without any `#if`: both evaluations match nothing.
    let root = capture_index_for_name(&names(&["root"]), "root").unwrap();
    let plain: Vec<QueryMatch> = vec![];
    let incremental: Vec<QueryMatch> = vec![];
    assert_eq!(pairable_prefix(&plain, &incremental, root), 0);
    let report = compare_matches(&plain, &incremental, root);
    assert_eq!(report.count, 0);
    assert!(report.pairs.is_empty());
}

#[test]
fn test_query_incr_exact() {
    // `(preproc_if) @root` over the switches file: its four `#if` blocks are matched by both
    // evaluations, in the same order.
    let root = capture_index_for_name(&names(&["root"]), "root").unwrap();
    let plain: Vec<QueryMatch> =
        (0..4u64).map(|i| QueryMatch { captures: vec![cap(root, 10 + i, Some(1))] }).collect();
    let incremental: Vec<QueryMatch> =
        (0..4u64).map(|i| QueryMatch { captures: vec![cap(root, 20 + i, Some(2))] }).collect();
    assert_eq!(pairable_prefix(&plain, &incremental, root), 4);
    let report = compare_matches(&plain, &incremental, root);
    assert_eq!(report.count, 4);
    for (i, pair) in report.pairs.iter().enumerate() {
        assert_eq!(pair.plain.node, 10 + i as u64);
        assert_eq!(pair.incremental.node, 20 + i as u64);
    }
}

fn ids() -> SwitchCaptureIds {
    SwitchCaptureIds { name: Some(1), value: Some(2), cond: Some(3), namespace_name: Some(0) }
}

#[test]
fn switch_match_with_condition() {
    let m = QueryMatch {
        captures: vec![cap(0, 1, Some(0)), cap(3, 5, Some(4)), cap(1, 8, Some(7)), cap(2, 9, Some(7))],
    };
    assert_eq!(
        read_switch_match(&m, &ids()),
        Some(SwitchMatch {
            name: cap(1, 8, Some(7)),
            value: cap(2, 9, Some(7)),
            value_parent: 7,
            cond: Some(cap(3, 5, Some(4))),
            namespace_name: cap(0, 1, Some(0)),
        })
    );
}

#[test]
fn switch_match_without_condition() {
    let m = QueryMatch { captures: vec![cap(0, 1, Some(0)), cap(1, 8, Some(7)), cap(2, 9, Some(6))] };
    let s = read_switch_match(&m, &ids()).unwrap();
    assert_eq!(s.cond, None);
    assert_eq!(s.value_parent, 6);
}

#[test]
fn switch_match_missing_parts() {
    let no_value = QueryMatch { captures: vec![cap(0, 1, Some(0)), cap(1, 8, Some(7))] };
    assert_eq!(read_switch_match(&no_value, &ids()), None);
    let value_at_root = QueryMatch { captures: vec![cap(0, 1, Some(0)), cap(1, 8, Some(7)), cap(2, 9, None)] };
    assert_eq!(read_switch_match(&value_at_root, &ids()), None);
    let no_namespace = QueryMatch { captures: vec![cap(1, 8, Some(7)), cap(2, 9, Some(7))] };
    assert_eq!(read_switch_match(&no_namespace, &ids()), None);
    let no_name = QueryMatch { captures: vec![cap(0, 1, Some(0)), cap(2, 9, Some(7))] };
    assert_eq!(read_switch_match(&no_name, &ids()), None);
}

#[test]
fn switch_report_reads_every_match() {
    let matches = vec![
        QueryMatch { captures: vec![cap(0, 1, Some(0)), cap(1, 8, Some(7)), cap(2, 9, Some(7))] },
        QueryMatch { captures: vec![cap(0, 1, Some(0)), cap(1, 18, Some(17)), cap(2, 19, Some(17)), cap(3, 15, Some(14))] },
    ];
    assert_eq!(readable_prefix(&matches, &ids()), 2);
    let report = switch_report(&matches, &ids());
    assert_eq!(report.count, 2);
    assert_eq!(report.switches[0].name.node, 8);
    assert_eq!(report.switches[1].name.node, 18);
    assert_eq!(report.switches[1].cond, Some(cap(3, 15, Some(14))));
}

#[test]
fn readable_prefix_stops_at_first_unreadable() {
    let matches = vec![
        QueryMatch { captures: vec![cap(0, 1, Some(0)), cap(1, 8, Some(7)), cap(2, 9, Some(7))] },
        QueryMatch { captures: vec![cap(0, 1, Some(0)), cap(1, 18, Some(17))] },
        QueryMatch { captures: vec![cap(0, 1, Some(0)), cap(1, 28, Some(27)), cap(2, 29, Some(27))] },
    ];
    let k = readable_prefix(&matches, &ids());
    assert_eq!(k, 1);
    assert_eq!(switch_report(&matches[..k].to_vec(), &ids()).count, 1);
}
