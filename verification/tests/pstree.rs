use webshot::pstree::{build_process_tree, format_node, parse_status_record, ProcessTreeNode};

#[test]
fn status_text_parses_into_a_record() {
    let text = "Name:\tchrome\nUmask:\t0022\nState:\tS (sleeping)\nPid:\t42\nPPid:\t7\n";
    let n = parse_status_record(text).unwrap();
    assert_eq!(n.name, "chrome");
    assert_eq!(n.pid, 42);
    assert_eq!(n.ppid, 7);
    assert!(n.children.is_empty());
}

#[test]
fn status_text_without_a_field_is_rejected() {
    assert!(parse_status_record("Name:\tx\nPid:\t1\n").is_none());
    assert!(parse_status_record("Pid:\t1\nPPid:\t0\n").is_none());
    assert!(parse_status_record("").is_none());
    // A pid that does not parse clears the field.
    assert!(parse_status_record("Name:\tx\nPid:\tnope\nPPid:\t0\n").is_none());
}

#[test]
fn later_lines_overwrite_earlier_ones() {
    let text = "Name:\tfirst\nName:\tsecond\nPid: 5\nPPid: 1\n";
    let n = parse_status_record(text).unwrap();
    assert_eq!(n.name, "second");
}

fn rec(name: &str, pid: u32, ppid: u32) -> ProcessTreeNode {
    ProcessTreeNode { name: name.to_string(), pid, ppid, children: Vec::new() }
}

#[test]
fn tree_links_children_to_their_parents() {
    let records = vec![rec("init", 1, 0), rec("serve", 10, 1), rec("page", 11, 10), rec(
        "page",
        12,
        10,
    )];
    let map = build_process_tree(records);
    assert_eq!(map.get(&1).unwrap().children, vec![10]);
    assert_eq!(map.get(&10).unwrap().children, vec![11, 12]);
    assert!(map.get(&11).unwrap().children.is_empty());
    // The synthetic root adopts the processes whose parent id is zero,
    // itself included.
    assert_eq!(map.get(&0).unwrap().children, vec![1, 0]);
    assert_eq!(map.get(&0).unwrap().name, "/");
}

#[test]
fn tree_renders_with_indentation() {
    let records = vec![rec("serve", 10, 1), rec("page", 11, 10), rec("page", 12, 10)];
    let map = build_process_tree(records);
    let text = format_node(map.get(&10).unwrap(), 0, &map);
    assert_eq!(text, "- serve #10\n  - page #11\n  - page #12\n");
    let indented = format_node(map.get(&11).unwrap(), 2, &map);
    assert_eq!(indented, "    - page #11\n");
}
