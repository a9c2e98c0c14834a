use megadl::link::extract_file_handle;
use megadl::node::{NodeWrapper, RemoteNode};
use megadl::select::{chosen_files, resolve, NodeListing, Resolution, ResolveError};

fn file(handle: &str, name: &str, size: u64) -> RemoteNode {
    RemoteNode::new(handle.to_string(), name.to_string(), true, size)
}

fn folder(handle: &str, name: &str) -> RemoteNode {
    RemoteNode::new(handle.to_string(), name.to_string(), false, 0)
}

fn handles(v: &[RemoteNode]) -> Vec<String> {
    v.iter().map(|n| n.handle.clone()).collect()
}

#[test]
fn scenario_nested_link_selects_named_file() {
    let listing = NodeListing {
        nodes: vec![folder("ABC", "dir"), file("XYZ", "x.bin", 10), file("QQQ", "q.bin", 3)],
        roots: vec![folder("ABC", "dir")],
    };
    let h = extract_file_handle("https://example.test/folder/ABC/file/XYZ");
    assert_eq!(h, Some("XYZ".to_string()));
    match resolve(&listing, h) {
        Ok(Resolution::Selected(v)) => {
            assert_eq!(handles(&v), vec!["XYZ".to_string()]);
            assert_eq!(v[0].name, "x.bin");
        }
        _ => panic!("expected a direct selection"),
    }
}

#[test]
fn scenario_plain_link_choose_all_in_listing_order() {
    let listing = NodeListing {
        nodes: vec![file("A", "a", 1), file("B", "b", 2), file("C", "c", 3)],
        roots: vec![],
    };
    let h = extract_file_handle("https://example.test/folder/ROOT");
    assert_eq!(h, None);
    let options = match resolve(&listing, h) {
        Ok(Resolution::Prompt(o)) => o,
        _ => panic!("expected a prompt"),
    };
    assert_eq!(options.len(), 4);
    assert!(options[3].is_empty());
    let names: Vec<String> = options.iter().map(|o| o.name()).collect();
    assert_eq!(names, vec!["a", "b", "c", "Download all in folder."]);
    let chosen = chosen_files(&options, 3);
    assert_eq!(handles(&chosen), vec!["A", "B", "C"]);
}

#[test]
fn scenario_missing_handle_is_not_found() {
    let listing = NodeListing {
        nodes: vec![file("A", "a", 1), file("B", "b", 2)],
        roots: vec![],
    };
    let r = resolve(&listing, Some("XYZ".to_string()));
    assert!(matches!(r, Err(ResolveError::HandleNotFound)));
}

#[test]
fn handle_in_traversal_and_roots_is_offered_once() {
    let listing = NodeListing {
        nodes: vec![file("A", "a", 1), file("B", "b", 2)],
        roots: vec![file("B", "b", 2), file("C", "c", 3)],
    };
    let c = listing.candidates();
    assert_eq!(handles(&c), vec!["A", "B", "C"]);
}

#[test]
fn single_candidate_is_selected_without_prompt() {
    let listing = NodeListing {
        nodes: vec![folder("D", "dir"), file("A", "a", 1)],
        roots: vec![file("A", "a", 1)],
    };
    match resolve(&listing, None) {
        Ok(Resolution::Selected(v)) => assert_eq!(handles(&v), vec!["A"]),
        _ => panic!("expected a direct selection"),
    }
}

#[test]
fn folders_only_is_no_files() {
    let listing = NodeListing {
        nodes: vec![folder("D", "dir")],
        roots: vec![folder("D", "dir")],
    };
    assert!(matches!(resolve(&listing, None), Err(ResolveError::NoFiles)));
}

#[test]
fn empty_listing_is_no_files() {
    let listing = NodeListing { nodes: vec![], roots: vec![] };
    assert!(matches!(resolve(&listing, None), Err(ResolveError::NoFiles)));
}

#[test]
fn choosing_one_candidate_yields_it_alone() {
    let listing = NodeListing {
        nodes: vec![file("A", "a", 1), file("B", "b", 2)],
        roots: vec![],
    };
    let options = match resolve(&listing, None) {
        Ok(Resolution::Prompt(o)) => o,
        _ => panic!("expected a prompt"),
    };
    assert_eq!(handles(&chosen_files(&options, 1)), vec!["B"]);
}

#[test]
fn lookup_finds_root_entries() {
    let listing = NodeListing {
        nodes: vec![file("A", "a", 1)],
        roots: vec![file("R", "r", 7)],
    };
    let n = listing.get_node_by_handle(&"R".to_string()).expect("present");
    assert_eq!(n.name, "r");
    assert_eq!(n.size, 7);
    assert!(listing.get_node_by_handle(&"Z".to_string()).is_none());
}

#[test]
fn explicit_handle_may_name_a_folder_entry() {
    let listing = NodeListing { nodes: vec![folder("D", "dir")], roots: vec![] };
    match resolve(&listing, Some("D".to_string())) {
        Ok(Resolution::Selected(v)) => assert_eq!(handles(&v), vec!["D"]),
        _ => panic!("expected a direct selection"),
    }
}

#[test]
fn wrappers_compare_by_handle() {
    let a = NodeWrapper::new(file("A", "one", 1));
    let a2 = NodeWrapper::new(file("A", "two", 9));
    let b = NodeWrapper::new(file("B", "one", 1));
    assert!(a == a2);
    assert!(a != b);
    assert!(NodeWrapper::new_empty() == NodeWrapper::new_empty());
    assert!(a != NodeWrapper::new_empty());
    assert_eq!(NodeWrapper::new_empty().name(), "Download all in folder.");
    assert!(NodeWrapper::new_empty().into_inner().is_none());
    assert_eq!(a.into_inner().map(|n| n.name), Some("one".to_string()));
}
