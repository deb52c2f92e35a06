use data_generator::digits::push_decimal;
use data_generator::generate_tree_data_fast;
use data_generator::generate_virtual_tree_data;
use data_generator::names::child_id_string;
use data_generator::names::grandchild_label_string;
use data_generator::names::root_id_string;
use data_generator::GenerateOptions;
use data_generator::GenerateTreeDataResult;
use data_generator::TreeNodeData;

const LABEL_PREFIX: &str = "\u{8282}\u{70b9} ";

fn node_eq(a: &TreeNodeData, b: &TreeNodeData) -> bool {
    if a.id != b.id || a.label != b.label {
        return false;
    }
    match (&a.children, &b.children) {
        (None, None) => true,
        (Some(x), Some(y)) => {
            x.len() == y.len() && x.iter().zip(y.iter()).all(|(p, q)| node_eq(p, q))
        }
        _ => false,
    }
}

fn forest_eq(a: &GenerateTreeDataResult, b: &GenerateTreeDataResult) -> bool {
    a.total_count == b.total_count
        && a.data.len() == b.data.len()
        && a.data.iter().zip(b.data.iter()).all(|(p, q)| node_eq(p, q))
}

fn generate(root: u32, child: u32, grandchild: u32) -> GenerateTreeDataResult {
    let options = GenerateOptions::new(root, child, grandchild);
    generate_virtual_tree_data(&options).expect("counts fit the counter")
}

#[test]
fn decimal_rendering() {
    let mut s = String::new();
    push_decimal(&mut s, 0);
    assert_eq!(s, "0");
    let mut s = String::new();
    push_decimal(&mut s, 7);
    assert_eq!(s, "7");
    let mut s = String::new();
    push_decimal(&mut s, 1234567890);
    assert_eq!(s, "1234567890");
    let mut s = String::new();
    push_decimal(&mut s, u32::MAX);
    assert_eq!(s, "4294967295");
}

#[test]
fn name_builders() {
    assert_eq!(root_id_string(10), "node-10");
    assert_eq!(child_id_string(3, 12), "node-3-12");
    assert_eq!(
        grandchild_label_string(1, 2, 3),
        format!("{}1-2-3", LABEL_PREFIX)
    );
}

#[test]
fn default_substitution_for_zero_inputs() {
    let result = generate(0, 2, 1);
    assert_eq!(result.data.len(), 5000);
    assert_eq!(result.total_count, 5000 + 10000 + 10000);

    let result = generate(3, 0, 2);
    for root in &result.data {
        assert_eq!(root.children.as_ref().unwrap().len(), 5);
    }
    assert_eq!(result.total_count, 3 + 15 + 30);

    let result = generate(3, 2, 0);
    for root in &result.data {
        for child in root.children.as_ref().unwrap() {
            assert_eq!(child.children.as_ref().unwrap().len(), 5);
        }
    }
    assert_eq!(result.total_count, 3 + 6 + 30);
}

#[test]
fn nonzero_inputs_pass_through() {
    let result = generate(7, 2, 3);
    assert_eq!(result.data.len(), 7);
    for root in &result.data {
        let children = root.children.as_ref().unwrap();
        assert_eq!(children.len(), 2);
        for child in children {
            assert_eq!(child.children.as_ref().unwrap().len(), 3);
        }
    }
}

#[test]
fn total_count_formula() {
    assert_eq!(generate(1, 1, 1).total_count, 3);
    assert_eq!(generate(2, 3, 4).total_count, 2 + 6 + 24);
    assert_eq!(generate(0, 1, 1).total_count, 15000);
}

#[test]
fn structural_shape() {
    let result = generate(3, 2, 4);
    assert_eq!(result.data.len(), 3);
    for root in &result.data {
        let children = root.children.as_ref().unwrap();
        assert_eq!(children.len(), 2);
        for child in children {
            let grandchildren = child.children.as_ref().unwrap();
            assert_eq!(grandchildren.len(), 4);
            for grandchild in grandchildren {
                assert!(grandchild.children.is_none());
            }
        }
    }
}

#[test]
fn id_and_label_templates() {
    let result = generate(12, 11, 10);
    assert_eq!(result.data[11].id, "node-12");
    assert_eq!(result.data[11].label, format!("{}12", LABEL_PREFIX));
    let child = &result.data[0].children.as_ref().unwrap()[10];
    assert_eq!(child.id, "node-1-11");
    assert_eq!(child.label, format!("{}1-11", LABEL_PREFIX));
    let grandchild = &child.children.as_ref().unwrap()[9];
    assert_eq!(grandchild.id, "node-1-11-10");
    assert_eq!(grandchild.label, format!("{}1-11-10", LABEL_PREFIX));
}

#[test]
fn ordering_matches_index_order() {
    let result = generate(4, 3, 2);
    for (i, root) in result.data.iter().enumerate() {
        assert_eq!(root.id, format!("node-{}", i + 1));
        for (j, child) in root.children.as_ref().unwrap().iter().enumerate() {
            assert_eq!(child.id, format!("node-{}-{}", i + 1, j + 1));
            for (k, grandchild) in child.children.as_ref().unwrap().iter().enumerate() {
                assert_eq!(grandchild.id, format!("node-{}-{}-{}", i + 1, j + 1, k + 1));
            }
        }
    }
}

#[test]
fn generation_is_deterministic() {
    let first = generate(3, 2, 2);
    let second = generate(3, 2, 2);
    assert!(forest_eq(&first, &second));
}

#[test]
fn minimal_concrete_scenario() {
    let result = generate(1, 1, 1);
    assert_eq!(result.total_count, 3);
    assert_eq!(result.data.len(), 1);
    let root = &result.data[0];
    assert_eq!(root.id, "node-1");
    assert_eq!(root.label, format!("{}1", LABEL_PREFIX));
    let children = root.children.as_ref().unwrap();
    assert_eq!(children.len(), 1);
    let child = &children[0];
    assert_eq!(child.id, "node-1-1");
    assert_eq!(child.label, format!("{}1-1", LABEL_PREFIX));
    let grandchildren = child.children.as_ref().unwrap();
    assert_eq!(grandchildren.len(), 1);
    let grandchild = &grandchildren[0];
    assert_eq!(grandchild.id, "node-1-1-1");
    assert_eq!(grandchild.label, format!("{}1-1-1", LABEL_PREFIX));
    assert!(grandchild.children.is_none());
}

#[test]
fn leaf_children_are_absent_not_empty() {
    let result = generate(2, 1, 1);
    for root in &result.data {
        for child in root.children.as_ref().unwrap() {
            for grandchild in child.children.as_ref().unwrap() {
                assert!(grandchild.children.is_none());
            }
        }
    }
}

#[test]
fn fast_path_matches_defaulted_generate() {
    let fast = generate_tree_data_fast(3).expect("counts fit the counter");
    let full = generate(3, 5, 5);
    assert!(forest_eq(&fast, &full));

    let fast = generate_tree_data_fast(1).expect("counts fit the counter");
    let full = generate(1, 5, 5);
    assert!(forest_eq(&fast, &full));
}

fn collect_ids(nodes: &[TreeNodeData], ids: &mut Vec<String>) {
    for node in nodes {
        ids.push(node.id.clone());
        if let Some(children) = &node.children {
            collect_ids(children, ids);
        }
    }
}

#[test]
fn ids_are_unique_within_forest() {
    let result = generate(3, 2, 2);
    let mut ids: Vec<String> = Vec::new();
    collect_ids(&result.data, &mut ids);
    assert_eq!(ids.len(), result.total_count as usize);
    let mut sorted = ids.clone();
    sorted.sort();
    sorted.dedup();
    assert_eq!(sorted.len(), ids.len());
}

#[test]
fn overflow_is_reported_not_wrapped() {
    let options = GenerateOptions::new(u32::MAX, u32::MAX, u32::MAX);
    assert!(matches!(
        generate_virtual_tree_data(&options),
        Err(data_generator::OverflowError)
    ));

    let options = GenerateOptions::new(u32::MAX, 1, 1);
    assert!(matches!(
        generate_virtual_tree_data(&options),
        Err(data_generator::OverflowError)
    ));

    assert!(matches!(
        generate_tree_data_fast(u32::MAX),
        Err(data_generator::OverflowError)
    ));
}
