use efi_hda::command::Node;
use efi_hda::hda::PinConfig;
use efi_hda::node_map::NodeMap;
use efi_hda::graph::find_node;
use efi_hda::path::{
    contains_node, find_path_connection_index, get_path_next_node, hda_find_dac,
};
use efi_hda::widget::PathNode;

fn pin(node: u32, connections: &[u32]) -> PathNode {
    PathNode::PinComplex {
        node: Node(node),
        connections: connections.iter().map(|&n| Node(n)).collect(),
        select: 0,
        config: PinConfig::from(0),
        presence: None,
    }
}

fn input(node: u32, connections: &[u32]) -> PathNode {
    PathNode::AudioIn {
        node: Node(node),
        connections: connections.iter().map(|&n| Node(n)).collect(),
        select: 0,
    }
}

fn mixer(node: u32, connections: &[u32]) -> PathNode {
    PathNode::AudioMix {
        node: Node(node),
        connections: connections.iter().map(|&n| Node(n)).collect(),
        select: 0,
    }
}

fn dac(node: u32) -> PathNode {
    PathNode::AudioOut { node: Node(node) }
}

fn ids(path: Option<Vec<Node>>) -> Option<Vec<u32>> {
    path.map(|p| p.iter().map(|n| n.0).collect())
}

#[test]
fn find_dac_through_mixer() {
    let nodes = vec![pin(5, &[3, 4]), input(3, &[]), mixer(4, &[2]), dac(2)];
    assert_eq!(ids(hda_find_dac(&nodes, Node(5))), Some(vec![2, 4, 5]));
}

#[test]
fn find_dac_from_the_converter_itself() {
    let nodes = vec![pin(5, &[2]), dac(2)];
    assert_eq!(ids(hda_find_dac(&nodes, Node(2))), Some(vec![2]));
    assert_eq!(ids(hda_find_dac(&nodes, Node(5))), Some(vec![2, 5]));
}

#[test]
fn find_dac_terminates_on_cycles() {
    let nodes = vec![pin(5, &[3]), mixer(3, &[5, 3, 2]), dac(2)];
    assert_eq!(ids(hda_find_dac(&nodes, Node(5))), Some(vec![2, 3, 5]));
    let closed = vec![pin(5, &[3]), mixer(3, &[4]), mixer(4, &[5, 3])];
    assert_eq!(ids(hda_find_dac(&closed, Node(5))), None);
    let own = vec![pin(5, &[5])];
    assert_eq!(ids(hda_find_dac(&own, Node(5))), None);
}

#[test]
fn find_dac_visits_no_node_twice() {
    // a dense graph: every mixer names every other widget
    let all: Vec<u32> = (10..30).collect();
    let mut nodes = vec![pin(5, &all)];
    for n in 10..30 {
        nodes.push(mixer(n, &all));
    }
    nodes.push(mixer(29, &[2]));
    nodes.push(dac(2));
    let path = hda_find_dac(&nodes, Node(5)).unwrap();
    assert_eq!(ids(Some(path.clone())), Some(vec![2, 29, 5]));
    let mut seen = path.clone();
    seen.sort();
    seen.dedup();
    assert_eq!(seen.len(), path.len());
}

#[test]
fn find_dac_takes_the_nearest_converter() {
    // 7 is two hops away through the second connection, 2 three hops through the first
    let nodes =
        vec![pin(5, &[3, 4]), mixer(3, &[6]), mixer(6, &[2]), mixer(4, &[7]), dac(2), dac(7)];
    assert_eq!(ids(hda_find_dac(&nodes, Node(5))), Some(vec![7, 4, 5]));
}

#[test]
fn find_dac_breaks_ties_by_connection_order() {
    let nodes = vec![pin(5, &[3, 4]), mixer(3, &[7]), mixer(4, &[2]), dac(2), dac(7)];
    assert_eq!(ids(hda_find_dac(&nodes, Node(5))), Some(vec![7, 3, 5]));
    let swapped = vec![pin(5, &[4, 3]), mixer(3, &[7]), mixer(4, &[2]), dac(2), dac(7)];
    assert_eq!(ids(hda_find_dac(&swapped, Node(5))), Some(vec![2, 4, 5]));
}

#[test]
fn find_dac_drops_dangling_connections() {
    let nodes = vec![pin(5, &[9, 4]), mixer(4, &[8, 2]), dac(2)];
    assert_eq!(ids(hda_find_dac(&nodes, Node(5))), Some(vec![2, 4, 5]));
    let only_dangling = vec![pin(5, &[9])];
    assert_eq!(ids(hda_find_dac(&only_dangling, Node(5))), None);
}

#[test]
fn find_dac_unknown_start() {
    let nodes = vec![pin(5, &[2]), dac(2)];
    assert_eq!(ids(hda_find_dac(&nodes, Node(6))), None);
    assert_eq!(ids(hda_find_dac(&[], Node(0))), None);
}

#[test]
fn find_node_takes_the_last_of_a_name() {
    let nodes = vec![pin(5, &[2]), dac(2), mixer(5, &[2])];
    assert_eq!(find_node(&nodes, Node(5)), Some(2));
    assert_eq!(find_node(&nodes, Node(2)), Some(1));
    assert_eq!(find_node(&nodes, Node(3)), None);
}

#[test]
fn connection_index_is_the_first() {
    let nodes = vec![pin(5, &[3, 4, 3]), mixer(4, &[2]), dac(2)];
    assert_eq!(find_path_connection_index(&nodes, Node(5), Node(4)), Some(1));
    assert_eq!(find_path_connection_index(&nodes, Node(5), Node(3)), Some(0));
    assert_eq!(find_path_connection_index(&nodes, Node(5), Node(2)), None);
    assert_eq!(find_path_connection_index(&nodes, Node(2), Node(4)), None);
    assert_eq!(find_path_connection_index(&nodes, Node(9), Node(4)), None);
}

#[test]
fn path_next_node_stands_before() {
    let path = [Node(2), Node(4), Node(5)];
    assert_eq!(get_path_next_node(&path, Node(5)), Some(Node(4)));
    assert_eq!(get_path_next_node(&path, Node(4)), Some(Node(2)));
    assert_eq!(get_path_next_node(&path, Node(2)), None);
    assert_eq!(get_path_next_node(&path, Node(9)), None);
    assert_eq!(get_path_next_node(&[], Node(9)), None);
    assert_eq!(get_path_next_node(&[Node(1)], Node(1)), None);
    assert!(contains_node(&path, Node(4)));
    assert!(!contains_node(&path, Node(3)));
}

#[test]
fn node_map_inserts_and_replaces() {
    let mut map: NodeMap<u32> = NodeMap::new();
    assert!(map.is_empty());
    assert!(!map.contains_key(&Node(1)));
    assert_eq!(map.get(Node(1)), None);
    map.insert(&Node(1), 10);
    map.insert(&Node(2), 20);
    assert!(!map.is_empty());
    assert!(map.contains_key(&Node(1)));
    assert_eq!(map.get(Node(1)), Some(10));
    assert_eq!(map.get(Node(2)), Some(20));
    map.insert(&Node(1), 11);
    assert_eq!(map.get(Node(1)), Some(11));
    assert_eq!(map.get(Node(2)), Some(20));
    assert_eq!(map.get(Node(3)), None);
}
