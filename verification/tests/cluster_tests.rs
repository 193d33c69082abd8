use node_test_kit::cluster::ClusterNode;
use node_test_kit::cluster::NodeStartupConfig;
use node_test_kit::cluster::SubstratumNodeCluster;
use node_test_kit::cluster::network_listed;
use node_test_kit::cluster::parse_container_ids;
use node_test_kit::utils::node_home_directory;

fn standard_config() -> NodeStartupConfig {
    NodeStartupConfig { neighbors: vec![] }
}

#[test]
fn indices_and_names_are_assigned_in_order() {
    let mut cluster = SubstratumNodeCluster::new(None);
    assert_eq!(cluster.next_index(), 1);

    let real = cluster.start_real_node(standard_config());
    assert_eq!(real.name, "test_node_1");
    assert_eq!(real.index, 1);

    let mock = cluster.start_mock_node(vec![10000]);
    assert_eq!(mock.name, "test_node_2");
    assert_eq!(mock.index, 2);
    assert_eq!(mock.ports, vec![10000]);

    assert_eq!(cluster.next_index(), 3);
}

#[test]
fn nodes_are_found_by_name() {
    let mut cluster = SubstratumNodeCluster::new(Some("/host/dir".to_string()));
    let real = cluster.start_real_node(standard_config());
    let mock = cluster.start_mock_node(vec![10000, 10001]);

    let found_real = cluster.get_real_node_by_name(&real.name).unwrap();
    assert_eq!(found_real.index, real.index);
    assert!(cluster.get_real_node_by_name(&mock.name).is_none());

    let found_mock = cluster.get_mock_node_by_name(&mock.name).unwrap();
    assert_eq!(found_mock.ports, vec![10000, 10001]);

    match cluster.get_node_by_name(&real.name).unwrap() {
        ClusterNode::Real(n) => assert_eq!(n.name, "test_node_1"),
        ClusterNode::Mock(_) => panic!("expected the real node"),
    }
    match cluster.get_node_by_name(&mock.name).unwrap() {
        ClusterNode::Mock(n) => assert_eq!(n.name, "test_node_2"),
        ClusterNode::Real(_) => panic!("expected the mock node"),
    }
    assert!(cluster.get_node_by_name("test_node_9").is_none());
}

#[test]
fn running_node_names_lists_real_nodes_first() {
    let mut cluster = SubstratumNodeCluster::new(None);
    let _mock = cluster.start_mock_node(vec![]);
    let _real = cluster.start_real_node(standard_config());

    let names = cluster.running_node_names();
    assert_eq!(names, vec!["test_node_2".to_string(), "test_node_1".to_string()]);
}

#[test]
fn stop_node_removes_exactly_the_named_node() {
    let mut cluster = SubstratumNodeCluster::new(None);
    let real = cluster.start_real_node(standard_config());
    let mock = cluster.start_mock_node(vec![]);

    cluster.stop_node(&real.name);
    assert!(cluster.get_real_node_by_name(&real.name).is_none());
    assert!(cluster.get_mock_node_by_name(&mock.name).is_some());

    cluster.stop_node(&mock.name);
    assert!(cluster.get_mock_node_by_name(&mock.name).is_none());
    assert_eq!(cluster.running_node_names().len(), 0);
}

#[test]
fn stop_surrenders_every_running_name() {
    let mut cluster = SubstratumNodeCluster::new(None);
    let _one = cluster.start_real_node(standard_config());
    let _two = cluster.start_mock_node(vec![]);
    let names = cluster.stop();
    assert_eq!(names, vec!["test_node_1".to_string(), "test_node_2".to_string()]);
}

#[test]
fn parse_container_ids_takes_the_nonempty_lines() {
    let ids = parse_container_ids("abc123\n\ndef456\n");
    assert_eq!(ids, vec!["abc123".to_string(), "def456".to_string()]);
    assert_eq!(parse_container_ids(""), Vec::<String>::new());
    assert_eq!(parse_container_ids("\n\n"), Vec::<String>::new());
    assert_eq!(parse_container_ids("solo"), vec!["solo".to_string()]);
}

#[test]
fn network_listed_detects_the_integration_network() {
    let listing = "NETWORK ID     NAME              DRIVER\nabc            integration_net   bridge\n";
    assert!(network_listed(listing));
    assert!(!network_listed("NETWORK ID     NAME      DRIVER\n"));
}

#[test]
fn node_home_directory_builds_the_exact_path() {
    assert_eq!(
        node_home_directory("cluster_tests", "my_test"),
        "generated/test/cluster_tests/my_test/home"
    );
}
