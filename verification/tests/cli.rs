use node_ide::cli::{run_headless, sample_wired_graph};
use node_ide::runtime::graph::run_graph;

#[test]
fn cli_run_constant_headless() {
    assert_eq!(run_headless("constant", "hello", ""), Ok("hello".to_string()));
}

#[test]
fn cli_run_echo_headless() {
    assert_eq!(run_headless("echo", "hello", "world"), Ok("world".to_string()));
}

#[test]
fn cli_run_unknown_kind_is_refused() {
    assert_eq!(run_headless("json_constant", "{}", ""), Err("unknown node kind: json_constant".to_string()));
}

#[test]
fn sample_graph_runs_to_the_wired_value() {
    let (mut nodes, edges) = sample_wired_graph();
    assert_eq!(f64::from_bits(nodes[1].position.x_bits), 200.0);
    assert_eq!(f64::from_bits(nodes[0].position.y_bits), 0.0);
    let result = run_graph(&mut nodes, &edges).unwrap();
    assert_eq!(result.node_results[1].output, "wired");
    assert_eq!(result.deliveries[0].edge_id, edges[0].id);
}
