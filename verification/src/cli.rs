use vstd::prelude::*;

use crate::runtime::edge::{Edge, PORT_IN, PORT_OUT};
use crate::runtime::lifecycle::{Lifecycle, LifecycleMode};
use crate::runtime::node::{NodeInstance, NodeKind, Position};
use crate::runtime::protocol::presets::{default_decl_for, str_eq};

verus! {

/// The command line: one subcommand.
pub struct Cli {
    pub command: Commands,
}

/// The subcommands of the command line.
pub enum Commands {
    /// Run a built-in node headlessly (ignores graph wiring).
    Run { kind: String, value: String, input: String },
    /// Run the persisted graph headlessly.
    RunGraph,
    /// Print the persisted project state.
    State,
    /// Dry-run the migrations on the project file.
    Migrate,
}

/// What a headless run prints: a constant's value, an echo's input, or the
/// refusal of another kind.
pub open spec fn headless_output(kind: Seq<char>, value: Seq<char>, input: Seq<char>) -> Result<Seq<char>, Seq<char>> {
    if kind == "constant"@ {
        Ok(value)
    } else if kind == "echo"@ {
        Ok(input)
    } else {
        Err("unknown node kind: "@ + kind)
    }
}

pub open spec fn text_result(r: Result<String, String>) -> Result<Seq<char>, Seq<char>> {
    match r {
        Ok(s) => Ok(s@),
        Err(m) => Err(m@),
    }
}

/// Runs a fresh node of the kind once, with no wiring, and returns its output.
pub fn run_headless(kind: &str, value: &str, input: &str) -> (r: Result<String, String>)
    ensures
        text_result(r) == headless_output(kind@, value@, input@),
{
    let node_kind = if str_eq(kind, "constant") {
        NodeKind::Constant { value: value.to_owned() }
    } else if str_eq(kind, "echo") {
        NodeKind::Echo { input: input.to_owned() }
    } else {
        return Err(String::from_str("unknown node kind: ").concat(kind));
    };
    let mut node = NodeInstance::new(node_kind, None);
    match node.run(None) {
        Ok(result) => Ok(result.output),
        Err(e) => Err(e.message()),
    }
}

/// The bit pattern of the double 200.0.
pub const TWO_HUNDRED_BITS: u64 = 0x4069_0000_0000_0000u64;

/// A Constant → Echo graph in memory: a constant "wired" at (0, 0), an echo
/// with input "fallback" at (200, 0), and an edge from the constant's `out`
/// to the echo's `in`.
pub fn sample_wired_graph() -> (g: (Vec<NodeInstance>, Vec<Edge>))
    ensures
        g.0@.len() == 2,
        g.1@.len() == 1,
        (g.0@[0].kind matches NodeKind::Constant { value } && value@ == "wired"@),
        (g.0@[1].kind matches NodeKind::Echo { input } && input@ == "fallback"@),
        g.0@[0].position == (Position { x_bits: 0, y_bits: 0 }),
        g.0@[1].position == (Position { x_bits: TWO_HUNDRED_BITS, y_bits: 0 }),
        forall|i: int| 0 <= i < 2 ==> {
            &&& (#[trigger] g.0@[i]).lifecycle == Lifecycle::Idle
            &&& g.0@[i].lifecycle_mode == LifecycleMode::Ephemeral
            &&& g.0@[i].last_output is None
            &&& forall|k: Seq<char>| #[trigger] g.0@[i].port_decls.decl(k) == default_decl_for(g.0@[i].kind, k)
        },
        g.1@[0].source_node_id == g.0@[0].id,
        g.1@[0].source_port@ == "out"@,
        g.1@[0].target_node_id == g.0@[1].id,
        g.1@[0].target_port@ == "in"@,
{
    let constant = NodeInstance::new(
        NodeKind::Constant { value: String::from_str("wired") },
        Some(Position { x_bits: 0, y_bits: 0 }),
    );
    let echo = NodeInstance::new(
        NodeKind::Echo { input: String::from_str("fallback") },
        Some(Position { x_bits: TWO_HUNDRED_BITS, y_bits: 0 }),
    );
    let edge = Edge::new(constant.id, String::from_str(PORT_OUT), echo.id, String::from_str(PORT_IN));
    proof {
        reveal_strlit("out");
        reveal_strlit("in");
    }
    let nodes = vec![constant, echo];
    let edges = vec![edge];
    (nodes, edges)
}

} // verus!
