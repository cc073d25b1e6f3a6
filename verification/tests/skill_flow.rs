use kimi_cli_rs::skill::flow::d2::parse_d2_flowchart;
use kimi_cli_rs::skill::flow::mermaid::{parse_mermaid_flowchart, parse_node_token, try_parse_mermaid_flowchart};
use kimi_cli_rs::skill::flow::FlowNodeKind;

#[test]
fn parse_simple_d2() {
    let text = r#"
            begin: "begin"
            task1: "Do something"
            end: "end"
            begin -> task1 -> end
        "#;
    let flow = parse_d2_flowchart(text).expect("should parse");
    assert_eq!(flow.nodes.len(), 3);
    assert!(flow.begin_id.is_some());
    assert!(flow.end_id.is_some());
}

#[test]
fn parse_d2_decision() {
    let text = r#"
            begin -> check
            check -> path_a
            check -> path_b
            path_a -> end
            path_b -> end
        "#;
    let flow = parse_d2_flowchart(text).expect("should parse");
    let check = flow.node("check").unwrap();
    assert!(matches!(check.kind, FlowNodeKind::Decision));
}

#[test]
fn parse_simple_mermaid() {
    let text = r#"
            flowchart TD
            A[begin] --> B[Do something]
            B --> C[end]
        "#;
    let flow = parse_mermaid_flowchart(text).expect("should parse");
    assert_eq!(flow.nodes.len(), 3);
    assert!(flow.begin_id.is_some());
    assert!(flow.end_id.is_some());
}

#[test]
fn debug_mermaid_node() {
    let spec = parse_node_token("A[begin]", 0, 1).unwrap().0;
    assert_eq!(spec.node_id, "A");
    assert_eq!(spec.label, Some("begin".to_string()));
}

#[test]
fn parse_mermaid_decision() {
    let text = r#"
            flowchart TD
            A[begin] --> B{Check}
            B -->|Yes| C[Path A]
            B -->|No| D[Path B]
            C --> E[end]
            D --> E[end]
        "#;
    let flow = parse_mermaid_flowchart(text).expect("should parse");
    let check = flow.node("B").unwrap();
    assert!(matches!(check.kind, FlowNodeKind::Decision));
}

#[test]
fn mermaid_comments_may_hold_any_text() {
    let text = "flowchart TD %% schéma\nA[begin] --> B[Do something] %% étape\nB --> C[end]\n";
    let flow = try_parse_mermaid_flowchart(text).expect("supported").expect("should parse");
    assert_eq!(flow.nodes.len(), 3);
    assert!(try_parse_mermaid_flowchart("A[café] --> B").is_none());
}
