use fire_compiler::compiler;
use fire_compiler::compiler::{CodeBlock, CompileError, ErrorType, EventLine, FunctionLine, TagItem, ValueItem};
use fire_compiler::resources::ResourceLoc;

fn variable(name: &str) -> ValueItem {
    ValueItem::Varible(String::from(name))
}

fn number(n: f64) -> ValueItem {
    ValueItem::Number(format!("{}", n))
}

fn tag(option: &str, tag: &str, action: &str, block: &str) -> TagItem {
    TagItem {
        option: String::from(option),
        tag: String::from(tag),
        action: String::from(action),
        block: String::from(block),
    }
}

fn set_var_block() -> CodeBlock {
    CodeBlock {
        id: String::from("block"),
        block: String::from("set_var"),
        args: vec![variable("variable"), ValueItem::String(String::from("this is a string"))],
        tags: vec![],
        target: None,
        action: String::from("="),
    }
}

fn send_message_block(target: Option<&str>) -> CodeBlock {
    CodeBlock {
        id: String::from("block"),
        block: String::from("player_action"),
        args: vec![variable("variable")],
        tags: vec![
            tag("Add spaces", "Text Value Merging", "SendMessage", "player_action"),
            tag("Centered", "Alignment Mode", "SendMessage", "player_action"),
        ],
        target: target.map(String::from),
        action: String::from("SendMessage"),
    }
}

const SET_VAR_JSON: &str = r#"{"id":"block","block":"set_var","args":{"items":[{"item":{"id":"var","data":{"name":"variable","scope":"local"}},"slot":0},{"item":{"id":"txt","data":{"name":"this is a string"}},"slot":1}]},"action":"="}"#;

#[test]
fn test_codeblock() {

    let set_var = compiler::CodeBlock { // Create SetVar Block
        id: String::from("block"),
        block: String::from("set_var"),
        args: vec![compiler::ValueItem::Varible(String::from("variable")), compiler::ValueItem::String(String::from("this is a string"))],
        tags: vec![],
        target: None,
        action: String::from("=")
    };

    let text_value_merging = compiler::TagItem { //Create tag "Text Value Merging"
        option: String::from("Add spaces"),
        tag: String::from("Text Value Merging"),
        action: String::from("SendMessage"),
        block: String::from("player_action")
    };

    let alignment_mode = compiler::TagItem { //Create tag "Alignment Mode"
        option: String::from("Centered"),
        tag: String::from("Alignment Mode"),
        action: String::from("SendMessage"),
        block: String::from("player_action")
    };

    let send_message = compiler::CodeBlock { //Create SendMessage Block
        id: String::from("block"),
        block: String::from("player_action"),
        args: vec![compiler::ValueItem::Varible(String::from("variable"))],
        tags: vec![text_value_merging, alignment_mode],
        target: None,
        action: String::from("SendMessage")
    };

    let is_hidden = compiler::TagItem { //Create tag "Is Hidden"
        option: String::from("False"),
        tag: String::from("Is Hidden"),
        action: String::from("dynamic"),
        block: String::from("func")
    };

    let line = compiler::FunctionLine {  // Create Function with other blocks
        args: vec![compiler::ValueItem::Number(format!("{}", 2f64))],
        blocks: vec![set_var, send_message],
        tags: vec![is_hidden],
        name: String::from("func")
    };
    assert!(line.is_wf());
    let function = line.to_json();

    println!(r#"{{"blocks":[{}]}}"#, function); // Output (with the "blocks" key)
    assert_eq!(
        function,
        String::from(r#"{"id":"block","block":"func","args":{"items":[{"item":{"id":"num","data":{"name":"2"}},"slot":0},{"item":{"id":"bl_tag","data":{"option":"False","tag":"Is Hidden","action":"dynamic","block":"func"}},"slot":26}]},"data":"func"},"#)
            + SET_VAR_JSON
            + r#",{"id":"block","block":"player_action","args":{"items":[{"item":{"id":"var","data":{"name":"variable","scope":"local"}},"slot":0},{"item":{"id":"bl_tag","data":{"option":"Add spaces","tag":"Text Value Merging","action":"SendMessage","block":"player_action"}},"slot":25},{"item":{"id":"bl_tag","data":{"option":"Centered","tag":"Alignment Mode","action":"SendMessage","block":"player_action"}},"slot":26}]},"action":"SendMessage","target":"Selection"}"#
    );
}

#[test]
fn value_items() {
    assert_eq!(number(2f64).to_json(), r#""item":{"id":"num","data":{"name":"2"}}"#);
    assert_eq!(number(1.25f64).to_json(), r#""item":{"id":"num","data":{"name":"1.25"}}"#);
    assert_eq!(
        ValueItem::String(String::from("hi")).to_json(),
        r#""item":{"id":"txt","data":{"name":"hi"}}"#
    );
    assert_eq!(
        variable("x").to_json(),
        r#""item":{"id":"var","data":{"name":"x","scope":"local"}}"#
    );
}

#[test]
fn tag_items() {
    assert_eq!(
        tag("False", "Is Hidden", "dynamic", "func").to_json(),
        r#""item":{"id":"bl_tag","data":{"option":"False","tag":"Is Hidden","action":"dynamic","block":"func"}}"#
    );
}

#[test]
fn a_block_without_items() {
    let block = CodeBlock {
        id: String::from("block"),
        block: String::from("control"),
        args: vec![],
        tags: vec![],
        target: Some(String::from("AllPlayers")),
        action: String::from("Wait"),
    };
    assert!(block.is_wf());
    // a block of this kind takes no target, so none is written
    assert_eq!(
        block.to_json(),
        r#"{"id":"block","block":"control","args":{"items":[]},"action":"Wait"}"#
    );
}

#[test]
fn a_block_with_values_only() {
    assert_eq!(set_var_block().to_json(), SET_VAR_JSON);
}

#[test]
fn a_block_with_tags_only() {
    let block = CodeBlock {
        id: String::from("block"),
        block: String::from("set_var"),
        args: vec![],
        tags: vec![tag("A", "T", "=", "set_var")],
        target: None,
        action: String::from("="),
    };
    assert_eq!(
        block.to_json(),
        r#"{"id":"block","block":"set_var","args":{"items":[{"item":{"id":"bl_tag","data":{"option":"A","tag":"T","action":"=","block":"set_var"}},"slot":26}]},"action":"="}"#
    );
}

#[test]
fn the_four_kinds_that_act_on_actors_name_a_target() {
    for kind in ["player_action", "entity_action", "if_player", "if_entity"] {
        let mut block = CodeBlock {
            id: String::from("block"),
            block: String::from(kind),
            args: vec![],
            tags: vec![],
            target: None,
            action: String::from("Act"),
        };
        assert_eq!(
            block.to_json(),
            format!(r#"{{"id":"block","block":"{}","args":{{"items":[]}},"action":"Act","target":"Selection"}}"#, kind)
        );
        block.target = Some(String::from("AllPlayers"));
        assert_eq!(
            block.to_json(),
            format!(r#"{{"id":"block","block":"{}","args":{{"items":[]}},"action":"Act","target":"AllPlayers"}}"#, kind)
        );
    }
    for kind in ["set_var", "func", "event", "player_actions", "if_var", ""] {
        let block = CodeBlock {
            id: String::from("block"),
            block: String::from(kind),
            args: vec![],
            tags: vec![],
            target: Some(String::from("AllPlayers")),
            action: String::from("Act"),
        };
        assert!(!block.to_json().contains("target"));
    }
}

/// The slot numbers in `json`, in the order in which they stand there,
/// each with whether its item is a tag.
fn slots(json: &str) -> Vec<(bool, usize)> {
    let mut found = Vec::new();
    let mut rest = json;
    while let Some(at) = rest.find(r#","slot":"#) {
        let before = &rest[..at];
        let item_start = before.rfind(r#"{"item":{"id":""#).unwrap();
        let is_tag = before[item_start..].starts_with(r#"{"item":{"id":"bl_tag""#);
        let after = &rest[at + 8..];
        let end = after.find('}').unwrap();
        found.push((is_tag, after[..end].parse::<usize>().unwrap()));
        rest = &after[end..];
    }
    found
}

#[test]
fn values_fill_the_row_from_the_left_and_tags_from_the_right() {
    for k in 0..=27usize {
        for m in 0..=(27 - k) {
            let block = CodeBlock {
                id: String::from("block"),
                block: String::from("set_var"),
                args: (0..k).map(|i| ValueItem::Number(format!("{}", i))).collect(),
                tags: (0..m).map(|j| tag(&format!("o{}", j), "t", "a", "b")).collect(),
                target: None,
                action: String::from("="),
            };
            assert!(block.is_wf());
            let found = slots(&block.to_json());
            let mut expected: Vec<(bool, usize)> = (0..k).map(|i| (false, i)).collect();
            expected.extend((0..m).map(|j| (true, 27 - m + j)));
            assert_eq!(found, expected, "k = {}, m = {}", k, m);
            let mut seen = [false; 27];
            for (_, slot) in found {
                assert!(!seen[slot]);
                seen[slot] = true;
            }
        }
    }
}

#[test]
fn a_row_with_too_many_items_cannot_be_written() {
    let block = CodeBlock {
        id: String::from("block"),
        block: String::from("set_var"),
        args: (0..20).map(|i| ValueItem::Number(format!("{}", i))).collect(),
        tags: (0..8).map(|_| tag("o", "t", "a", "b")).collect(),
        target: None,
        action: String::from("="),
    };
    assert!(!block.is_wf());
    let line = EventLine { blocks: vec![set_var_block(), block], event: String::from("Join") };
    assert!(!line.is_wf());
    let line = FunctionLine {
        args: (0..28).map(|i| ValueItem::Number(format!("{}", i))).collect(),
        blocks: vec![],
        tags: vec![],
        name: String::from("f"),
    };
    assert!(!line.is_wf());
}

#[test]
fn the_join_event() {
    let line = EventLine {
        blocks: vec![set_var_block(), send_message_block(Some("AllPlayers"))],
        event: String::from("Join"),
    };
    assert!(line.is_wf());
    let json = line.to_json();
    let second = r#"{"id":"block","block":"player_action","args":{"items":[{"item":{"id":"var","data":{"name":"variable","scope":"local"}},"slot":0},{"item":{"id":"bl_tag","data":{"option":"Add spaces","tag":"Text Value Merging","action":"SendMessage","block":"player_action"}},"slot":25},{"item":{"id":"bl_tag","data":{"option":"Centered","tag":"Alignment Mode","action":"SendMessage","block":"player_action"}},"slot":26}]},"action":"SendMessage","target":"AllPlayers"}"#;
    assert_eq!(
        json,
        String::from(r#"{"id":"block","block":"event","args":{"items":[]},"action":"Join"},"#)
            + SET_VAR_JSON
            + ","
            + second
    );
    assert!(second.contains(r#""target":"AllPlayers""#));
    assert_eq!(slots(second), vec![(false, 0), (true, 25), (true, 26)]);
}

#[test]
fn an_event_without_blocks() {
    let line = EventLine { blocks: vec![], event: String::from("Leave") };
    assert_eq!(
        line.to_json(),
        r#"{"id":"block","block":"event","args":{"items":[]},"action":"Leave"}"#
    );
}

#[test]
fn a_function_without_anything() {
    let line = FunctionLine { args: vec![], blocks: vec![], tags: vec![], name: String::from("f") };
    assert_eq!(line.to_json(), r#"{"id":"block","block":"func","args":{"items":[]},"data":"f"}"#);
}

#[test]
fn error_reports() {
    let loc = ResourceLoc::new().with(String::from("std")).with(String::from("operators"));
    let e = CompileError::new(ErrorType::InvalidTokenError, loc, 12, 345, "unexpected");
    assert_eq!(e.error_type, ErrorType::InvalidTokenError);
    assert_eq!(e.info, "unexpected");
    assert_eq!(e.line_num, 12);
    assert_eq!(e.line_index, 345);
    assert_eq!(e.to_string(), "Exception occured at 12:345 in std::operators:\n345");
    let e = CompileError::new(ErrorType::InternalError, ResourceLoc::new(), 0, 10, "");
    assert_eq!(e.to_string(), "Exception occured at 0:10 in :\n10");
    let e = CompileError::new(ErrorType::InvalidNumError, ResourceLoc::new(), usize::MAX, 1, "");
    assert_eq!(
        e.to_string(),
        format!("Exception occured at {}:1 in :\n1", usize::MAX)
    );
}
