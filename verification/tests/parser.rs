use proprompter::xml::apply::{apply_modifications, ApplyError};
use proprompter::xml::change::{Change, ChangeAction, ChangeResult, FileChange};
use proprompter::xml::error::ProtocolError;
use proprompter::xml::event::{digest, file_header, parse_action, Field, ParseEvent};
use proprompter::xml::parser::{collect_file_changes, parse_xml_diff, ParserState};
use proprompter::xml::reader::XmlToken;

fn modify_foo_bar() -> &'static str {
    "<file path=\"a.txt\" action=\"modify\"><change><search>===\nfoo\n===</search><content>===\nbar\n===</content></change></file>"
}

#[test]
fn modify_scenario_replaces_the_search_text() {
    let changes = parse_xml_diff(modify_foo_bar()).unwrap();
    assert_eq!(
        changes,
        vec![FileChange {
            path: "a.txt".to_string(),
            action: ChangeAction::Modify,
            changes: vec![Change {
                description: String::new(),
                search: Some("foo".to_string()),
                content: "bar".to_string(),
            }],
        }]
    );
    let text = apply_modifications("foo baz", &changes[0]);
    assert_eq!(text, Ok("bar baz".to_string()));
    let result = ChangeResult::of(&changes[0], None);
    assert_eq!(
        result,
        ChangeResult {
            path: "a.txt".to_string(),
            action: ChangeAction::Modify,
            success: true,
            message: None,
        }
    );
}

#[test]
fn modify_scenario_fails_where_the_search_text_is_absent() {
    let changes = parse_xml_diff(modify_foo_bar()).unwrap();
    let outcome = apply_modifications("qux", &changes[0]);
    assert_eq!(outcome, Err(ApplyError::SearchNotFound("a.txt".to_string())));
    let words = outcome.unwrap_err().message();
    assert_eq!(words, "Search text not found in file: a.txt");
    let result = ChangeResult::of(&changes[0], Some(&words));
    assert!(!result.success);
    assert_eq!(result.path, "a.txt");
    assert_eq!(result.action, ChangeAction::Modify);
    assert!(result.message.clone().unwrap().contains("not found"));
    assert_eq!(
        result.message,
        Some("Error: Search text not found in file: a.txt".to_string())
    );
}

#[test]
fn unknown_action_is_refused_and_named() {
    let outcome = parse_xml_diff("<file path=\"a.txt\" action=\"replace\"></file>");
    assert_eq!(outcome, Err(ProtocolError::InvalidAction("replace".to_string())));
    assert_eq!(outcome.unwrap_err().message(), "Invalid action: replace");
}

#[test]
fn action_names_are_case_sensitive() {
    assert_eq!(parse_action("create"), Some(ChangeAction::Create));
    assert_eq!(parse_action("rewrite"), Some(ChangeAction::Rewrite));
    assert_eq!(parse_action("modify"), Some(ChangeAction::Modify));
    assert_eq!(parse_action("delete"), Some(ChangeAction::Delete));
    assert_eq!(parse_action("Create"), None);
    assert_eq!(parse_action(""), None);
    assert_eq!(
        parse_xml_diff("<file path=\"a\" action=\"Modify\"></file>"),
        Err(ProtocolError::InvalidAction("Modify".to_string()))
    );
}

#[test]
fn missing_action_is_refused() {
    assert_eq!(parse_xml_diff("<file path=\"a.txt\"></file>"), Err(ProtocolError::MissingAction));
    assert_eq!(ProtocolError::MissingAction.message(), "Missing action");
}

#[test]
fn missing_path_is_empty() {
    let changes = parse_xml_diff("<file action=\"delete\"></file>").unwrap();
    assert_eq!(
        changes,
        vec![FileChange { path: String::new(), action: ChangeAction::Delete, changes: vec![] }]
    );
}

#[test]
fn documented_example_is_read() {
    let xml = "<Plan>\n  <file path=\"src/app.ts\" action=\"modify\">\n    <change>\n      <description>explanatory text</description>\n      <search>\n===\nold text\n===\n      </search>\n      <content>\n===\nnew text\n===\n      </content>\n    </change>\n  </file>\n</Plan>\n";
    let changes = parse_xml_diff(xml).unwrap();
    assert_eq!(
        changes,
        vec![FileChange {
            path: "src/app.ts".to_string(),
            action: ChangeAction::Modify,
            changes: vec![Change {
                description: "explanatory text".to_string(),
                search: Some("old text".to_string()),
                content: "new text".to_string(),
            }],
        }]
    );
}

#[test]
fn files_come_in_document_order() {
    let xml = "<Plan><file path=\"one\" action=\"create\"><change><content>1</content></change></file><file path=\"two\" action=\"delete\"></file><file path=\"three\" action=\"rewrite\"><change><content>3</content></change><change><content>4</content></change></file></Plan>";
    let changes = parse_xml_diff(xml).unwrap();
    assert_eq!(changes.len(), 3);
    assert_eq!(changes[0].path, "one");
    assert_eq!(changes[0].action, ChangeAction::Create);
    assert_eq!(changes[0].changes.len(), 1);
    assert_eq!(changes[0].changes[0].content, "1");
    assert_eq!(changes[0].changes[0].search, None);
    assert_eq!(changes[1].path, "two");
    assert_eq!(changes[1].action, ChangeAction::Delete);
    assert!(changes[1].changes.is_empty());
    assert_eq!(changes[2].path, "three");
    assert_eq!(changes[2].changes.len(), 2);
    assert_eq!(changes[2].changes[1].content, "4");
}

#[test]
fn empty_document_holds_no_file() {
    assert_eq!(parse_xml_diff(""), Ok(vec![]));
    assert_eq!(parse_xml_diff("   \n "), Ok(vec![]));
    assert_eq!(parse_xml_diff("<Plan></Plan>"), Ok(vec![]));
}

#[test]
fn unterminated_elements_are_dropped() {
    assert_eq!(parse_xml_diff("<file path=\"a\" action=\"delete\">"), Ok(vec![]));
    let xml = "<file path=\"a\" action=\"delete\"></file><file path=\"b\" action=\"modify\"><change><search>x</search>";
    let changes = parse_xml_diff(xml).unwrap();
    assert_eq!(changes.len(), 1);
    assert_eq!(changes[0].path, "a");
}

#[test]
fn a_self_closing_file_is_a_file_change_without_changes() {
    assert_eq!(
        parse_xml_diff("<file path=\"a.txt\" action=\"delete\"/>"),
        Ok(vec![FileChange {
            path: "a.txt".to_string(),
            action: ChangeAction::Delete,
            changes: vec![],
        }])
    );
    assert_eq!(
        parse_xml_diff("<Plan><file path=\"a\" action=\"delete\"/></Plan>").unwrap().len(),
        1
    );
}

#[test]
fn self_closing_and_paired_files_come_in_document_order() {
    let xml = "<Plan><file path=\"one\" action=\"delete\"/><file path=\"two\" action=\"create\"><change><content>2</content></change></file><file action=\"delete\" path=\"three\" /><file path=\"four\" action=\"rewrite\"></file></Plan>";
    let changes = parse_xml_diff(xml).unwrap();
    let headers: Vec<(String, ChangeAction)> =
        changes.iter().map(|c| (c.path.clone(), c.action)).collect();
    assert_eq!(
        headers,
        vec![
            ("one".to_string(), ChangeAction::Delete),
            ("two".to_string(), ChangeAction::Create),
            ("three".to_string(), ChangeAction::Delete),
            ("four".to_string(), ChangeAction::Rewrite),
        ]
    );
    assert!(changes[0].changes.is_empty());
    assert_eq!(changes[1].changes.len(), 1);
}

#[test]
fn a_self_closing_file_is_held_to_its_attributes() {
    assert_eq!(
        parse_xml_diff("<file path=\"a\" action=\"replace\"/>"),
        Err(ProtocolError::InvalidAction("replace".to_string()))
    );
    assert_eq!(parse_xml_diff("<file path=\"a\"/>"), Err(ProtocolError::MissingAction));
    assert_eq!(parse_xml_diff("<file path=a action=\"delete\"/>"), Err(ProtocolError::Attribute));
}

#[test]
fn a_self_closing_change_is_an_empty_change() {
    let xml = "<file path=\"a\" action=\"modify\"><change/><change><search/><content>c</content></change></file>";
    let changes = parse_xml_diff(xml).unwrap();
    assert_eq!(
        changes[0].changes,
        vec![
            Change { description: String::new(), search: None, content: String::new() },
            Change { description: String::new(), search: None, content: "c".to_string() },
        ]
    );
    assert_eq!(parse_xml_diff("<Plan/>"), Ok(vec![]));
    assert_eq!(parse_xml_diff("<change/>"), Ok(vec![]));
}

#[test]
fn a_self_closing_file_inside_an_open_one_takes_its_place() {
    let xml = "<file path=\"outer\" action=\"delete\"><file path=\"inner\" action=\"create\"/></file>";
    let changes = parse_xml_diff(xml).unwrap();
    assert_eq!(changes.len(), 1);
    assert_eq!(changes[0].path, "inner");
}

#[test]
fn mismatched_end_tag_is_malformed() {
    let outcome = parse_xml_diff("<file path=\"a\" action=\"delete\"></change>");
    match outcome {
        Err(ProtocolError::Markup(words)) => {
            assert!(!words.is_empty());
            let message = ProtocolError::Markup(words.clone()).message();
            assert_eq!(message, format!("Error parsing XML: {}", words));
        }
        other => panic!("unexpected outcome: {:?}", other),
    }
}

#[test]
fn an_error_before_a_malformed_place_wins() {
    let outcome = parse_xml_diff("<file path=\"a\" action=\"bad\"></wrong>");
    assert_eq!(outcome, Err(ProtocolError::InvalidAction("bad".to_string())));
}

#[test]
fn malformed_attribute_of_a_file_is_refused() {
    assert_eq!(
        parse_xml_diff("<file path=a.txt action=\"delete\"></file>"),
        Err(ProtocolError::Attribute)
    );
    assert_eq!(
        parse_xml_diff("<file path=\"a\" path=\"b\" action=\"delete\"></file>"),
        Err(ProtocolError::Attribute)
    );
    assert_eq!(ProtocolError::Attribute.message(), "Invalid XML attribute");
}

#[test]
fn malformed_attribute_elsewhere_is_passed_over() {
    let changes =
        parse_xml_diff("<file path=\"a\" action=\"delete\"><change note=x></change></file>")
            .unwrap();
    assert_eq!(changes.len(), 1);
    assert_eq!(changes[0].changes.len(), 1);
}

#[test]
fn the_first_bad_attribute_decides() {
    assert_eq!(
        parse_xml_diff("<file action=\"bad\" path=x></file>"),
        Err(ProtocolError::InvalidAction("bad".to_string()))
    );
    assert_eq!(
        parse_xml_diff("<file path=x action=\"bad\"></file>"),
        Err(ProtocolError::Attribute)
    );
}

#[test]
fn references_are_resolved() {
    let xml = "<file path=\"a&amp;b\" action=\"create\"><change><description>x &lt; y</description><content>if a &lt; b &amp;&amp; c &gt; d { &quot;q&quot; &#65; }</content></change></file>";
    let changes = parse_xml_diff(xml).unwrap();
    assert_eq!(changes[0].path, "a&b");
    assert_eq!(changes[0].changes[0].description, "x < y");
    assert_eq!(changes[0].changes[0].content, "if a < b && c > d { \"q\" A }");
}

#[test]
fn unknown_reference_in_text_is_refused() {
    assert_eq!(
        parse_xml_diff("<Plan>a &bogus; b</Plan>"),
        Err(ProtocolError::Text)
    );
    assert_eq!(ProtocolError::Text.message(), "Failed to unescape XML text");
}

#[test]
fn unknown_reference_in_attribute_value_is_refused() {
    assert_eq!(
        parse_xml_diff("<file note=\"&bogus;\" action=\"delete\"></file>"),
        Err(ProtocolError::AttributeValue)
    );
    assert_eq!(ProtocolError::AttributeValue.message(), "Failed to decode attribute value");
}

#[test]
fn text_outside_a_change_is_dropped() {
    let xml = "<file path=\"a\" action=\"modify\"><search>lost</search><change></change></file>";
    let changes = parse_xml_diff(xml).unwrap();
    assert_eq!(changes[0].changes, vec![Change {
        description: String::new(),
        search: None,
        content: String::new(),
    }]);
}

#[test]
fn later_file_replaces_one_that_is_still_open() {
    let xml = "<file path=\"outer\" action=\"delete\"><file path=\"inner\" action=\"create\"></file></file>";
    let changes = parse_xml_diff(xml).unwrap();
    assert_eq!(changes.len(), 1);
    assert_eq!(changes[0].path, "inner");
}

#[test]
fn text_is_trimmed_before_it_is_taken() {
    let xml = "<file path=\"a\" action=\"create\"><change><content>\n   plain text  \n</content></change></file>";
    let changes = parse_xml_diff(xml).unwrap();
    assert_eq!(changes[0].changes[0].content, "plain text");
}

#[test]
fn digest_names_the_elements() {
    let start = |name: &str| XmlToken::Start { name: name.to_string(), attributes: String::new() };
    let end = |name: &str| XmlToken::End { name: name.to_string() };
    assert_eq!(digest(&start("change")), Ok(ParseEvent::ChangeOpened));
    assert_eq!(digest(&start("description")), Ok(ParseEvent::FieldOpened(Field::Description)));
    assert_eq!(digest(&start("search")), Ok(ParseEvent::FieldOpened(Field::Search)));
    assert_eq!(digest(&start("content")), Ok(ParseEvent::FieldOpened(Field::Content)));
    assert_eq!(digest(&start("Plan")), Ok(ParseEvent::Other));
    assert_eq!(digest(&start("File")), Ok(ParseEvent::Other));
    assert_eq!(digest(&end("file")), Ok(ParseEvent::FileClosed));
    assert_eq!(digest(&end("change")), Ok(ParseEvent::ChangeClosed));
    assert_eq!(digest(&end("content")), Ok(ParseEvent::FieldClosed(Field::Content)));
    assert_eq!(digest(&end("other")), Ok(ParseEvent::Other));
    assert_eq!(digest(&XmlToken::Eof), Ok(ParseEvent::Other));
    assert_eq!(digest(&XmlToken::Other), Ok(ParseEvent::Other));
    assert_eq!(
        digest(&XmlToken::Text { raw: "a &amp; b".to_string() }),
        Ok(ParseEvent::Text("a & b".to_string()))
    );
    assert_eq!(
        digest(&XmlToken::Invalid { message: "bad".to_string() }),
        Err(ProtocolError::Markup("bad".to_string()))
    );
    assert_eq!(
        digest(&XmlToken::Start {
            name: "file".to_string(),
            attributes: " path=\"p\" action=\"rewrite\"".to_string(),
        }),
        Ok(ParseEvent::FileOpened { path: "p".to_string(), action: ChangeAction::Rewrite })
    );
}

#[test]
fn file_header_takes_the_last_of_each() {
    assert_eq!(
        file_header(" action='create' other=\"1\" path='x y'"),
        Ok(ParseEvent::FileOpened { path: "x y".to_string(), action: ChangeAction::Create })
    );
    assert_eq!(file_header(""), Err(ProtocolError::MissingAction));
}

#[test]
fn events_build_file_changes() {
    let events = vec![
        ParseEvent::Text("ignored".to_string()),
        ParseEvent::FileOpened { path: "a".to_string(), action: ChangeAction::Modify },
        ParseEvent::ChangeOpened,
        ParseEvent::FieldOpened(Field::Description),
        ParseEvent::Text("why".to_string()),
        ParseEvent::FieldClosed(Field::Description),
        ParseEvent::FieldOpened(Field::Search),
        ParseEvent::Text("===\nold\n===".to_string()),
        ParseEvent::FieldClosed(Field::Search),
        ParseEvent::FieldOpened(Field::Content),
        ParseEvent::Text("new".to_string()),
        ParseEvent::FieldClosed(Field::Content),
        ParseEvent::ChangeClosed,
        ParseEvent::FileClosed,
        ParseEvent::FileClosed,
        ParseEvent::Other,
        ParseEvent::FileOpened { path: "c".to_string(), action: ChangeAction::Delete },
        ParseEvent::FileClosed,
        ParseEvent::ChangeOpened,
        ParseEvent::ChangeClosed,
        ParseEvent::FileOpened { path: "b".to_string(), action: ChangeAction::Delete },
    ];
    let files = collect_file_changes(&events);
    assert_eq!(
        files,
        vec![
            FileChange {
                path: "a".to_string(),
                action: ChangeAction::Modify,
                changes: vec![Change {
                    description: "why".to_string(),
                    search: Some("old".to_string()),
                    content: "new".to_string(),
                }],
            },
            FileChange { path: "c".to_string(), action: ChangeAction::Delete, changes: vec![] },
        ]
    );
}

#[test]
fn description_takes_text_before_search_and_content() {
    let mut state = ParserState::new();
    state.accept(&ParseEvent::FileOpened { path: "a".to_string(), action: ChangeAction::Modify });
    state.accept(&ParseEvent::ChangeOpened);
    state.accept(&ParseEvent::FieldOpened(Field::Content));
    state.accept(&ParseEvent::FieldOpened(Field::Search));
    state.accept(&ParseEvent::Text("to search".to_string()));
    state.accept(&ParseEvent::FieldOpened(Field::Description));
    state.accept(&ParseEvent::Text("to description".to_string()));
    state.accept(&ParseEvent::FieldClosed(Field::Description));
    state.accept(&ParseEvent::FieldClosed(Field::Search));
    state.accept(&ParseEvent::Text("to content".to_string()));
    state.accept(&ParseEvent::ChangeClosed);
    state.accept(&ParseEvent::Text("dropped".to_string()));
    state.accept(&ParseEvent::FileClosed);
    let files = state.finish();
    assert_eq!(files[0].changes, vec![Change {
        description: "to description".to_string(),
        search: Some("to search".to_string()),
        content: "to content".to_string(),
    }]);
}

#[test]
fn comments_and_declarations_are_passed_over() {
    let xml = "<?xml version=\"1.0\"?><!-- plan --><Plan><file path=\"a\" action=\"create\"><change><content>text</content></change></file></Plan>";
    let changes = parse_xml_diff(xml).unwrap();
    assert_eq!(changes.len(), 1);
    assert_eq!(changes[0].changes[0].content, "text");
}

#[test]
fn character_data_sections_are_passed_over() {
    let xml = "<file path=\"a\" action=\"create\"><change><content><![CDATA[raw < text]]></content></change></file>";
    let changes = parse_xml_diff(xml).unwrap();
    assert_eq!(changes[0].changes[0].content, "");
}

#[test]
fn the_last_text_of_a_field_counts() {
    let xml = "<file path=\"a\" action=\"create\"><change><content>first<!-- between -->second</content></change></file>";
    let changes = parse_xml_diff(xml).unwrap();
    assert_eq!(changes[0].changes[0].content, "second");
}

#[test]
fn a_second_change_starts_empty() {
    let xml = "<file path=\"a\" action=\"modify\"><change><description>d</description><search>s</search><content>c</content></change><change><content>only</content></change></file>";
    let changes = parse_xml_diff(xml).unwrap();
    assert_eq!(
        changes[0].changes,
        vec![
            Change {
                description: "d".to_string(),
                search: Some("s".to_string()),
                content: "c".to_string(),
            },
            Change { description: String::new(), search: None, content: "only".to_string() },
        ]
    );
}

#[test]
fn an_empty_payload_is_an_empty_search_text() {
    let xml = "<file path=\"a\" action=\"modify\"><change><search>===\n\n===</search><content>x</content></change></file>";
    let changes = parse_xml_diff(xml).unwrap();
    assert_eq!(changes[0].changes[0].search, Some(String::new()));
}

#[test]
fn an_unclosed_tag_is_malformed() {
    assert!(matches!(
        parse_xml_diff("<file path=\"a\" action=\"delete\""),
        Err(ProtocolError::Markup(_))
    ));
    assert!(matches!(parse_xml_diff("</file>"), Err(ProtocolError::Markup(_))));
}
