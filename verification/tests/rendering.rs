use slaxide::blocks::parse_fallback_slack_blocks;
use slaxide::collections::TextMap;
use slaxide::emoji::{reaction_emoji, render_slack_text};
use slaxide::json::Json;
use slaxide::rich_text::{
    message_blocks, parse_rich_text_blocks, table_cell_classes, SlackRenderLookup,
};
use slaxide::segments::{
    escape_markup, render_segments_markup, SlackRenderBlock, SlackTableAlignment,
};

fn text(value: &str) -> Json {
    Json::string(value)
}

fn object(members: Vec<(&str, Json)>) -> Json {
    Json::object(members.into_iter().map(|(name, value)| (name.to_string(), value)).collect())
}

fn names() -> SlackRenderLookup {
    let mut user_names = TextMap::new();
    user_names.insert("U123".into(), "Alice".to_string());
    let mut channel_names = TextMap::new();
    channel_names.insert("C123".into(), "#times_alice".to_string());
    SlackRenderLookup { user_names, channel_names }
}

#[test]
fn fallback_slack_blocks_parse_basic_formatting() {
    let blocks = parse_fallback_slack_blocks(
        "*bold* _italic_ __underline__ ~strike~\n- first\n1. ordered\n> quoted\n```rs\nlet x = 1;\n```",
    );

    assert!(matches!(blocks[0], SlackRenderBlock::Paragraph(_)));
    assert!(matches!(blocks[1], SlackRenderBlock::UnorderedList(_)));
    assert!(matches!(blocks[2], SlackRenderBlock::OrderedList(_)));
    assert!(matches!(blocks[3], SlackRenderBlock::Quote(_)));
    assert!(matches!(
        blocks[4],
        SlackRenderBlock::CodeBlock {
            code: _,
            language_hint: _
        }
    ));

    let paragraph = match &blocks[0] {
        SlackRenderBlock::Paragraph(segments) => render_segments_markup(segments),
        _ => String::new(),
    };
    assert!(paragraph.contains("<b>bold</b>"));
    assert!(paragraph.contains("<i>italic</i>"));
    assert!(paragraph.contains("<u>underline</u>"));
    assert!(paragraph.contains("<s>strike</s>"));
}

#[test]
fn rich_text_blocks_render_lists_and_links() {
    let section = object(vec![
        ("type", text("rich_text_section")),
        (
            "elements",
            Json::array(vec![
                object(vec![
                    ("type", text("text")),
                    ("text", text("hello ")),
                    ("style", object(vec![("bold", Json::Bool(true))])),
                ]),
                object(vec![
                    ("type", text("link")),
                    ("url", text("https://example.com")),
                    ("text", text("docs")),
                ]),
                object(vec![("type", text("text")), ("text", text(" "))]),
                object(vec![("type", text("user")), ("user_id", text("U123"))]),
            ]),
        ),
    ]);
    let list = object(vec![
        ("type", text("rich_text_list")),
        ("style", text("ordered")),
        (
            "elements",
            Json::array(vec![
                object(vec![
                    ("type", text("rich_text_section")),
                    (
                        "elements",
                        Json::array(vec![object(vec![
                            ("type", text("text")),
                            ("text", text("first")),
                        ])]),
                    ),
                ]),
                object(vec![
                    ("type", text("rich_text_section")),
                    (
                        "elements",
                        Json::array(vec![object(vec![
                            ("type", text("channel")),
                            ("channel_id", text("C123")),
                        ])]),
                    ),
                ]),
            ]),
        ),
    ]);
    let blocks = parse_rich_text_blocks(
        &vec![object(vec![
            ("type", text("rich_text")),
            ("elements", Json::array(vec![section, list])),
        ])],
        &names(),
    );

    let first = match &blocks[0] {
        SlackRenderBlock::Paragraph(segments) => render_segments_markup(segments),
        _ => String::new(),
    };
    assert!(first.contains("<b>hello </b>"));
    assert!(first.contains("href=\"https://example.com\""));
    assert!(first.contains("@Alice"));

    match &blocks[1] {
        SlackRenderBlock::OrderedList(items) => {
            assert_eq!(items.len(), 2);
            assert_eq!(
                items[1]
                    .1
                    .iter()
                    .map(|segment| segment.text.as_str())
                    .collect::<String>(),
                "#times_alice"
            );
        }
        _ => panic!("expected ordered list"),
    }
}

#[test]
fn fallback_parser_detects_gfm_tables() {
    let blocks = parse_fallback_slack_blocks(
        "| name | score |\n| :--- | ---: |\n| alice | 10 |\n| bob | 20 |",
    );

    match &blocks[0] {
        SlackRenderBlock::Table {
            headers,
            rows,
            alignments,
        } => {
            assert_eq!(headers.len(), 2);
            assert_eq!(rows.len(), 2);
            assert_eq!(alignments[0], SlackTableAlignment::Left);
            assert_eq!(alignments[1], SlackTableAlignment::Right);
        }
        _ => panic!("expected table"),
    }
}

#[test]
fn markup_is_escaped() {
    assert_eq!(escape_markup("a<b>&'\"c"), "a&lt;b&gt;&amp;&apos;&quot;c");
}

#[test]
fn shortcodes_become_emoji() {
    assert_eq!(render_slack_text("nice :tada: :no_such_emoji:"), "nice 🎉 :no_such_emoji:");
    assert_eq!(render_slack_text("10:30"), "10:30");
    assert_eq!(reaction_emoji("+1"), "👍");
    assert_eq!(reaction_emoji("party-parrot"), ":party-parrot:");
}

#[test]
fn tables_in_the_text_go_before_rich_blocks() {
    let table = "| a |\n| --- |\n| b |";
    let rich = vec![object(vec![
        ("type", text("rich_text")),
        (
            "elements",
            Json::array(vec![object(vec![
                ("type", text("rich_text_section")),
                (
                    "elements",
                    Json::array(vec![object(vec![("type", text("text")), ("text", text("x"))])]),
                ),
            ])]),
        ),
    ])];

    assert!(matches!(message_blocks(table, &rich, &names())[0], SlackRenderBlock::Table { .. }));
    assert!(matches!(message_blocks("a", &rich, &names())[0], SlackRenderBlock::Paragraph(_)));
    assert!(message_blocks("", &vec![], &names()).is_empty());
}

#[test]
fn corner_cells_are_marked() {
    assert_eq!(
        table_cell_classes(0, 0, 1, 2),
        vec!["slack-rich-table-header", "slack-rich-table-corner-top-left"]
    );
    assert_eq!(
        table_cell_classes(1, 1, 1, 2),
        vec![
            "slack-rich-table-cell",
            "slack-rich-table-edge-right",
            "slack-rich-table-edge-bottom",
            "slack-rich-table-corner-bottom-right",
        ]
    );
}
