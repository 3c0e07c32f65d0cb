use agent::language_model::{
    is_default, LanguageModelRequestMessage, LanguageModelToolResult, MessageContent,
    ReasoningEffort, Role, TokenUsage,
};
use agent::message::{is_false, Message, MessageAuthor, MessageProvenance};

#[test]
fn wire_values_match_provider_expectations() {
    assert_eq!(ReasoningEffort::High.wire_value(), "high");
    assert_eq!(ReasoningEffort::Max.wire_value(), "max");
}

#[test]
fn openai_wire_value_clamps_max_on_official_openai() {
    assert_eq!(ReasoningEffort::Max.openai_wire_value(true), "high");
    // Compatible endpoints pass max through.
    assert_eq!(ReasoningEffort::Max.openai_wire_value(false), "max");
}

#[test]
fn from_i64_is_backward_compatible_and_falls_back_to_high() {
    // Known code points.
    assert_eq!(ReasoningEffort::from_i64(2), ReasoningEffort::High);
    assert_eq!(ReasoningEffort::from_i64(4), ReasoningEffort::Max);
    // Unknown values fall back to High.
    assert_eq!(ReasoningEffort::from_i64(0), ReasoningEffort::High);
    assert_eq!(ReasoningEffort::from_i64(99), ReasoningEffort::High);
}

#[test]
fn as_i64_round_trips() {
    for effort in ReasoningEffort::ALL {
        assert_eq!(ReasoningEffort::from_i64(effort.as_i64()), effort);
    }
}

#[test]
fn deserialize_unknown_variant_falls_back_to_high() {
    for (input, expected) in [
        ("high", ReasoningEffort::High),
        ("max", ReasoningEffort::Max),
        // Removed variants: each must fall back to High.
        ("low", ReasoningEffort::High),
        ("medium", ReasoningEffort::High),
        ("xhigh", ReasoningEffort::High),
        ("ultracode", ReasoningEffort::High),
        ("auto", ReasoningEffort::High),
        ("garbage", ReasoningEffort::High),
    ] {
        assert_eq!(ReasoningEffort::from_config(input), expected, "{input}");
    }
}

#[test]
fn user_with_content_sets_tool_provenance() {
    let tool = Message::user_with_content(vec![MessageContent::ToolResult(
        LanguageModelToolResult {
            tool_use_id: "t1".into(),
            tool_name: "Read".into(),
            is_error: false,
            content: "x".into(),
        },
    )]);
    assert_eq!(tool.provenance, MessageProvenance::Tool);
    let plain = Message::user_with_content(vec![MessageContent::Text("hi".into())]);
    assert_eq!(plain.provenance, MessageProvenance::User);
}

#[test]
fn author_routing_round_trips_through_lead_sentinel() {
    assert_eq!(MessageAuthor::Lead.routing(), "lead");
    assert_eq!(MessageAuthor::Agent("Sailor".into()).routing(), "Sailor");
    assert_eq!(MessageAuthor::from_routing("lead"), MessageAuthor::Lead);
    assert_eq!(
        MessageAuthor::from_routing("Sailor"),
        MessageAuthor::Agent("Sailor".into())
    );
}

#[test]
fn fresh_messages_have_distinct_ids() {
    let a = Message::user("a".into());
    let b = Message::user("b".into());
    assert_eq!(a.id.len(), 36);
    assert_ne!(a.id, b.id);
    assert!(a.timestamp > 1_500_000_000);
}

#[test]
fn adding_usage_saturates() {
    let big = TokenUsage {
        input_tokens: u64::MAX,
        output_tokens: 1,
        cache_creation_input_tokens: 2,
        cache_read_input_tokens: 3,
    };
    let sum = big + big;
    assert_eq!(sum.input_tokens, u64::MAX);
    assert_eq!(sum.output_tokens, 2);
    assert_eq!(sum.cache_creation_input_tokens, 4);
    assert_eq!(sum.cache_read_input_tokens, 6);
}

#[test]
fn totals_count_every_kind() {
    let usage = TokenUsage {
        input_tokens: 1,
        output_tokens: 20,
        cache_creation_input_tokens: 300,
        cache_read_input_tokens: 4000,
    };
    assert_eq!(usage.total_tokens(), 4321);
    assert!(!usage.is_default());
    assert!(TokenUsage::default().is_default());
    assert!(is_default(&0) && !is_default(&1));
    assert!(is_false(&false) && !is_false(&true));
}

#[test]
fn contents_are_their_texts() {
    let image = MessageContent::Image {
        data: "AA".into(),
        mime_type: "image/png".into(),
    };
    let summary = MessageContent::Compaction("so far".into());
    assert_eq!(summary.compaction_summary(), Some("so far"));
    assert_eq!(MessageContent::Text("t".into()).compaction_summary(), None);
    assert!(MessageContent::Text(" \n\t".into()).is_empty());
    assert!(!image.is_empty());
    assert_eq!(image.to_str(), None);

    let mut message = LanguageModelRequestMessage {
        role: Role::User,
        content: vec![MessageContent::Text("a".into()), image, summary],
        cache: false,
    };
    assert_eq!(message.string_contents(), "aso far");
    assert!(!message.contents_empty());
    message.content = vec![MessageContent::Text("  ".into())];
    assert!(message.contents_empty());
    message.content.clear();
    assert!(message.contents_empty());
}

#[test]
fn parts_go_to_the_end() {
    let mut message = Message::assistant(vec![]);
    assert_eq!(MessageContent::from("s").to_str(), Some("s"));
    assert_eq!(MessageContent::from("s".to_string()).to_str(), Some("s"));
    message.push_text("one".into());
    message.push_content(MessageContent::Compaction("two".into()));
    assert_eq!(message.content.len(), 2);
    assert_eq!(message.content[0].to_str(), Some("one"));
    assert_eq!(message.content[1].compaction_summary(), Some("two"));
}
