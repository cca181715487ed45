use bridge_channel::frames::approval_prompt_text;
use bridge_channel::frames::OutboundFrame;
use bridge_channel::json::write_string;
use bridge_channel::json::write_value;
use serde_json::Value;

fn shell_arguments() -> Value {
    let mut args = serde_json::Map::new();
    args.insert("cmd".to_string(), Value::String("ls".to_string()));
    Value::Object(args)
}

#[test]
fn outbound_auth_result_serializes() {
    let frame = OutboundFrame::AuthResult {
        success: true,
        error: None,
    };
    let json = frame.to_json();
    assert!(json.contains(r#""type":"auth_result""#));
    assert!(json.contains(r#""success":true"#));
    assert!(!json.contains("error"));
    assert_eq!(json, r#"{"type":"auth_result","success":true}"#);
}

#[test]
fn outbound_auth_result_with_error_serializes() {
    let frame = OutboundFrame::AuthResult {
        success: false,
        error: Some("bad token"),
    };
    let json = frame.to_json();
    assert!(json.contains(r#""success":false"#));
    assert!(json.contains(r#""error":"bad token""#));
    assert_eq!(
        json,
        r#"{"type":"auth_result","success":false,"error":"bad token"}"#
    );
}

#[test]
fn outbound_message_serializes() {
    let frame = OutboundFrame::Message {
        content: "response",
        sender_id: "user_a",
        thread_ts: None,
    };
    let json = frame.to_json();
    assert!(json.contains(r#""type":"message""#));
    assert!(json.contains(r#""content":"response""#));
    assert!(json.contains(r#""sender_id":"user_a""#));
    assert!(!json.contains("thread_ts"));
    assert_eq!(
        json,
        r#"{"type":"message","content":"response","sender_id":"user_a"}"#
    );
}

#[test]
fn outbound_message_in_thread() {
    let frame = OutboundFrame::Message {
        content: "response",
        sender_id: "user_a",
        thread_ts: Some("t-1"),
    };
    assert_eq!(
        frame.to_json(),
        r#"{"type":"message","content":"response","sender_id":"user_a","thread_ts":"t-1"}"#
    );
}

#[test]
fn outbound_typing_start_serializes() {
    let frame = OutboundFrame::TypingStart {
        sender_id: "user_a",
    };
    let json = frame.to_json();
    assert!(json.contains(r#""type":"typing_start""#));
    assert_eq!(json, r#"{"type":"typing_start","sender_id":"user_a"}"#);
}

#[test]
fn outbound_typing_stop() {
    let frame = OutboundFrame::TypingStop {
        sender_id: "user_a",
    };
    assert_eq!(
        frame.to_json(),
        r#"{"type":"typing_stop","sender_id":"user_a"}"#
    );
}

#[test]
fn outbound_draft_start_serializes() {
    let frame = OutboundFrame::DraftStart {
        draft_id: "bridge_draft_123",
        content: "partial",
        sender_id: "user_a",
    };
    let json = frame.to_json();
    assert!(json.contains(r#""type":"draft_start""#));
    assert!(json.contains(r#""draft_id":"bridge_draft_123""#));
    assert_eq!(
        json,
        r#"{"type":"draft_start","draft_id":"bridge_draft_123","content":"partial","sender_id":"user_a"}"#
    );
}

#[test]
fn outbound_draft_life() {
    let update = OutboundFrame::DraftUpdate {
        draft_id: "d",
        content: "more",
        sender_id: "u",
    };
    let finalize = OutboundFrame::DraftFinalize {
        draft_id: "d",
        content: "all",
        sender_id: "u",
    };
    let cancel = OutboundFrame::DraftCancel {
        draft_id: "d",
        sender_id: "u",
    };
    assert_eq!(
        update.to_json(),
        r#"{"type":"draft_update","draft_id":"d","content":"more","sender_id":"u"}"#
    );
    assert_eq!(
        finalize.to_json(),
        r#"{"type":"draft_finalize","draft_id":"d","content":"all","sender_id":"u"}"#
    );
    assert_eq!(
        cancel.to_json(),
        r#"{"type":"draft_cancel","draft_id":"d","sender_id":"u"}"#
    );
}

#[test]
fn outbound_approval_prompt_serializes() {
    let args = shell_arguments();
    let frame = OutboundFrame::ApprovalPrompt {
        request_id: "r1",
        tool_name: "shell",
        arguments: &args,
        sender_id: "user_a",
    };
    let json = frame.to_json();
    assert!(json.contains(r#""type":"approval_prompt""#));
    assert!(json.contains(r#""tool_name":"shell""#));
    assert_eq!(
        json,
        r#"{"type":"approval_prompt","request_id":"r1","tool_name":"shell","arguments":{"cmd":"ls"},"sender_id":"user_a"}"#
    );
}

#[test]
fn approval_prompt_around_given_arguments() {
    assert_eq!(
        approval_prompt_text("r1", "shell", "[1,2]", "user_a"),
        r#"{"type":"approval_prompt","request_id":"r1","tool_name":"shell","arguments":[1,2],"sender_id":"user_a"}"#
    );
}

#[test]
fn values_are_written_compactly() {
    let value: Value = serde_json::from_str(r#" { "a" : [ 1 , -2.5 , null , true ] } "#).unwrap();
    assert_eq!(write_value(&value), r#"{"a":[1,-2.5,null,true]}"#);
}

#[test]
fn outbound_pong_serializes() {
    let frame = OutboundFrame::Pong;
    let json = frame.to_json();
    assert!(json.contains(r#""type":"pong""#));
    assert_eq!(json, r#"{"type":"pong"}"#);
}

#[test]
fn outbound_error_serializes() {
    let frame = OutboundFrame::Error {
        message: "something went wrong",
    };
    let json = frame.to_json();
    assert!(json.contains(r#""type":"error""#));
    assert!(json.contains(r#""message":"something went wrong""#));
    assert_eq!(json, r#"{"type":"error","message":"something went wrong"}"#);
}

#[test]
fn outbound_reaction_add_serializes() {
    let frame = OutboundFrame::ReactionAdd {
        channel_id: "ch1",
        message_id: "msg1",
        emoji: "\u{2705}",
    };
    let json = frame.to_json();
    assert!(json.contains(r#""type":"reaction_add""#));
    assert_eq!(
        json,
        "{\"type\":\"reaction_add\",\"channel_id\":\"ch1\",\"message_id\":\"msg1\",\"emoji\":\"\u{2705}\"}"
    );
}

#[test]
fn outbound_reaction_remove() {
    let frame = OutboundFrame::ReactionRemove {
        channel_id: "ch1",
        message_id: "msg1",
        emoji: "x",
    };
    assert_eq!(
        frame.to_json(),
        r#"{"type":"reaction_remove","channel_id":"ch1","message_id":"msg1","emoji":"x"}"#
    );
}

#[test]
fn strings_are_escaped() {
    assert_eq!(write_string(""), "\"\"");
    assert_eq!(write_string("a\"b\\c/d"), r#""a\"b\\c/d""#);
    assert_eq!(
        write_string("\u{8}\u{c}\n\r\t\u{0}\u{1f}\u{1b}\u{b}"),
        r#""\b\f\n\r\t\u0000\u001f\u001b\u000b""#
    );
    assert_eq!(write_string("\u{7f}é\u{2028}漢"), "\"\u{7f}é\u{2028}漢\"");
}

#[test]
fn every_low_character_reads_back() {
    for code in 0..256u32 {
        let text = format!("<{}>", char::from_u32(code).unwrap());
        let back: String = serde_json::from_str(&write_string(&text)).unwrap();
        assert_eq!(back, text);
    }
}

#[test]
fn frame_text_reads_back() {
    let content = "line\n\"quoted\" \\ \u{1}";
    let json = OutboundFrame::Message {
        content,
        sender_id: "u,\"type\":\"pong\"",
        thread_ts: Some("}"),
    }
    .to_json();
    let value: Value = serde_json::from_str(&json).unwrap();
    assert_eq!(value["type"], "message");
    assert_eq!(value["content"], content);
    assert_eq!(value["sender_id"], "u,\"type\":\"pong\"");
    assert_eq!(value["thread_ts"], "}");
}

#[test]
fn different_frames_have_different_texts() {
    let a = OutboundFrame::TypingStart { sender_id: "u" }.to_json();
    let b = OutboundFrame::TypingStop { sender_id: "u" }.to_json();
    let c = OutboundFrame::TypingStart { sender_id: "v" }.to_json();
    let d = OutboundFrame::Error { message: "u" }.to_json();
    assert_ne!(a, b);
    assert_ne!(a, c);
    assert_ne!(a, d);
}
