use auralink::intent::{resolve_numeric_reply, Capability, IntentScore, GENERIC_MENU};

fn score(transcribe: u8, objects: u8, graphs: u8, ppt: u8, pdf: u8, summary: u8) -> IntentScore {
    IntentScore { transcribe, objects, graphs, ppt, pdf, summary }
}

#[test]
fn transcribe_precise_phrase_scores_ten() {
    assert_eq!(IntentScore::from_message("transcribe the video"), score(10, 0, 0, 0, 0, 0));
    assert_eq!(IntentScore::from_message("I need a transcript of this"), score(10, 0, 0, 0, 0, 0));
}

#[test]
fn transcribe_generic_phrase_scores_seven() {
    assert_eq!(IntentScore::from_message("can you transcribe it"), score(7, 0, 0, 0, 0, 0));
    assert_eq!(IntentScore::from_message("tell me what is said"), score(7, 0, 0, 0, 0, 0));
    assert_eq!(IntentScore::from_message("what they say there"), score(7, 0, 0, 0, 0, 0));
}

#[test]
fn scoring_ignores_case() {
    assert_eq!(IntentScore::from_message("TRANSCRIBE THE VIDEO"), score(10, 0, 0, 0, 0, 0));
    assert_eq!(IntentScore::from_message("Generate PDF"), score(0, 0, 0, 0, 10, 0));
}

#[test]
fn from_lowercase_takes_the_text_as_it_is() {
    assert_eq!(IntentScore::from_lowercase("transcribe the video"), score(10, 0, 0, 0, 0, 0));
    assert_eq!(IntentScore::from_lowercase("TRANSCRIBE THE VIDEO"), score(0, 0, 0, 0, 0, 0));
}

#[test]
fn objects_cascade() {
    assert_eq!(IntentScore::from_message("what objects do you see").objects, 10);
    assert_eq!(IntentScore::from_message("detect objects").objects, 10);
    assert_eq!(IntentScore::from_message("identify objects please").objects, 10);
    assert_eq!(IntentScore::from_message("is there an object").objects, 6);
    assert_eq!(IntentScore::from_message("what is shown").objects, 6);
    assert_eq!(IntentScore::from_message("what's in the clip").objects, 6);
    assert_eq!(IntentScore::from_message("nothing of the kind").objects, 0);
}

#[test]
fn graphs_cascade() {
    assert_eq!(IntentScore::from_message("are there any graphs or charts").graphs, 10);
    assert_eq!(IntentScore::from_message("are there charts").graphs, 10);
    assert_eq!(IntentScore::from_message("describe the graph").graphs, 7);
    assert_eq!(IntentScore::from_message("a chart").graphs, 7);
    assert_eq!(IntentScore::from_message("explain the diagram").graphs, 7);
    assert_eq!(IntentScore::from_message("are there people").graphs, 0);
}

#[test]
fn slides_cascade() {
    assert_eq!(IntentScore::from_message("create a powerpoint presentation").ppt, 10);
    assert_eq!(IntentScore::from_message("generate powerpoint").ppt, 10);
    assert_eq!(IntentScore::from_message("make a ppt").ppt, 10);
    assert_eq!(IntentScore::from_message("a powerpoint would help").ppt, 6);
    assert_eq!(IntentScore::from_message("ppt").ppt, 6);
    assert_eq!(IntentScore::from_message("a presentation").ppt, 6);
    assert_eq!(IntentScore::from_message("slides").ppt, 0);
}

#[test]
fn summary_and_pdf_together_score_the_maximum() {
    let s = IntentScore::from_message("summarize this and make a pdf");
    assert_eq!(s.summary, 10);
    assert_eq!(s.pdf, 10);
    assert_eq!(s, score(0, 0, 0, 0, 10, 10));
    assert_eq!(IntentScore::from_message("summary pdf"), score(0, 0, 0, 0, 10, 10));
}

#[test]
fn pdf_tier_with_a_verb_scores_ten() {
    assert_eq!(IntentScore::from_message("generate pdf"), score(0, 0, 0, 0, 10, 0));
    assert_eq!(IntentScore::from_message("please create pdf now"), score(0, 0, 0, 0, 10, 0));
}

#[test]
fn pdf_tier_bare_word_scores_five() {
    assert_eq!(IntentScore::from_message("pdf"), score(0, 0, 0, 0, 5, 0));
    assert_eq!(IntentScore::from_message("generate a pdf document"), score(0, 0, 0, 0, 5, 0));
}

#[test]
fn summary_cascade() {
    assert_eq!(IntentScore::from_message("summarize our conversation"), score(0, 0, 0, 0, 0, 8));
    assert_eq!(IntentScore::from_message("a summary of the talk").summary, 8);
    assert_eq!(IntentScore::from_message("quick recap").summary, 8);
    assert_eq!(IntentScore::from_message("summary").summary, 0);
}

#[test]
fn rules_are_independent() {
    let s = IntentScore::from_message(
        "transcribe the video, detect objects, are there charts, make a ppt, summarize it as pdf",
    );
    assert_eq!(s, score(10, 10, 10, 10, 10, 10));
    assert_eq!(IntentScore::from_message("hello there"), score(0, 0, 0, 0, 0, 0));
    assert_eq!(IntentScore::from_message(""), score(0, 0, 0, 0, 0, 0));
}

#[test]
fn scoring_is_repeatable() {
    let a = IntentScore::from_message("What objects are shown, and a PDF?");
    let b = IntentScore::from_message("What objects are shown, and a PDF?");
    assert_eq!(a, b);
    assert_eq!(a, score(0, 10, 0, 0, 5, 0));
}

#[test]
fn max_score_is_the_highest_value() {
    assert_eq!(score(0, 0, 0, 0, 0, 0).max_score(), 0);
    assert_eq!(score(1, 2, 3, 4, 5, 6).max_score(), 6);
    assert_eq!(score(9, 2, 3, 4, 5, 6).max_score(), 9);
    assert_eq!(score(1, 2, 10, 4, 5, 6).max_score(), 10);
    assert_eq!(score(7, 7, 7, 7, 7, 7).max_score(), 7);
}

#[test]
fn has_any_intent_means_some_score_above_zero() {
    assert!(!score(0, 0, 0, 0, 0, 0).has_any_intent());
    assert!(score(0, 0, 0, 0, 1, 0).has_any_intent());
    assert!(score(10, 0, 0, 0, 0, 0).has_any_intent());
}

#[test]
fn single_weak_signal_alone_is_ambiguous() {
    assert!(score(0, 0, 0, 0, 5, 0).is_ambiguous());
    assert!(score(1, 0, 0, 0, 0, 0).is_ambiguous());
    assert!(IntentScore::from_message("pdf").is_ambiguous());
}

#[test]
fn single_weak_signal_beside_a_strong_one_is_not_ambiguous() {
    assert!(!score(7, 0, 0, 0, 5, 0).is_ambiguous());
    assert!(!score(0, 6, 0, 0, 5, 0).is_ambiguous());
    assert!(!IntentScore::from_message("transcribe the video, maybe a pdf").is_ambiguous());
}

#[test]
fn two_weak_signals_are_ambiguous_whatever_else() {
    assert!(score(3, 4, 0, 0, 0, 0).is_ambiguous());
    assert!(score(3, 4, 0, 0, 0, 10).is_ambiguous());
    assert!(score(10, 10, 10, 1, 5, 10).is_ambiguous());
}

#[test]
fn threshold_values_are_not_weak() {
    assert!(!score(6, 0, 0, 0, 0, 0).is_ambiguous());
    assert!(!score(6, 6, 6, 6, 6, 6).is_ambiguous());
    assert!(!score(0, 0, 0, 0, 0, 0).is_ambiguous());
    assert!(score(5, 0, 0, 0, 0, 0).is_ambiguous());
}

#[test]
fn clarification_with_nothing_offered_is_the_general_menu() {
    assert_eq!(score(0, 0, 0, 0, 0, 0).get_clarification_message(), GENERIC_MENU);
    assert_eq!(
        GENERIC_MENU,
        "I'm not sure what you'd like me to do with this video. Could you provide more details? For example:\n- \"Transcribe the video\"\n- \"What objects are shown in the video?\"\n- \"Are there any graphs?\"\n- \"Create a PowerPoint with key points\"\n- \"Summarize our discussion and generate a PDF\""
    );
}

#[test]
fn clarification_with_one_offer_asks_yes_or_no() {
    assert_eq!(
        score(0, 0, 0, 0, 5, 0).get_clarification_message(),
        "Did you mean: generate a PDF document? If so, please confirm or provide more details."
    );
    assert_eq!(
        score(2, 0, 0, 0, 0, 0).get_clarification_message(),
        "Did you mean: transcribe the audio? If so, please confirm or provide more details."
    );
}

#[test]
fn clarification_with_several_offers_numbers_each_by_its_capability() {
    assert_eq!(
        score(0, 0, 7, 0, 5, 0).get_clarification_message(),
        "I detected multiple possible actions. Which would you like me to do?\n3. identify charts or graphs\n5. generate a PDF document\n\nPlease specify by number or rephrase your request."
    );
    assert_eq!(
        score(1, 1, 1, 1, 1, 0).get_clarification_message(),
        "I detected multiple possible actions. Which would you like me to do?\n1. transcribe the audio\n2. detect objects in the video\n3. identify charts or graphs\n4. create a PowerPoint presentation\n5. generate a PDF document\n\nPlease specify by number or rephrase your request."
    );
}

#[test]
fn clarification_leaves_the_document_out_beside_a_summary() {
    assert_eq!(
        score(0, 0, 0, 0, 5, 8).get_clarification_message(),
        "Did you mean: summarize our conversation? If so, please confirm or provide more details."
    );
    assert_eq!(
        score(3, 0, 0, 0, 5, 8).offered_capabilities(),
        vec![Capability::Transcribe, Capability::Summary]
    );
    assert_eq!(
        score(3, 0, 0, 0, 5, 8).get_clarification_message(),
        "I detected multiple possible actions. Which would you like me to do?\n1. transcribe the audio\n6. summarize our conversation\n\nPlease specify by number or rephrase your request."
    );
}

#[test]
fn offered_capabilities_follow_declaration_order() {
    assert_eq!(
        score(1, 1, 1, 1, 1, 0).offered_capabilities(),
        vec![
            Capability::Transcribe,
            Capability::Objects,
            Capability::Graphs,
            Capability::Slides,
            Capability::Document
        ]
    );
    assert_eq!(score(0, 0, 0, 0, 0, 0).offered_capabilities(), vec![]);
}

#[test]
fn digits_and_capabilities_correspond() {
    let all = [
        (Capability::Transcribe, '1'),
        (Capability::Objects, '2'),
        (Capability::Graphs, '3'),
        (Capability::Slides, '4'),
        (Capability::Document, '5'),
        (Capability::Summary, '6'),
    ];
    for (c, d) in all {
        assert_eq!(c.ordinal(), d);
        assert_eq!(Capability::from_digit(d), Some(c));
    }
    assert_eq!(Capability::from_digit('0'), None);
    assert_eq!(Capability::from_digit('7'), None);
    assert_eq!(Capability::from_digit('a'), None);
}

#[test]
fn numeric_replies_become_canonical_requests() {
    assert_eq!(resolve_numeric_reply("1"), "transcribe the video");
    assert_eq!(resolve_numeric_reply("2"), "what objects are shown in the video");
    assert_eq!(resolve_numeric_reply("3"), "are there any graphs or charts");
    assert_eq!(resolve_numeric_reply("4"), "create a powerpoint presentation");
    assert_eq!(resolve_numeric_reply("5"), "generate a pdf document");
    assert_eq!(resolve_numeric_reply("6"), "summarize our conversation");
}

#[test]
fn numeric_reply_may_stand_in_white_space() {
    assert_eq!(resolve_numeric_reply("  4 "), "create a powerpoint presentation");
    assert_eq!(resolve_numeric_reply("\t6\n"), "summarize our conversation");
}

#[test]
fn other_messages_are_left_as_they_are() {
    assert_eq!(resolve_numeric_reply("7"), "7");
    assert_eq!(resolve_numeric_reply("0"), "0");
    assert_eq!(resolve_numeric_reply(" 9 "), " 9 ");
    assert_eq!(resolve_numeric_reply("44"), "44");
    assert_eq!(resolve_numeric_reply("4 please"), "4 please");
    assert_eq!(resolve_numeric_reply(""), "");
    assert_eq!(resolve_numeric_reply("   "), "   ");
    assert_eq!(resolve_numeric_reply("Transcribe the Video"), "Transcribe the Video");
}

#[test]
fn reply_four_scores_like_the_slides_request() {
    let by_number = IntentScore::from_message(&resolve_numeric_reply("4"));
    let by_phrase = IntentScore::from_message("create a powerpoint presentation");
    assert_eq!(by_number, by_phrase);
    assert_eq!(by_number, score(0, 0, 0, 10, 0, 0));
}

#[test]
fn canonical_requests_and_offer_phrases() {
    assert_eq!(Capability::Slides.canonical_request(), "create a powerpoint presentation");
    assert_eq!(Capability::Slides.offer_phrase(), "create a PowerPoint presentation");
    assert_eq!(Capability::Objects.offer_phrase(), "detect objects in the video");
    assert_eq!(Capability::Graphs.offer_phrase(), "identify charts or graphs");
}
