use auralink::intent::{IntentScore, GENERIC_MENU};
use auralink::policy::{decide, select_steps, Decision, Step};

fn scored(transcribe: u8, objects: u8, graphs: u8, ppt: u8, pdf: u8, summary: u8) -> IntentScore {
    IntentScore { transcribe, objects, graphs, ppt, pdf, summary }
}

#[test]
fn summarize_and_pdf_is_one_compound_step() {
    let s = IntentScore::from_message("summarize this and make a pdf");
    assert_eq!(decide(&s), Decision::Proceed(vec![Step::SummaryThenDocument]));
}

#[test]
fn document_alone_when_summary_is_zero() {
    let s = IntentScore::from_message("generate pdf");
    assert_eq!(s.summary, 0);
    assert_eq!(decide(&s), Decision::Proceed(vec![Step::Document]));
    assert_eq!(decide(&scored(0, 0, 0, 0, 7, 0)), Decision::Proceed(vec![Step::Document]));
    assert_eq!(decide(&scored(0, 0, 0, 0, 10, 0)), Decision::Proceed(vec![Step::Document]));
}

#[test]
fn document_alone_when_summary_is_below_the_threshold() {
    assert_eq!(select_steps(&scored(0, 0, 0, 0, 7, 6)), vec![Step::Document]);
    assert_eq!(select_steps(&scored(0, 0, 0, 0, 7, 7)), vec![Step::SummaryThenDocument]);
}

#[test]
fn summary_alone_when_document_is_not_high() {
    assert_eq!(select_steps(&scored(0, 0, 0, 0, 0, 8)), vec![Step::Summary]);
    assert_eq!(select_steps(&scored(0, 0, 0, 0, 6, 7)), vec![Step::Summary]);
    assert_eq!(
        decide(&IntentScore::from_message("summarize our conversation")),
        Decision::Proceed(vec![Step::Summary])
    );
}

#[test]
fn weak_signal_alone_asks_back() {
    assert_eq!(
        decide(&IntentScore::from_message("pdf")),
        Decision::Clarify(
            "Did you mean: generate a PDF document? If so, please confirm or provide more details."
                .to_string()
        )
    );
}

#[test]
fn two_weak_signals_ask_back_despite_a_strong_one() {
    let s = scored(10, 3, 0, 0, 5, 0);
    assert_eq!(
        decide(&s),
        Decision::Clarify(
            "I detected multiple possible actions. Which would you like me to do?\n1. transcribe the audio\n2. detect objects in the video\n5. generate a PDF document\n\nPlease specify by number or rephrase your request."
                .to_string()
        )
    );
}

#[test]
fn no_intent_gets_the_general_menu() {
    assert_eq!(
        decide(&IntentScore::from_message("hello")),
        Decision::Clarify(GENERIC_MENU.to_string())
    );
    assert_eq!(decide(&scored(0, 0, 0, 0, 0, 0)), Decision::Clarify(GENERIC_MENU.to_string()));
}

#[test]
fn weak_beside_strong_proceeds_with_the_strong_one() {
    let s = IntentScore::from_message("transcribe the video, maybe a pdf");
    assert_eq!(decide(&s), Decision::Proceed(vec![Step::Transcribe]));
}

#[test]
fn score_between_the_thresholds_selects_nothing() {
    let s = IntentScore::from_message("what is shown");
    assert_eq!(s.objects, 6);
    assert_eq!(decide(&s), Decision::Proceed(vec![]));
}

#[test]
fn steps_come_in_declaration_order() {
    let s = IntentScore::from_message(
        "summarize as pdf, make a ppt, are there charts, detect objects, transcribe the video",
    );
    assert_eq!(
        decide(&s),
        Decision::Proceed(vec![
            Step::Transcribe,
            Step::Objects,
            Step::Graphs,
            Step::Slides,
            Step::SummaryThenDocument
        ])
    );
}

#[test]
fn threshold_is_seven() {
    assert_eq!(select_steps(&scored(7, 6, 7, 6, 0, 0)), vec![Step::Transcribe, Step::Graphs]);
    assert_eq!(select_steps(&scored(6, 6, 6, 6, 6, 6)), vec![]);
    assert_eq!(
        select_steps(&scored(10, 10, 10, 10, 10, 0)),
        vec![Step::Transcribe, Step::Objects, Step::Graphs, Step::Slides, Step::Document]
    );
}

#[test]
fn reply_five_asks_back_about_the_document() {
    let request = auralink::intent::resolve_numeric_reply("5");
    let s = IntentScore::from_message(&request);
    assert_eq!(s.pdf, 5);
    assert_eq!(
        decide(&s),
        Decision::Clarify(
            "Did you mean: generate a PDF document? If so, please confirm or provide more details."
                .to_string()
        )
    );
}
