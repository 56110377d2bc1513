use auralink::reports::{
    describe_graphs, describe_objects, frame_failure, generation_report, Generated, TOP_OBJECTS,
};

fn strings(items: &[&str]) -> Vec<String> {
    items.iter().map(|s| s.to_string()).collect()
}

#[test]
fn objects_report_counts_all_and_names_the_first_five() {
    let objects =
        strings(&["a (0.90)", "b (0.80)", "c (0.70)", "d (0.60)", "e (0.50)", "f (0.40)", "g (0.30)"]);
    assert_eq!(
        describe_objects(&objects, "letters"),
        "Detected 7 object(s): a (0.90), b (0.80), c (0.70), d (0.60), e (0.50). Caption: letters"
    );
    assert_eq!(TOP_OBJECTS, 5);
}

#[test]
fn objects_report_with_few_or_no_objects() {
    assert_eq!(
        describe_objects(&strings(&["cat (0.99)"]), "a cat"),
        "Detected 1 object(s): cat (0.99). Caption: a cat"
    );
    assert_eq!(describe_objects(&vec![], ""), "Detected 0 object(s): . Caption: ");
    let twelve: Vec<String> = (0..12).map(|i| format!("o{}", i)).collect();
    assert_eq!(
        describe_objects(&twelve, "many"),
        "Detected 12 object(s): o0, o1, o2, o3, o4. Caption: many"
    );
}

#[test]
fn graphs_report_names_the_kinds() {
    assert_eq!(
        describe_graphs(&strings(&["bar", "pie"]), "two charts"),
        "Graphs detected: bar, pie. two charts"
    );
    assert_eq!(describe_graphs(&strings(&["line"]), ""), "Graphs detected: line. ");
}

#[test]
fn graphs_report_without_graphs() {
    assert_eq!(describe_graphs(&vec![], "plain frame"), "No graphs detected. plain frame");
}

#[test]
fn successful_generation_names_the_path() {
    assert_eq!(
        generation_report(Generated::Pdf, true, "/tmp/x.pdf", "ignored"),
        Ok("PDF generated at /tmp/x.pdf".to_string())
    );
    assert_eq!(
        generation_report(Generated::PowerPoint, true, "/tmp/x.pptx", ""),
        Ok("PowerPoint generated at /tmp/x.pptx".to_string())
    );
}

#[test]
fn failed_generation_hands_on_the_error() {
    assert_eq!(
        generation_report(Generated::Pdf, false, "/tmp/x.pdf", "no template"),
        Err("no template".to_string())
    );
    assert_eq!(generation_report(Generated::PowerPoint, false, "", ""), Err(String::new()));
}

#[test]
fn generation_report_is_read_back_as_a_link() {
    let report = generation_report(Generated::PowerPoint, true, "/a/B.pptx", "").unwrap();
    assert_eq!(
        auralink::reply::friendly_sentence(&format!("PowerPoint: {}", report)),
        "PowerPoint generated. [Open file](file:///a/B.pptx)\nPath: `/a/B.pptx`"
    );
}

#[test]
fn frame_failure_carries_what_the_extractor_wrote() {
    assert_eq!(frame_failure(""), "ffmpeg failed to generate thumbnail");
    assert_eq!(
        frame_failure("No such file"),
        "ffmpeg failed to generate thumbnail: No such file"
    );
}
