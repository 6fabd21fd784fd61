use syrinx::formatter::{decimal_string, RDFable};

#[test]
fn decimal_of_zero_and_year() {
    assert_eq!(decimal_string(0), "0");
    assert_eq!(decimal_string(7), "7");
    assert_eq!(decimal_string(1994), "1994");
    assert_eq!(decimal_string(u64::MAX), "18446744073709551615");
}

#[test]
fn absent_optional_renders_nothing() {
    let year: Option<u16> = None;
    assert_eq!(year.nqd("uid(t)", "<CreativeWork.originalYear>"), "");
    let title: Option<String> = None;
    assert_eq!(title.nqd("uid(al)", "<CreativeWork.title>"), "");
}

#[test]
fn present_optional_renders_one_statement() {
    let year: Option<u16> = Some(1994);
    assert_eq!(
        year.nqd("uid(t)", "<CreativeWork.originalYear>"),
        "uid(t) <CreativeWork.originalYear> \"1994\" .\n"
    );
    let duration: Option<u32> = Some(200);
    assert_eq!(
        duration.nqd("uid(t)", "<MusicRecording.durationSeconds>"),
        "uid(t) <MusicRecording.durationSeconds> \"200\" .\n"
    );
    let title: Option<String> = Some("Blue".to_string());
    assert_eq!(title.nqd("uid(al)", "<CreativeWork.title>"), "uid(al) <CreativeWork.title> \"Blue\" .\n");
}

#[test]
fn list_renders_one_statement_per_element() {
    let names = vec!["A".to_string(), "B".to_string()];
    assert_eq!(
        names.nqd("uid(ar0)", "<Artist.names>"),
        "uid(ar0) <Artist.names> \"A\" .\nuid(ar0) <Artist.names> \"B\" .\n"
    );
    let none: Vec<String> = Vec::new();
    assert_eq!(none.nqd("uid(ar0)", "<Artist.names>"), "");
}
