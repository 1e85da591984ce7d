use transcodeck::template::{
    merge_values, render_template, split_arguments, TemplateError,
};
use transcodeck::worker::template_defaults;

fn pairs(p: &[(&str, &str)]) -> Vec<(String, String)> {
    p.iter().map(|(k, v)| (k.to_string(), v.to_string())).collect()
}

#[test]
fn renders_input_and_output() {
    let values = pairs(&[("input", "/tmp/a.mkv"), ("output", "/tmp/b.mkv")]);
    let r = render_template("-i {input} -c copy {output}", &values).unwrap();
    assert_eq!(r, "-i /tmp/a.mkv -c copy /tmp/b.mkv");
}

#[test]
fn missing_value_is_an_error() {
    let values = pairs(&[("input", "/tmp/a.mkv")]);
    let r = render_template("-i {input} -c copy {output}", &values);
    assert_eq!(r, Err(TemplateError::MissingKey("output".to_string())));
}

#[test]
fn placeholder_names_are_trimmed_and_syntax_checked() {
    let values = pairs(&[("b", "X")]);
    assert_eq!(render_template("a { b }c", &values), Ok("a Xc".to_string()));
    assert_eq!(render_template(r"\{ b \}", &values), Ok("{ b }".to_string()));
    assert_eq!(render_template("{unclosed", &values), Err(TemplateError::Syntax));
    assert_eq!(render_template("void: {}", &values), Err(TemplateError::Syntax));
}

#[test]
fn render_reports_the_first_missing_key() {
    assert_eq!(render_template("{x}{y}", &Vec::new()), Err(TemplateError::MissingKey("x".to_string())));
    assert_eq!(render_template("", &Vec::new()), Ok(String::new()));
}

#[test]
fn job_values_override_defaults() {
    let job = pairs(&[("output", "/o")]);
    let defaults = pairs(&[("output", "/default"), ("preset", "fast")]);
    let merged = merge_values(&job, &defaults);
    let r = render_template("{output} {preset}", &merged).unwrap();
    assert_eq!(r, "/o fast");
}

#[test]
fn arguments_split_at_any_whitespace() {
    assert_eq!(split_arguments("  -i  a.mkv\t-y\n"), vec!["-i", "a.mkv", "-y"]);
    assert!(split_arguments("").is_empty());
    assert!(split_arguments(" \u{3000} ").is_empty());
    assert_eq!(split_arguments("my file.mkv"), vec!["my", "file.mkv"]);
}

#[test]
fn defaults_come_from_prefixed_variables() {
    let vars = pairs(&[
        ("TRANSCODECK_TEMPLATE_PRESET", "slow"),
        ("PATH", "/bin"),
        ("transcodeck_template_crf", "23"),
        ("TRANSCODECK_TEMPLATE", "x"),
    ]);
    assert_eq!(template_defaults(&vars), pairs(&[("preset", "slow"), ("crf", "23")]));
}
