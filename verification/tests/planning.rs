use style_batch::batch::{plan_jobs, plan_run};
use style_batch::config::{validate_run, ConfigError, Dims, DEFAULT_DIMENSION, GUIDE_ALPHA_PERCENT};
use style_batch::resolve::{resolve_entries, GlobEntry};

#[test]
fn validate_defaults_dimensions_to_100() {
    let r = validate_run("styles/*.png", "in/*.jpg", None, None);
    assert_eq!(r, Ok(Dims { width: 100, height: 100 }));
    let explicit = validate_run("styles/*.png", "in/*.jpg", Some("100"), Some("100"));
    assert_eq!(r, explicit);
    assert_eq!(DEFAULT_DIMENSION, 100);
}

#[test]
fn validate_parses_given_dimensions() {
    let r = validate_run("styles/*.png", "in/*.jpg", Some("320"), Some("240"));
    assert_eq!(r, Ok(Dims { width: 320, height: 240 }));
}

#[test]
fn validate_rejects_malformed_width_first() {
    let r = validate_run("styles/*.png", "in/*.jpg", Some("abc"), None);
    assert_eq!(r, Err(ConfigError::InvalidWidth));
    // Even with everything else wrong too, the width is reported first.
    let r = validate_run("[", "[", Some("abc"), Some("xyz"));
    assert_eq!(r, Err(ConfigError::InvalidWidth));
}

#[test]
fn validate_rejects_malformed_height() {
    let r = validate_run("styles/*.png", "in/*.jpg", Some("32"), Some("1e3"));
    assert_eq!(r, Err(ConfigError::InvalidHeight));
}

#[test]
fn validate_rejects_bad_style_glob() {
    let r = validate_run("[", "in/*.jpg", None, None);
    assert_eq!(r, Err(ConfigError::InvalidStyleGlob));
    let r = validate_run("a/b**", "in/*.jpg", None, None);
    assert_eq!(r, Err(ConfigError::InvalidStyleGlob));
}

#[test]
fn validate_rejects_bad_input_glob() {
    let r = validate_run("styles/*.png", "in/[", None, None);
    assert_eq!(r, Err(ConfigError::InvalidInputGlob));
}

#[test]
fn validate_accepts_ordinary_globs() {
    assert!(validate_run("styles/*.png", "in/**/*.jpg", None, None).is_ok());
    assert!(validate_run("plain_name.png", "in/photo[0-9].jpg", None, None).is_ok());
}

#[test]
fn resolver_keeps_only_regular_files_in_order() {
    let entries = vec![
        GlobEntry::File { path: "in/a.jpg".to_string() },
        GlobEntry::NonFile { path: "in/subdir".to_string() },
        GlobEntry::Error { message: "permission denied".to_string() },
        GlobEntry::File { path: "in/b.jpg".to_string() },
    ];
    let files = resolve_entries(&entries);
    assert_eq!(files, vec!["in/a.jpg".to_string(), "in/b.jpg".to_string()]);
}

#[test]
fn resolver_of_only_files_keeps_all() {
    let entries = vec![
        GlobEntry::File { path: "s/x.png".to_string() },
        GlobEntry::File { path: "s/y.png".to_string() },
    ];
    assert_eq!(resolve_entries(&entries), vec!["s/x.png".to_string(), "s/y.png".to_string()]);
}

#[test]
fn resolver_of_no_entries_is_empty() {
    let files = resolve_entries(&Vec::new());
    assert!(files.is_empty());
}

#[test]
fn plan_covers_three_inputs_with_shared_styles() {
    let styles = vec!["styles/s1.png".to_string(), "styles/s2.png".to_string()];
    let inputs = vec![
        "in/a.jpg".to_string(),
        "in/b.jpg".to_string(),
        "in/c.jpg".to_string(),
    ];
    let plan = plan_run(styles.clone(), &inputs, Dims { width: 100, height: 100 });
    assert_eq!(plan.styles, styles);
    assert_eq!(plan.styles.len(), 2);
    assert_eq!(plan.jobs.len(), 3);
    assert_eq!(plan.jobs[0].input, "in/a.jpg");
    assert_eq!(plan.jobs[0].output, "in/a.out.png");
    assert_eq!(plan.jobs[1].output, "in/b.out.png");
    assert_eq!(plan.jobs[2].output, "in/c.out.png");
    assert_eq!(plan.dims, Dims { width: 100, height: 100 });
}

#[test]
fn plan_of_zero_inputs_has_zero_jobs() {
    let plan = plan_run(
        vec!["styles/s1.png".to_string()],
        &Vec::new(),
        Dims { width: 100, height: 100 },
    );
    assert!(plan.jobs.is_empty());
    assert_eq!(plan.styles.len(), 1);
}

#[test]
fn replanning_same_inputs_derives_same_outputs() {
    let inputs = vec!["in/a.jpg".to_string(), "in/b.jpg".to_string()];
    let first = plan_jobs(&inputs);
    let second = plan_jobs(&inputs);
    assert_eq!(first.len(), second.len());
    for (a, b) in first.iter().zip(second.iter()) {
        assert_eq!(a.input, b.input);
        assert_eq!(a.output, b.output);
    }
}

#[test]
fn guide_alpha_is_a_fixed_fraction_of_one() {
    assert_eq!(GUIDE_ALPHA_PERCENT, 80);
    let alpha = GUIDE_ALPHA_PERCENT as f32 / 100.0;
    assert!(0.0 <= alpha && alpha <= 1.0);
}
