use cargo_scout_audit::templates::{render_template, RenderError};

#[test]
fn rendering_without_an_engine_fails() {
    let r = render_template(&None, "base.html", &tera::Context::new());
    assert!(matches!(r, Err(RenderError::NotInitialized)));
}

#[test]
fn rendering_with_an_engine() {
    let mut engine = tera::Tera::default();
    engine.add_raw_template("greet", "Hello {{ name }}!").unwrap();
    let mut context = tera::Context::new();
    context.insert("name", "Scout");
    let engine = Some(engine);
    assert_eq!(render_template(&engine, "greet", &context).unwrap(), "Hello Scout!");
    match render_template(&engine, "missing.html", &context) {
        Err(e) => assert!(!e.is_not_initialized()),
        Ok(s) => panic!("unexpected {}", s),
    }
}

#[test]
fn a_missing_template_is_an_engine_error() {
    let mut t = tera::Tera::default();
    t.add_raw_template("base.html", "<p>{{ title }}</p>").unwrap();
    let mut ctx = tera::Context::new();
    ctx.insert("title", "Report");
    let engine = Some(t);
    let r = render_template(&engine, "report.html", &ctx);
    assert!(matches!(r, Err(RenderError::Engine(_))));
    assert!(!r.unwrap_err().is_not_initialized());
    assert_eq!(render_template(&engine, "base.html", &ctx).unwrap(), "<p>Report</p>");
}

#[test]
fn render_errors_have_messages() {
    let r = render_template(&None, "base.html", &tera::Context::new());
    assert_eq!(r.unwrap_err().message(), "Template engine was not initialized");
    let engine = Some(tera::Tera::default());
    let e = render_template(&engine, "base.html", &tera::Context::new()).unwrap_err();
    assert!(!e.message().is_empty());
    assert_ne!(e.message(), "Template engine was not initialized");
}
