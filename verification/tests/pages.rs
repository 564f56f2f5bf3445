use mas_core::iana::ParseError;
use mas_core::register::{RegisterError, RegisterForm, RegisterRequest};
use mas_core::templates::{
    check_loaded, extra_templates, is_listed, missing_templates, needed_templates, template_glob,
    write_options,
};

fn strings(names: &[&str]) -> Vec<String> {
    names.iter().map(|n| n.to_string()).collect()
}

#[test]
fn parse_error_says_what_it_is() {
    let e = ParseError::new();
    assert_eq!(e.to_string(), "Parse error");
    assert_eq!(e.name(), "ParseError");
}

#[test]
fn register_link_without_action() {
    let req = RegisterRequest { post_auth_action: None };
    assert_eq!(req.as_link(), "/register");
}

#[test]
fn register_link_carries_the_action() {
    let req = RegisterRequest { post_auth_action: Some("next=continue_authorization_grant&data=13".to_string()) };
    assert_eq!(req.as_link(), "/register?next=continue_authorization_grant&data=13");
    let empty = RegisterRequest { post_auth_action: Some(String::new()) };
    assert_eq!(empty.as_link(), "/register?");
}

#[test]
fn register_form_wants_the_password_twice() {
    let form = RegisterForm {
        username: "alice".to_string(),
        password: "hunter2".to_string(),
        password_confirm: "hunter2".to_string(),
    };
    assert_eq!(form.check(), Ok(()));
    let form = RegisterForm {
        username: "alice".to_string(),
        password: "hunter2".to_string(),
        password_confirm: "hunter3".to_string(),
    };
    assert_eq!(form.check(), Err(RegisterError::PasswordMismatch));
    assert_eq!(RegisterError::PasswordMismatch.message(), "password mismatch");
}

#[test]
fn needed_templates_are_the_pages() {
    assert_eq!(
        needed_templates(),
        strings(&["login.html", "register.html", "index.html", "reauth.html", "form_post.html", "error.html"])
    );
    assert_eq!(extra_templates(), strings(&["base.html"]));
}

#[test]
fn template_glob_covers_html_and_txt() {
    assert_eq!(template_glob("/etc/mas/templates"), "/etc/mas/templates/**/*.{html,txt}");
    assert_eq!(template_glob(""), "/**/*.{html,txt}");
}

#[test]
fn missing_templates_are_found() {
    let needed = strings(&["a.html", "b.html", "c.html"]);
    let loaded = strings(&["c.html", "base.html", "a.html"]);
    assert!(is_listed(&loaded, &"a.html".to_string()));
    assert!(!is_listed(&loaded, &"b.html".to_string()));
    assert_eq!(missing_templates(&needed, &loaded), strings(&["b.html"]));
    assert_eq!(missing_templates(&needed, &Vec::new()), needed);
    assert!(missing_templates(&Vec::new(), &loaded).is_empty());
}

#[test]
fn check_loaded_names_what_is_missing() {
    let needed = needed_templates();
    let mut loaded = needed_templates();
    loaded.push("base.html".to_string());
    assert!(check_loaded(&needed, loaded).is_ok());

    let loaded = strings(&["login.html", "error.html", "base.html"]);
    let err = check_loaded(&needed, loaded.clone()).err().unwrap();
    assert_eq!(err.missing, strings(&["register.html", "index.html", "reauth.html", "form_post.html"]));
    assert_eq!(err.loaded, loaded);
}

#[test]
fn write_options_never_overwrite_unasked() {
    let keep = write_options(false);
    assert!(keep.write && keep.create_new && !keep.create && !keep.truncate);
    let over = write_options(true);
    assert!(over.write && over.create && over.truncate && !over.create_new);
}
