use doorman::dos::{dos_file, holds_partial_tag, to_dos_lines, DosFile, Templates};
use doorman::error::DoorError;
use doorman::json::Json;

fn vars(members: Vec<(&str, Json)>) -> Json {
    Json::Object(members.into_iter().map(|(k, v)| (k.to_string(), v)).collect())
}

fn templates() -> Templates {
    Templates::new(vec![
        ("door.sys.hbr".to_string(), "{{user.display_name}}\n{{node}}\n".to_string()),
        ("doorman.bat.hbr".to_string(), "@echo off\n{{commands}}\n".to_string()),
    ])
}

#[test]
fn line_feeds_get_a_carriage_return() {
    assert_eq!(to_dos_lines("a\nb\n"), "a\r\nb\r\n");
    assert_eq!(to_dos_lines("no line end"), "no line end");
    assert_eq!(to_dos_lines(""), "");
    assert_eq!(to_dos_lines("\n\n"), "\r\n\r\n");
}

#[test]
fn a_carriage_return_that_is_there_already_is_kept() {
    assert_eq!(to_dos_lines("a\r\nb"), "a\r\r\nb");
}

#[test]
fn dos_lines_agree_with_replacing_every_line_feed() {
    for text in ["", "a", "\n", "a\nb", "a\r\nb\n", "\r", "x\n\ny"] {
        assert_eq!(to_dos_lines(text), text.replace("\n", "\r\n"), "{:?}", text);
    }
}

#[test]
fn a_file_is_named_in_upper_case_inside_its_directory() {
    let file = dos_file("/run/lord.1", "door.sys", "x");
    assert_eq!(file.path, "/run/lord.1/DOOR.SYS");
}

#[test]
fn a_file_is_written_in_code_page_437() {
    let file = dos_file("/w", "doorman.bat", "caf\u{e9} \u{2592}\n\u{3a9}");
    assert_eq!(
        file,
        DosFile {
            path: "/w/DOORMAN.BAT".to_string(),
            bytes: vec![b'c', b'a', b'f', 0x82, b' ', 0xB1, 0x0D, 0x0A, 0xEA],
        }
    );
}

#[test]
fn a_character_outside_the_code_page_becomes_a_question_mark() {
    let file = dos_file("/w", "a", "\u{1F980}\u{4e2d}b");
    assert_eq!(file.bytes, vec![63, 63, b'b']);
}

#[test]
fn plain_text_is_written_as_it_is() {
    assert_eq!(dos_file("/w", "a", "plain").bytes, b"plain".to_vec());
}

#[test]
fn a_template_is_rendered_with_its_variables() {
    let rendered = templates().render_string(
        "{{user.username}} on node {{node}} at {{current_time}}",
        &vars(vec![
            ("user", vars(vec![("username", Json::Text("alice".to_string()))])),
            ("node", Json::Number(Some(2))),
            ("current_time", Json::Text("12:34".to_string())),
        ]),
    );
    assert_eq!(rendered, Ok("alice on node 2 at 12:34".to_string()));
}

#[test]
fn rendering_does_not_escape() {
    let rendered = templates()
        .render_string("{{commands}}", &vars(vec![("commands", Json::Text("a < b & \"c\"".to_string()))]));
    assert_eq!(rendered, Ok("a < b & \"c\"".to_string()));
}

#[test]
fn a_variable_that_is_missing_renders_as_nothing() {
    assert_eq!(templates().render_string("[{{nothing}}]", &vars(vec![])), Ok("[]".to_string()));
}

#[test]
fn a_broken_template_is_a_render_error() {
    assert_eq!(templates().render_string("{{#if}", &vars(vec![])), Err(DoorError::Render));
    assert_eq!(templates().render_string("{{x 1}}", &vars(vec![])), Err(DoorError::Render));
}

#[test]
fn a_stored_template_is_found_by_its_file_name() {
    let rendered = templates().render_template(
        "door.sys",
        &vars(vec![
            ("user", vars(vec![("display_name", Json::Text("Alice".to_string()))])),
            ("node", Json::Number(Some(1))),
        ]),
    );
    assert_eq!(rendered, Ok("Alice\n1\n".to_string()));
}

#[test]
fn a_template_that_is_not_stored_is_unknown() {
    assert_eq!(
        templates().render_template("exitinfo.bbs", &vars(vec![])),
        Err(DoorError::UnknownTemplate { name: "exitinfo.bbs".to_string() })
    );
}

#[test]
fn write_dos_renders_and_encodes() {
    let file = templates().write_dos(
        "doorman.bat",
        "/run/doorman/lord.sysop",
        &vars(vec![("commands", Json::Text("lordcfg.exe".to_string()))]),
    );
    assert_eq!(
        file,
        Ok(DosFile {
            path: "/run/doorman/lord.sysop/DOORMAN.BAT".to_string(),
            bytes: b"@echo off\r\nlordcfg.exe\r\n".to_vec(),
        })
    );
}

#[test]
fn write_dos_reports_an_unknown_template() {
    assert_eq!(
        templates().write_dos("nothing", "/w", &vars(vec![])),
        Err(DoorError::UnknownTemplate { name: "nothing".to_string() })
    );
}

#[test]
fn partial_tags_are_found() {
    for template in [
        "{{> header}}",
        "{{>header}}",
        "a {{~> header}} b",
        "{{#> layout}}x{{/layout}}",
        "{{ # > layout}}x{{/layout}}",
        "{{~#>layout}}",
        "{{ \t\r\n> x}}",
        "{{{{> x}}",
        "\\{{> x}}",
        "{{!-- {{> x}} --}}",
        "{{#*inline \"me\"}}{{> me}}{{/inline}}{{> me}}",
        "{{",
    ] {
        assert_eq!(holds_partial_tag(template), template != "{{", "{:?}", template);
    }
}

#[test]
fn other_templates_hold_no_partial_tag() {
    for template in [
        "",
        "plain",
        "dir > out.txt",
        "{{node}} > {{user.username}}",
        "{{#if a}}>{{/if}}",
        "{{a}}>",
        "{ {> x}}",
        "{{x > y}}",
        "{{#each list}}{{this}}{{/each}}",
        "{{{raw}}}",
        "{{~a~}}",
        "{{#",
        "{{ ~",
    ] {
        assert!(!holds_partial_tag(template), "{:?}", template);
    }
}

#[test]
fn a_template_with_a_partial_tag_is_not_rendered() {
    let data = vars(vec![("a", Json::Number(Some(1))), ("b", Json::Number(Some(2)))]);
    let itself = "{{#*inline \"me\"}}{{> me}}{{/inline}}{{> me}}";
    assert_eq!(templates().render_string(itself, &data), Err(DoorError::Render));
    let listing = "{{#*inline \"p\"}}{{#each this}}{{@key}}{{/each}}{{/inline}}{{> p x=1 y=2}}";
    assert_eq!(templates().render_string(listing, &data), Err(DoorError::Render));
    assert_eq!(templates().render_string("{{> missing}}", &data), Err(DoorError::Render));
}

#[test]
fn rendering_the_same_twice_gives_the_same() {
    let data = vars(vec![
        ("z", Json::Number(Some(1))),
        ("a", Json::Number(Some(2))),
        ("m", Json::Text("x".to_string())),
    ]);
    let template = "{{#each this}}{{@key}}={{this}};{{/each}}";
    let first = templates().render_string(template, &data);
    assert_eq!(first, Ok("z=1;a=2;m=x;".to_string()));
    for _ in 0..20 {
        assert_eq!(templates().render_string(template, &data), first);
    }
}
