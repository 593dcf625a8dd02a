use proton_launcher::error::ConfigError;
use proton_launcher::install::{parse_installation, parse_installation_info};

fn b(s: &str) -> Vec<u8> {
    s.as_bytes().to_vec()
}

fn no_subst() -> Vec<(Vec<u8>, Vec<u8>)> {
    Vec::new()
}

#[test]
fn parses_all_descriptor_fields() {
    let text = b(r#"{
        "id": "base",
        "parent": null,
        "scripts": {"install": "setup.js", "launch": "run.js"},
        "game": {
            "main_class": "net.example.Main",
            "classpath": [
                {"file": "core.jar"},
                {"file": "native-linux.so", "platforms": ["linux"]}
            ],
            "program_arguments": ["--user", "{username}"],
            "java_arguments": ["-Xmx{memory}M"],
            "policies": ["base.policy"],
            "java_version": 17
        }
    }"#);
    let info = parse_installation_info(&text, &no_subst()).unwrap();
    assert_eq!(info.id, b("base"));
    assert_eq!(info.parent, None);
    assert_eq!(info.scripts.len(), 2);
    assert_eq!(info.scripts[0], (b("install"), b("setup.js")));
    assert_eq!(info.main_class, Some(b("net.example.Main")));
    assert_eq!(info.classpath.len(), 2);
    assert_eq!(info.classpath[0].file, b("core.jar"));
    assert_eq!(info.classpath[1].platforms, Some(vec![b("linux")]));
    assert_eq!(info.program_arguments, vec![b("--user"), b("{username}")]);
    assert_eq!(info.java_arguments, vec![b("-Xmx{memory}M")]);
    assert_eq!(info.policies, vec![b("base.policy")]);
    assert_eq!(info.java_version, Some(17));
}

#[test]
fn substitutes_templates_in_argument_lists_at_parse_time() {
    let text = b(r#"{"id":"x","game":{"java_arguments":["-Dhome={files}"],"program_arguments":["{root}/saves"]}}"#);
    let subst = vec![
        (b("files"), b("/data/inst")),
        (b("root"), b("/work")),
    ];
    let info = parse_installation_info(&text, &subst).unwrap();
    assert_eq!(info.java_arguments, vec![b("-Dhome=/data/inst")]);
    assert_eq!(info.program_arguments, vec![b("/work/saves")]);
}

#[test]
fn missing_id_is_a_config_error() {
    let r = parse_installation_info(&b(r#"{"parent":"p"}"#), &no_subst());
    assert_eq!(r, Err(ConfigError::MissingId));
}

#[test]
fn script_hooks_must_be_strings() {
    let r = parse_installation_info(
        &b(r#"{"id":"x","scripts":{"install":3}}"#),
        &no_subst(),
    );
    assert_eq!(r, Err(ConfigError::ScriptNotString));
}

#[test]
fn fresh_install_without_parent() {
    let files = vec![(
        b("X"),
        b(r#"{"id":"X","game":{"main_class":"M","classpath":[{"file":"a.jar"}]}}"#),
    )];
    let inst = parse_installation(&b("X"), &files, &no_subst()).unwrap();
    assert_eq!(inst.id(), &b("X"));
    assert_eq!(inst.get_main_class(), Some(&b("M")));
    assert_eq!(inst.get_classpath(&b("linux")), vec![b("a.jar")]);
}

#[test]
fn classpath_inherits_leaf_first() {
    let files = vec![
        (b("A"), b(r#"{"id":"A","game":{"classpath":[{"file":"a"}]}}"#)),
        (
            b("B"),
            b(r#"{"id":"B","parent":"A","game":{"classpath":[{"file":"b"}]}}"#),
        ),
        (
            b("C"),
            b(r#"{"id":"C","parent":"B","game":{"classpath":[{"file":"c"}]}}"#),
        ),
    ];
    let inst = parse_installation(&b("C"), &files, &no_subst()).unwrap();
    assert_eq!(
        inst.get_classpath(&b("linux")),
        vec![b("c"), b("b"), b("a")]
    );
}

#[test]
fn java_arguments_inherit_parent_first() {
    let files = vec![
        (
            b("A"),
            b(r#"{"id":"A","game":{"java_arguments":["-Xms256M"]}}"#),
        ),
        (
            b("B"),
            b(r#"{"id":"B","parent":"A","game":{"java_arguments":["-Xmx1G"]}}"#),
        ),
    ];
    let inst = parse_installation(&b("B"), &files, &no_subst()).unwrap();
    assert_eq!(
        inst.get_java_arguments(),
        vec![b("-Xms256M"), b("-Xmx1G")]
    );
}

#[test]
fn platform_filter_hides_foreign_entries() {
    let files = vec![(
        b("X"),
        b(r#"{"id":"X","game":{"classpath":[
            {"file":"native-linux.so","platforms":["linux"]},
            {"file":"common.jar"}
        ]}}"#),
    )];
    let inst = parse_installation(&b("X"), &files, &no_subst()).unwrap();
    assert_eq!(
        inst.get_classpath(&b("linux")),
        vec![b("native-linux.so"), b("common.jar")]
    );
    assert_eq!(inst.get_classpath(&b("macos")), vec![b("common.jar")]);
}

#[test]
fn main_class_falls_back_to_ancestors() {
    let files = vec![
        (b("A"), b(r#"{"id":"A","game":{"main_class":"Root"}}"#)),
        (b("B"), b(r#"{"id":"B","parent":"A","game":{}}"#)),
    ];
    let inst = parse_installation(&b("B"), &files, &no_subst()).unwrap();
    assert_eq!(inst.get_main_class(), Some(&b("Root")));
    assert_eq!(inst.get_java_version(), None);
}

#[test]
fn scripts_run_root_first() {
    let files = vec![
        (
            b("A"),
            b(r#"{"id":"A","scripts":{"launch":"a.js"}}"#),
        ),
        (
            b("B"),
            b(r#"{"id":"B","parent":"A","scripts":{"launch":"b.js","install":"i.js"}}"#),
        ),
    ];
    let inst = parse_installation(&b("B"), &files, &no_subst()).unwrap();
    assert_eq!(
        inst.get_scripts(&b("launch")),
        vec![(b("A"), b("a.js")), (b("B"), b("b.js"))]
    );
    assert_eq!(inst.get_scripts(&b("install")), vec![(b("B"), b("i.js"))]);
    assert_eq!(inst.get_script(&b("install")), Some(&b("i.js")));
}

#[test]
fn parent_cycle_is_detected() {
    let files = vec![
        (b("a"), b(r#"{"id":"a","parent":"b"}"#)),
        (b("b"), b(r#"{"id":"b","parent":"a"}"#)),
    ];
    let r = parse_installation(&b("a"), &files, &no_subst());
    assert_eq!(r, Err(ConfigError::ParentCycle(b("a"))));
}

#[test]
fn self_parent_is_a_cycle() {
    let files = vec![(b("a"), b(r#"{"id":"a","parent":"a"}"#))];
    let r = parse_installation(&b("a"), &files, &no_subst());
    assert_eq!(r, Err(ConfigError::ParentCycle(b("a"))));
}

#[test]
fn missing_parent_descriptor_is_reported() {
    let files = vec![(b("a"), b(r#"{"id":"a","parent":"ghost"}"#))];
    let r = parse_installation(&b("a"), &files, &no_subst());
    assert_eq!(r, Err(ConfigError::MissingDescriptor(b("ghost"))));
}
