use proton_launcher::error::PlanError;
use proton_launcher::install::parse_installation;
use proton_launcher::launch::{
    build_argv, build_launch_plan, parse_release_java_version, run_params,
    select_java_executable, synthesize_outputs, RunArguments, ScriptOutputs,
};

fn b(s: &str) -> Vec<u8> {
    s.as_bytes().to_vec()
}

fn args() -> RunArguments {
    RunArguments {
        token: b("tok"),
        uuid: b("uid"),
        username: b("alice"),
    }
}

fn outputs() -> ScriptOutputs {
    ScriptOutputs {
        main_class: b("net.example.Main"),
        classpath: vec![b("a.jar"), b("b.jar")],
        java_arguments: vec![b("-Xmx1G"), b("-Dtoken={access_token}")],
        program_arguments: vec![b("--user"), b("{username}"), b("{unknown}")],
        policies: vec![],
        java_version: -1,
    }
}

#[test]
fn missing_main_class_is_fatal() {
    let mut o = outputs();
    o.main_class = Vec::new();
    assert_eq!(
        build_launch_plan(o, &args()),
        Err(PlanError::MissingMainClass)
    );
}

#[test]
fn plan_substitutes_run_arguments() {
    let plan = build_launch_plan(outputs(), &args()).unwrap();
    assert_eq!(plan.main_class, b("net.example.Main"));
    assert_eq!(plan.java_arguments, vec![b("-Xmx1G"), b("-Dtoken=tok")]);
    // recognised placeholders are gone; unknown ones pass through
    assert_eq!(
        plan.program_arguments,
        vec![b("--user"), b("alice"), b("{unknown}")]
    );
    assert_eq!(plan.policy_text, None);
    assert_eq!(plan.java_version, None);
}

#[test]
fn policies_concatenate_into_one_file() {
    let mut o = outputs();
    o.policies = vec![b("grant {};\n"), b("// extra\n")];
    o.java_version = 17;
    let plan = build_launch_plan(o, &args()).unwrap();
    assert_eq!(plan.policy_text, Some(b("grant {};\n// extra\n")));
    assert_eq!(plan.java_version, Some(17));
}

#[test]
fn argv_layout_without_policy() {
    let plan = build_launch_plan(outputs(), &args()).unwrap();
    let argv = build_argv(&plan, false);
    assert_eq!(
        argv,
        vec![
            b("-Xmx1G"),
            b("-Dtoken=tok"),
            b("-cp"),
            b(".:a.jar:b.jar"),
            b("net.example.Main"),
            b("--user"),
            b("alice"),
            b("{unknown}"),
        ]
    );
}

#[test]
fn argv_uses_semicolon_on_windows_and_adds_security_flags() {
    let mut o = outputs();
    o.policies = vec![b("grant;")];
    let plan = build_launch_plan(o, &args()).unwrap();
    let argv = build_argv(&plan, true);
    assert_eq!(
        argv,
        vec![
            b("-Xmx1G"),
            b("-Dtoken=tok"),
            b("-Djava.security.manager"),
            b("-Djava.security.policy==policy.policy"),
            b("-DLWJGL_DISABLE_XRANDR=true"),
            b("-Dsecurity_location=security.security"),
            b("-cp"),
            b(".;a.jar;b.jar"),
            b("net.example.Main"),
            b("--user"),
            b("alice"),
            b("{unknown}"),
        ]
    );
}

#[test]
fn empty_classpath_still_includes_the_working_directory() {
    let mut o = outputs();
    o.classpath = vec![];
    let plan = build_launch_plan(o, &args()).unwrap();
    let argv = build_argv(&plan, false);
    assert!(argv.contains(&b(".:")));
}

#[test]
fn classpath_and_policies_receive_the_run_arguments_too() {
    let mut o = outputs();
    o.classpath = vec![b("libs/{uuid}.jar")];
    o.policies = vec![b("grant codeBase \"{access_token}\" {};\n")];
    let plan = build_launch_plan(o, &args()).unwrap();
    assert_eq!(plan.classpath, vec![b("libs/uid.jar")]);
    assert_eq!(plan.policy_text, Some(b("grant codeBase \"tok\" {};\n")));
}

#[test]
fn run_params_carry_the_three_placeholders() {
    let p = run_params(&args());
    assert_eq!(p[0], (b("access_token"), b("tok")));
    assert_eq!(p[1], (b("uuid"), b("uid")));
    assert_eq!(p[2], (b("username"), b("alice")));
}

#[test]
fn release_version_reads_modern_and_legacy_schemes() {
    let modern = b("IMPLEMENTOR=\"x\"\nJAVA_VERSION=\"17.0.2\"\nOS=\"linux\"\n");
    assert_eq!(parse_release_java_version(&modern), Some(17));
    let legacy = b("JAVA_VERSION=\"1.8.0_292\"\n");
    assert_eq!(parse_release_java_version(&legacy), Some(8));
    let none = b("OS=\"linux\"\n");
    assert_eq!(parse_release_java_version(&none), None);
    let unquoted = b("JAVA_VERSION=17\n");
    assert_eq!(parse_release_java_version(&unquoted), None);
}

#[test]
fn selects_the_first_matching_jdk() {
    let dirs = vec![
        (b("/lib/jvm/jdk-11"), b("JAVA_VERSION=\"11.0.1\"\n")),
        (b("/lib/jvm/jdk-17a"), b("JAVA_VERSION=\"17.0.2\"\n")),
        (b("/lib/jvm/jdk-17b"), b("JAVA_VERSION=\"17.0.9\"\n")),
    ];
    assert_eq!(
        select_java_executable(&dirs, 17),
        Some(b("/lib/jvm/jdk-17a/bin/java"))
    );
    assert_eq!(select_java_executable(&dirs, 21), None);
}

fn no_script_outputs() -> ScriptOutputs {
    ScriptOutputs {
        main_class: Vec::new(),
        classpath: vec![],
        java_arguments: vec![],
        program_arguments: vec![],
        policies: vec![],
        java_version: -1,
    }
}

#[test]
fn descriptor_alone_yields_a_full_plan() {
    let files = vec![(
        b("X"),
        b(r#"{"id":"X","game":{"main_class":"M","classpath":[{"file":"a.jar"}]}}"#),
    )];
    let inst = parse_installation(&b("X"), &files, &Vec::new()).unwrap();
    let merged = synthesize_outputs(&inst, &b("linux"), &vec![], &Vec::new(), no_script_outputs());
    let plan = build_launch_plan(merged, &args()).unwrap();
    assert_eq!(plan.main_class, b("M"));
    assert_eq!(plan.classpath, vec![b("a.jar")]);
    assert_eq!(plan.policy_text, None);
    assert_eq!(plan.java_version, None);
}

#[test]
fn inherited_java_arguments_reach_the_plan_parent_first() {
    let files = vec![
        (
            b("A"),
            b(r#"{"id":"A","game":{"java_arguments":["-Xms256M"]}}"#),
        ),
        (
            b("B"),
            b(r#"{"id":"B","parent":"A","game":{"main_class":"M","java_arguments":["-Xmx1G"]}}"#),
        ),
    ];
    let inst = parse_installation(&b("B"), &files, &Vec::new()).unwrap();
    let merged = synthesize_outputs(&inst, &b("linux"), &vec![], &Vec::new(), no_script_outputs());
    let plan = build_launch_plan(merged, &args()).unwrap();
    assert_eq!(plan.java_arguments, vec![b("-Xms256M"), b("-Xmx1G")]);
}

#[test]
fn no_main_class_anywhere_in_the_chain_is_a_plan_error() {
    let files = vec![
        (b("A"), b(r#"{"id":"A","game":{}}"#)),
        (
            b("B"),
            b(r#"{"id":"B","parent":"A","game":{"classpath":[{"file":"a.jar"}]}}"#),
        ),
    ];
    let inst = parse_installation(&b("B"), &files, &Vec::new()).unwrap();
    let merged = synthesize_outputs(&inst, &b("linux"), &vec![], &Vec::new(), no_script_outputs());
    assert_eq!(build_launch_plan(merged, &args()), Err(PlanError::MissingMainClass));
}

#[test]
fn scripts_extend_what_the_chain_declares() {
    let files = vec![(
        b("X"),
        b(r#"{"id":"X","game":{"main_class":"M","classpath":[{"file":"a.jar"}]}}"#),
    )];
    let inst = parse_installation(&b("X"), &files, &Vec::new()).unwrap();
    let mut from_scripts = no_script_outputs();
    from_scripts.main_class = b("script.Main");
    from_scripts.classpath = vec![b("extra.jar")];
    from_scripts.java_version = 17;
    let merged = synthesize_outputs(&inst, &b("linux"), &vec![], &Vec::new(), from_scripts);
    assert_eq!(merged.main_class, b("script.Main"));
    assert_eq!(merged.classpath, vec![b("a.jar"), b("extra.jar")]);
    assert_eq!(merged.java_version, 17);
}

#[test]
fn policy_bodies_reach_the_plan_substituted() {
    let files = vec![(
        b("X"),
        b(r#"{"id":"X","game":{"main_class":"M","policies":["x.policy"]}}"#),
    )];
    let inst = parse_installation(&b("X"), &files, &Vec::new()).unwrap();
    assert_eq!(inst.get_policy_files(), vec![(b("X"), b("x.policy"))]);
    let subst = vec![(b("files"), b("/data/X"))];
    let bodies = vec![b("grant codeBase \"{files}\" {};\n")];
    let merged = synthesize_outputs(&inst, &b("linux"), &bodies, &subst, no_script_outputs());
    assert_eq!(merged.policies, vec![b("grant codeBase \"/data/X\" {};\n")]);
    let plan = build_launch_plan(merged, &args()).unwrap();
    assert_eq!(plan.policy_text, Some(b("grant codeBase \"/data/X\" {};\n")));
}
