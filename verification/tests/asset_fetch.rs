use proton_launcher::assets::{
    fetch_plan, files_dir, files_manifest_url, manifest_entries, parent_of_info,
};
use proton_launcher::template::{apply_special_params, substitute};

fn b(s: &str) -> Vec<u8> {
    s.as_bytes().to_vec()
}

#[test]
fn manifest_url_and_directory_follow_the_layout() {
    assert_eq!(
        String::from_utf8(files_manifest_url(&b("vanilla"))).unwrap(),
        "https://raw.githubusercontent.com/proton-launcher/asset/main/installation/vanilla/files"
    );
    assert_eq!(
        String::from_utf8(files_dir(&b("vanilla"))).unwrap(),
        "installation/files/vanilla"
    );
}

#[test]
fn manifest_lines_skip_empties() {
    let text = b("info.json\n\nscripts/setup.js\nlib/core.jar\n");
    let entries = manifest_entries(&text);
    assert_eq!(
        entries,
        vec![b("info.json"), b("scripts/setup.js"), b("lib/core.jar")]
    );
    assert_eq!(manifest_entries(&b("")), Vec::<Vec<u8>>::new());
}

#[test]
fn fetch_plan_pairs_urls_with_destinations() {
    let entries = vec![b("info.json"), b("lib/core.jar")];
    let plan = fetch_plan(&b("vanilla"), &entries);
    assert_eq!(plan.len(), 2);
    assert_eq!(
        String::from_utf8(plan[1].url.clone()).unwrap(),
        "https://raw.githubusercontent.com/proton-launcher/asset/main/installation/vanilla/lib/core.jar"
    );
    assert_eq!(
        String::from_utf8(plan[1].destination.clone()).unwrap(),
        "installation/files/vanilla/lib/core.jar"
    );
}

#[test]
fn parent_field_guides_the_recursion() {
    assert_eq!(
        parent_of_info(&b("{\"id\":\"child\",\"parent\":\"base\"}")).unwrap(),
        Some(b("base"))
    );
    assert_eq!(parent_of_info(&b("{\"id\":\"root\"}")).unwrap(), None);
    assert_eq!(
        parent_of_info(&b("{\"id\":\"odd\",\"parent\":3}")).unwrap(),
        None
    );
    assert!(parent_of_info(&b("broken")).is_err());
}

#[test]
fn substitution_replaces_known_names_only() {
    let m = vec![(b("files"), b("/data")), (b("path"), b("/usr/bin"))];
    assert_eq!(
        substitute(&b("cd {files} && echo {path} {nope} {files}"), &m),
        b("cd /data && echo /usr/bin {nope} /data")
    );
    assert_eq!(substitute(&b("no brace close {oops"), &m), b("no brace close {oops"));
    assert_eq!(substitute(&b(""), &m), b(""));
}

#[test]
fn special_params_apply_across_a_list() {
    let m = vec![(b("username"), b("alice"))];
    let out = apply_special_params(&vec![b("--user"), b("{username}")], &m);
    assert_eq!(out, vec![b("--user"), b("alice")]);
}
